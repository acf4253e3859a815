use cfait::bootstrap::{find_configured, ConnectStage, Connection};
use cfait::client::RustyClient;
use cfait::config::Config;
use cfait::discover::{Discovery, Listing};
use cfait::exchange::{Request, ResourceEntry, Response};
use cfait::gui::{cutoff_instant, AppState, SidebarMode};
use cfait::mobile::{
    apply_connection, mobile_calendars, set_visibility, target_calendar, toggle_done,
    MobileConfig, MobileError, MobileTask,
};
use cfait::model::{CalendarListEntry, Task, TaskStatus};
use cfait::refresh::{Completion, Refresh, MAX_IN_FLIGHT};
use cfait::tui::Action;

fn task(uid: &str) -> Task {
    Task {
        uid: uid.to_string(),
        summary: format!("task {}", uid),
        description: "d".to_string(),
        status: TaskStatus::NeedsAction,
        estimated_duration: Some(30),
        due: Some(1704067200),
        dtstart: None,
        priority: 4,
        parent_uid: Some("p".to_string()),
        dependencies: Vec::new(),
        etag: String::new(),
        href: String::new(),
        calendar_href: "/cal/".to_string(),
        categories: vec!["x".to_string()],
        depth: 0,
        rrule: Some("FREQ=DAILY".to_string()),
    }
}

fn calendar(name: &str, href: &str) -> CalendarListEntry {
    CalendarListEntry { name: name.to_string(), href: href.to_string(), color: None }
}

fn config(url: &str, default: Option<&str>) -> Config {
    let mut c = Config::default();
    c.url = url.to_string();
    c.allow_insecure_certs = true;
    c.default_calendar = default.map(|d| d.to_string());
    c
}

fn online() -> RustyClient {
    RustyClient::new("https://example.org/dav/", "u", "p", true, 0).unwrap()
}

fn offline() -> RustyClient {
    RustyClient::new("", "", "", false, 0).unwrap()
}

fn hrefs(n: usize) -> Vec<CalendarListEntry> {
    (0..n).map(|i| calendar(&format!("c{}", i), &format!("/c{}/", i))).collect()
}

#[test]
fn refresh_never_has_more_than_four_readings_under_way() {
    let c = online();
    let (mut r, mut started) = c.get_all_tasks(Refresh::begin(&hrefs(10)), None);
    assert_eq!(started, vec!["/c0/", "/c1/", "/c2/", "/c3/"]);
    let mut under_way: Vec<String> = started.clone();
    let mut launched = started.len();
    let mut step = 0;
    while !r.is_finished() {
        assert!(under_way.len() <= MAX_IN_FLIGHT);
        assert_eq!(r.in_flight.len(), under_way.len());
        // Readings end in another order than they started.
        let href = under_way.remove(if step % 2 == 0 { under_way.len() - 1 } else { 0 });
        let outcome =
            if step % 3 == 0 { Err("failed".to_string()) } else { Ok(vec![task(&href)]) };
        (r, started) = c.get_all_tasks(r, Some(Completion { href, outcome }));
        assert!(started.len() <= 1);
        launched += started.len();
        under_way.extend(started.clone());
        assert!(r.in_flight.len() <= MAX_IN_FLIGHT);
        step += 1;
    }
    assert_eq!(launched, 10);
    assert_eq!(step, 10);
    let results = r.into_results();
    assert_eq!(results.len(), 6);
    for (href, tasks) in &results {
        assert_eq!(tasks[0].uid, *href);
    }
}

#[test]
fn refresh_returns_the_one_success_among_failures() {
    let c = online();
    let (mut r, _) = c.get_all_tasks(Refresh::begin(&hrefs(6)), None);
    for i in 0..6 {
        let href = format!("/c{}/", i);
        let outcome = if i == 4 { Ok(vec![task("only")]) } else { Err("down".to_string()) };
        (r, _) = c.get_all_tasks(r, Some(Completion { href, outcome }));
    }
    assert!(r.is_finished());
    let results = r.into_results();
    assert_eq!(results.len(), 1);
    assert_eq!(results[0].0, "/c4/");
    assert_eq!(results[0].1[0].uid, "only");
}

#[test]
fn refresh_of_few_calendars_starts_them_all() {
    let c = online();
    let (r, started) = c.get_all_tasks(Refresh::begin(&hrefs(2)), None);
    assert_eq!(started, vec!["/c0/", "/c1/"]);
    assert!(!r.is_finished());
    let (r, started) = c.get_all_tasks(Refresh::begin(&Vec::new()), None);
    assert!(started.is_empty());
    assert!(r.is_finished());
}

#[test]
fn end_of_a_reading_that_is_not_under_way_changes_nothing() {
    let c = online();
    let (r, _) = c.get_all_tasks(Refresh::begin(&hrefs(5)), None);
    let (r, started) = c.get_all_tasks(
        r,
        Some(Completion { href: "/c4/".to_string(), outcome: Ok(vec![task("x")]) }),
    );
    assert!(started.is_empty());
    assert_eq!(r.in_flight.len(), 4);
    assert_eq!(r.pending, vec!["/c4/"]);
    assert!(r.results.is_empty());
}

#[test]
fn session_comes_up_online() {
    let (s, request) = RustyClient::connect_with_fallback(
        Connection::begin(config("https://example.org/dav/", Some("Work")), 0),
        Response::Start,
    );
    assert!(matches!(request, Some(Request::FlushJournal)));
    assert!(s.client.is_online());
    let (s, request) = RustyClient::connect_with_fallback(s, Response::Done(Err("x".to_string())));
    assert!(matches!(request, Some(Request::FetchCalendars)));
    let list = vec![calendar("Home", "/home/"), calendar("Work", "/work/")];
    let (s, request) = RustyClient::connect_with_fallback(s, Response::Calendars(Ok(list)));
    assert!(matches!(request, Some(Request::SaveCalendars { ref calendars }) if calendars.len() == 2));
    let (s, request) = RustyClient::connect_with_fallback(s, Response::Done(Err("ro".to_string())));
    assert!(matches!(request, Some(Request::SyncCalendar { ref calendar_href }) if calendar_href == "/work/"));
    assert_eq!(s.stage, ConnectStage::Tasks);
    let (s, request) = RustyClient::connect_with_fallback(s, Response::Tasks(Ok(vec![task("a")])));
    assert!(request.is_none());
    assert!(s.is_finished());
    let (client, calendars, tasks, active, warning) = s.into_result().unwrap();
    assert!(client.is_online());
    assert_eq!(calendars.len(), 2);
    assert_eq!(tasks.len(), 1);
    assert_eq!(active, Some("/work/".to_string()));
    assert_eq!(warning, None);
}

#[test]
fn session_discovers_a_calendar_where_none_is_configured() {
    let (s, _) = RustyClient::connect_with_fallback(
        Connection::begin(config("https://example.org/dav/", Some("Missing")), 0),
        Response::Start,
    );
    let (s, _) = RustyClient::connect_with_fallback(s, Response::Done(Ok(())));
    let (s, _) = RustyClient::connect_with_fallback(s, Response::Calendars(Ok(vec![calendar("Home", "/home/")])));
    let (s, request) = RustyClient::connect_with_fallback(s, Response::Done(Ok(())));
    assert!(matches!(request, Some(Request::Discover)));
    let (s, request) = RustyClient::connect_with_fallback(s, Response::Text(Ok(Some("/found/".to_string()))));
    assert!(matches!(request, Some(Request::SyncCalendar { ref calendar_href }) if calendar_href == "/found/"));
    let (s, _) = RustyClient::connect_with_fallback(s, Response::Tasks(Err("x".to_string())));
    let (_, _, tasks, active, warning) = s.into_result().unwrap();
    assert!(tasks.is_empty());
    assert_eq!(active, Some("/found/".to_string()));
    assert_eq!(warning, None);
}

#[test]
fn session_without_any_calendar_has_no_tasks() {
    let (s, _) = RustyClient::connect_with_fallback(Connection::begin(config("", None), 0), Response::Start);
    assert!(!s.client.is_online());
    let (s, _) = RustyClient::connect_with_fallback(s, Response::Done(Ok(())));
    let (s, _) = RustyClient::connect_with_fallback(s, Response::Calendars(Ok(Vec::new())));
    let (s, request) = RustyClient::connect_with_fallback(s, Response::Done(Ok(())));
    assert!(matches!(request, Some(Request::Discover)));
    let (s, request) = RustyClient::connect_with_fallback(s, Response::Text(Err("Offline".to_string())));
    assert!(request.is_none());
    let (_, calendars, tasks, active, warning) = s.into_result().unwrap();
    assert!(calendars.is_empty());
    assert!(tasks.is_empty());
    assert_eq!(active, None);
    assert_eq!(warning, None);
}

#[test]
fn certificate_failure_is_fatal() {
    let (s, _) = RustyClient::connect_with_fallback(
        Connection::begin(config("https://example.org/dav/", None), 0),
        Response::Start,
    );
    let (s, _) = RustyClient::connect_with_fallback(s, Response::Done(Ok(())));
    let (s, request) = RustyClient::connect_with_fallback(
        s,
        Response::Calendars(Err("Tls(InvalidCertificate(Expired))".to_string())),
    );
    assert!(request.is_none());
    assert_eq!(
        s.into_result().err(),
        Some("Connection failed: Tls(InvalidCertificate(Expired))".to_string())
    );
}

#[test]
fn other_failures_fall_back_to_the_list_last_seen() {
    let (s, _) = RustyClient::connect_with_fallback(
        Connection::begin(config("https://example.org/dav/", Some("/work/")), 0),
        Response::Start,
    );
    let (s, _) = RustyClient::connect_with_fallback(s, Response::Done(Ok(())));
    let (s, request) = RustyClient::connect_with_fallback(s, Response::Calendars(Err("dns error".to_string())));
    assert!(matches!(request, Some(Request::LoadCalendars)));
    let (s, request) = RustyClient::connect_with_fallback(
        s,
        Response::Calendars(Ok(vec![calendar("Work", "/work/")])),
    );
    assert!(request.is_none());
    let (_, calendars, tasks, active, warning) = s.into_result().unwrap();
    assert_eq!(calendars.len(), 1);
    assert!(tasks.is_empty());
    assert_eq!(active, Some("/work/".to_string()));
    assert_eq!(warning, Some("Offline Mode (Network unreachable)".to_string()));

    let (s, _) = RustyClient::connect_with_fallback(
        Connection::begin(config("https://example.org/dav/", None), 0),
        Response::Start,
    );
    let (s, _) = RustyClient::connect_with_fallback(s, Response::Done(Ok(())));
    let (s, _) = RustyClient::connect_with_fallback(s, Response::Calendars(Err("401".to_string())));
    let (s, request) = RustyClient::connect_with_fallback(s, Response::Calendars(Err("no cache".to_string())));
    assert!(request.is_none());
    let (_, calendars, _, active, warning) = s.into_result().unwrap();
    assert!(calendars.is_empty());
    assert_eq!(active, None);
    assert!(warning.is_some());
}

#[test]
fn bad_settings_fail_the_bring_up() {
    let mut bad = config("https://example.org/", None);
    bad.allow_insecure_certs = false;
    let (s, request) = RustyClient::connect_with_fallback(Connection::begin(bad, 0), Response::Start);
    assert!(request.is_none());
    assert_eq!(s.into_result().err(), Some("No valid system certificates found.".to_string()));
}

#[test]
fn configured_calendar_is_found_by_name_or_locator() {
    let list = vec![calendar("Home", "/home/"), calendar("/home/", "/odd/"), calendar("Work", "/work/")];
    assert_eq!(find_configured(&Some("Work".to_string()), &list), Some("/work/".to_string()));
    assert_eq!(find_configured(&Some("/home/".to_string()), &list), Some("/home/".to_string()));
    assert_eq!(find_configured(&Some("/odd/".to_string()), &list), Some("/odd/".to_string()));
    assert_eq!(find_configured(&Some("None".to_string()), &list), None);
    assert_eq!(find_configured(&None, &list), None);
}

fn row(href: &str) -> ResourceEntry {
    ResourceEntry { href: href.to_string(), etag: None }
}

#[test]
fn discovery_takes_the_root_where_it_holds_tasks() {
    let c = online();
    let (d, request) = c.discover_calendar(Discovery::begin(), Response::Start);
    assert!(matches!(request, Some(Request::ListResources { ref calendar_href }) if calendar_href == "/dav/"));
    let (d, request) =
        c.discover_calendar(d, Response::Resources(Ok(vec![row("/dav/"), row("/dav/a.ics")])));
    assert!(request.is_none());
    assert!(d.is_finished());
    assert_eq!(d.result, Ok("/dav/".to_string()));
}

#[test]
fn discovery_walks_to_the_first_calendar() {
    let c = online();
    let (d, _) = c.discover_calendar(Discovery::begin(), Response::Start);
    let (d, request) = c.discover_calendar(d, Response::Resources(Ok(vec![row("/dav/sub/")])));
    assert!(matches!(request, Some(Request::FindPrincipal)));
    let (d, request) = c.discover_calendar(d, Response::Text(Ok(Some("/principals/u/".to_string()))));
    assert!(matches!(request, Some(Request::FindHomeSet { ref principal }) if principal == "/principals/u/"));
    let (d, request) = c.discover_calendar(d, Response::Texts(Ok(vec!["/home1/".to_string(), "/home2/".to_string()])));
    assert!(matches!(request, Some(Request::FindCalendars { ref home }) if home == "/home1/"));
    let (d, request) = c.discover_calendar(d, Response::Texts(Ok(vec!["/home1/a/".to_string(), "/home1/b/".to_string()])));
    assert!(request.is_none());
    assert_eq!(d.result, Ok("/home1/a/".to_string()));
}

#[test]
fn discovery_falls_back_to_the_root() {
    let c = online();
    for failing in 0..3 {
        let (d, _) = c.discover_calendar(Discovery::begin(), Response::Start);
        let (mut d, _) = c.discover_calendar(d, Response::Resources(Err("x".to_string())));
        let answers = [
            Response::Text(Ok(Some("/p/".to_string()))),
            Response::Texts(Ok(vec!["/h/".to_string()])),
            Response::Texts(Ok(Vec::new())),
        ];
        for (i, answer) in answers.into_iter().enumerate() {
            if d.is_finished() {
                break;
            }
            let answer = if i == failing { Response::Text(Err("fail".to_string())) } else { answer };
            let answer = if i == failing && i > 0 { Response::Texts(Err("fail".to_string())) } else { answer };
            (d, _) = c.discover_calendar(d, answer);
        }
        assert!(d.is_finished());
        assert_eq!(d.result, Ok("/dav/".to_string()));
    }
    let (d, request) = offline().discover_calendar(Discovery::begin(), Response::Start);
    assert!(request.is_none());
    assert_eq!(d.result, Err("Offline".to_string()));
}

#[test]
fn calendars_are_listed_with_their_names() {
    let c = online();
    let (l, request) = c.get_calendars(Listing::begin(), Response::Start);
    assert!(matches!(request, Some(Request::FindPrincipal)));
    let (l, _) = c.get_calendars(l, Response::Text(Ok(Some("/p/".to_string()))));
    let (l, request) = c.get_calendars(l, Response::Texts(Ok(vec!["/h/".to_string()])));
    assert!(matches!(request, Some(Request::FindCalendars { ref home }) if home == "/h/"));
    let (l, request) = c.get_calendars(
        l,
        Response::Texts(Ok(vec!["/h/a/".to_string(), "/h/b/".to_string(), "/h/c/".to_string()])),
    );
    assert!(matches!(request, Some(Request::DisplayName { ref href }) if href == "/h/a/"));
    let (l, request) = c.get_calendars(l, Response::Text(Ok(Some("Alpha".to_string()))));
    assert!(matches!(request, Some(Request::DisplayName { ref href }) if href == "/h/b/"));
    let (l, request) = c.get_calendars(l, Response::Text(Ok(None)));
    assert!(matches!(request, Some(Request::DisplayName { ref href }) if href == "/h/c/"));
    let (l, request) = c.get_calendars(l, Response::Text(Err("x".to_string())));
    assert!(request.is_none());
    let list = l.into_result().unwrap();
    let names: Vec<(String, String)> = list.iter().map(|c| (c.name.clone(), c.href.clone())).collect();
    assert_eq!(
        names,
        vec![
            ("Alpha".to_string(), "/h/a/".to_string()),
            ("/h/b/".to_string(), "/h/b/".to_string()),
            ("/h/c/".to_string(), "/h/c/".to_string()),
        ]
    );
    assert!(list.iter().all(|c| c.color.is_none()));
}

#[test]
fn listing_fails_without_principal_or_home_set() {
    let c = online();
    let (l, _) = c.get_calendars(Listing::begin(), Response::Start);
    let (l, _) = c.get_calendars(l, Response::Text(Ok(None)));
    assert_eq!(l.into_result().err(), Some("No principal".to_string()));
    let (l, _) = c.get_calendars(Listing::begin(), Response::Start);
    let (l, _) = c.get_calendars(l, Response::Text(Err("Unauthorized".to_string())));
    assert_eq!(l.into_result().err(), Some("Unauthorized".to_string()));
    let (l, _) = c.get_calendars(Listing::begin(), Response::Start);
    let (l, _) = c.get_calendars(l, Response::Text(Ok(Some("/p/".to_string()))));
    let (l, _) = c.get_calendars(l, Response::Texts(Ok(Vec::new())));
    assert_eq!(l.into_result().err(), Some("No home set".to_string()));
    let (l, request) = offline().get_calendars(Listing::begin(), Response::Start);
    assert!(request.is_none());
    assert!(l.into_result().unwrap().is_empty());
}

#[test]
fn mobile_task_shows_the_task() {
    let m = MobileTask::from_task(task("a"), "a !4".to_string());
    assert_eq!(m.uid, "a");
    assert_eq!(m.summary, "task a");
    assert!(!m.is_done);
    assert_eq!(m.priority, 4);
    assert_eq!(m.due_date_iso, Some("2024-01-01T00:00:00+00:00".to_string()));
    assert_eq!(m.start_date_iso, None);
    assert_eq!(m.duration_mins, Some(30));
    assert!(m.is_recurring);
    assert_eq!(m.parent_uid, Some("p".to_string()));
    assert_eq!(m.smart_string, "a !4");
    assert_eq!(m.categories, vec!["x".to_string()]);
    let mut done = task("b");
    done.status = TaskStatus::Cancelled;
    done.rrule = None;
    let m = MobileTask::from_task(done, String::new());
    assert!(m.is_done);
    assert!(!m.is_recurring);
}

#[test]
fn mobile_calendars_start_with_the_local_one() {
    let mut c = Config::default();
    c.hidden_calendars = vec!["/b/".to_string()];
    let cached = vec![calendar("A", "/a/"), calendar("Local", "local://default"), calendar("B", "/b/")];
    let list = mobile_calendars(&c, &cached);
    assert_eq!(list.len(), 3);
    assert_eq!(list[0].name, "Local");
    assert_eq!(list[0].href, "local://default");
    assert!(list[0].is_local && list[0].is_visible);
    assert_eq!(list[1].href, "/a/");
    assert!(!list[1].is_local && list[1].is_visible);
    assert_eq!(list[2].href, "/b/");
    assert!(!list[2].is_visible);
    c.hidden_calendars.push("local://default".to_string());
    assert!(!mobile_calendars(&c, &Vec::new())[0].is_visible);
}

#[test]
fn visibility_of_a_calendar() {
    let mut c = Config::default();
    set_visibility(&mut c, "/a/".to_string(), false);
    set_visibility(&mut c, "/a/".to_string(), false);
    set_visibility(&mut c, "/b/".to_string(), false);
    assert_eq!(c.hidden_calendars, vec!["/a/", "/b/"]);
    assert!(!c.shows(&"/a/".to_string()));
    set_visibility(&mut c, "/a/".to_string(), true);
    assert_eq!(c.hidden_calendars, vec!["/b/"]);
    assert!(c.shows(&"/a/".to_string()));
    set_visibility(&mut c, "/zzz/".to_string(), true);
    assert_eq!(c.hidden_calendars, vec!["/b/"]);
}

#[test]
fn connection_settings_keep_the_password_unless_one_is_entered() {
    let mut c = Config::default();
    c.password = "secret".to_string();
    apply_connection(&mut c, "https://x/".to_string(), "me".to_string(), String::new(), true);
    assert_eq!(c.url, "https://x/");
    assert_eq!(c.username, "me");
    assert_eq!(c.password, "secret");
    assert!(c.allow_insecure_certs);
    apply_connection(&mut c, "https://y/".to_string(), "me".to_string(), "new".to_string(), false);
    assert_eq!(c.password, "new");
    assert!(!c.allow_insecure_certs);
    let shown = MobileConfig::from_config(c.clone());
    assert_eq!(shown.url, "https://y/");
    assert_eq!(shown.username, "me");
    assert!(!shown.allow_insecure);
    assert_eq!(target_calendar(&c), "local://default");
    c.default_calendar = Some("/work/".to_string());
    assert_eq!(target_calendar(&c), "/work/");
}

#[test]
fn mobile_toggle_and_errors() {
    let mut t = task("a");
    toggle_done(&mut t);
    assert_eq!(t.status, TaskStatus::Completed);
    toggle_done(&mut t);
    assert_eq!(t.status, TaskStatus::NeedsAction);
    t.status = TaskStatus::Cancelled;
    toggle_done(&mut t);
    assert_eq!(t.status, TaskStatus::NeedsAction);
    t.status = TaskStatus::InProcess;
    toggle_done(&mut t);
    assert_eq!(t.status, TaskStatus::Completed);
    assert_eq!(MobileError::from_text("Task not found").message(), "Task not found");
    assert_eq!(MobileError::Generic("x".to_string()).message(), "x");
    assert_eq!(MobileError::from("from a string".to_string()).message(), "from a string");
}

#[test]
fn front_end_states() {
    assert_eq!(AppState::default(), AppState::Loading);
    assert_eq!(SidebarMode::default(), SidebarMode::Calendars);
    assert!(AppState::Onboarding.tab_moves_focus());
    assert!(AppState::Settings.tab_moves_focus());
    assert!(!AppState::Active.tab_moves_focus());
    assert!(!AppState::Loading.tab_moves_focus());
    assert!(Action::Quit.is_quit());
    assert!(!Action::SwitchCalendar("/a/".to_string()).is_quit());
    assert_eq!(cutoff_instant(1000, Some(2)), Some(1000 + 2 * 2592000));
    assert_eq!(cutoff_instant(1000, None), None);
    assert_eq!(cutoff_instant(i64::MAX, Some(1)), None);
    assert_eq!(cutoff_instant(i64::MAX, Some(0)), Some(i64::MAX));
}
