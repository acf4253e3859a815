use cfait::client::RustyClient;
use cfait::delta::plan_delta;
use cfait::exchange::{FetchedContent, FetchedItem, Request, ResourceEntry, Response};
use cfait::model::{Task, TaskStatus};
use cfait::sync::{merge_fetched, Sync};

fn task(uid: &str, href: &str, etag: &str) -> Task {
    Task {
        uid: uid.to_string(),
        summary: format!("task {}", uid),
        description: String::new(),
        status: TaskStatus::NeedsAction,
        estimated_duration: None,
        due: None,
        dtstart: None,
        priority: 0,
        parent_uid: None,
        dependencies: Vec::new(),
        etag: etag.to_string(),
        href: href.to_string(),
        calendar_href: "/cal/".to_string(),
        categories: Vec::new(),
        depth: 0,
        rrule: None,
    }
}

fn row(href: &str, etag: Option<&str>) -> ResourceEntry {
    ResourceEntry { href: href.to_string(), etag: etag.map(|e| e.to_string()) }
}

fn uids(tasks: &[Task]) -> Vec<String> {
    tasks.iter().map(|t| t.uid.clone()).collect()
}

fn online() -> RustyClient {
    RustyClient::new("https://example.org/dav/", "u", "p", true, 0).unwrap()
}

fn document(uid: &str) -> String {
    format!("BEGIN:VCALENDAR\r\nBEGIN:VTODO\r\nUID:{}\r\nSUMMARY:fetched\r\nEND:VTODO\r\nEND:VCALENDAR\r\n", uid)
}

#[test]
fn nothing_is_fetched_where_nothing_changed() {
    let cached = vec![task("a", "/cal/a.ics", "1"), task("b", "/cal/b.ics", "2")];
    let listing = vec![row("/cal/b.ics", Some("2")), row("/cal/a.ics", Some("1"))];
    let (kept, to_fetch) = plan_delta(&listing, &cached);
    assert!(to_fetch.is_empty());
    assert_eq!(uids(&kept), vec!["b", "a"]);
}

#[test]
fn task_deleted_on_the_server_is_dropped() {
    let cached = vec![task("a", "/cal/a.ics", "1"), task("gone", "/cal/gone.ics", "5")];
    let listing = vec![row("/cal/a.ics", Some("1"))];
    let (kept, to_fetch) = plan_delta(&listing, &cached);
    assert_eq!(uids(&kept), vec!["a"]);
    assert!(to_fetch.is_empty());
}

#[test]
fn new_and_changed_resources_are_fetched() {
    let cached = vec![
        task("same", "/cal/same.ics", "1"),
        task("changed", "/cal/changed.ics", "1"),
        task("blank", "/cal/blank.ics", ""),
        task("unversioned", "/cal/unversioned.ics", "1"),
    ];
    let listing = vec![
        row("/cal/new.ics", Some("1")),
        row("/cal/same.ics", Some("1")),
        row("/cal/changed.ics", Some("2")),
        row("/cal/blank.ics", Some("")),
        row("/cal/unversioned.ics", None),
        row("/cal/", Some("1")),
        row("/cal/notes.txt", Some("1")),
    ];
    let (kept, to_fetch) = plan_delta(&listing, &cached);
    assert_eq!(uids(&kept), vec!["same"]);
    assert_eq!(
        to_fetch,
        vec!["/cal/new.ics", "/cal/changed.ics", "/cal/blank.ics", "/cal/unversioned.ics"]
    );
}

#[test]
fn resource_listed_twice_is_kept_once_and_fetched_once() {
    let cached = vec![task("a", "/cal/a.ics", "1")];
    let listing = vec![row("/cal/a.ics", Some("1")), row("/cal/a.ics", Some("1"))];
    let (kept, to_fetch) = plan_delta(&listing, &cached);
    assert_eq!(uids(&kept), vec!["a"]);
    assert_eq!(to_fetch, vec!["/cal/a.ics"]);
}

#[test]
fn last_task_seen_at_a_resource_counts() {
    let cached = vec![task("old", "/cal/a.ics", "1"), task("new", "/cal/a.ics", "2")];
    let (kept, to_fetch) = plan_delta(&vec![row("/cal/a.ics", Some("2"))], &cached);
    assert_eq!(uids(&kept), vec!["new"]);
    assert!(to_fetch.is_empty());
    let (kept, to_fetch) = plan_delta(&vec![row("/cal/a.ics", Some("1"))], &cached);
    assert!(kept.is_empty());
    assert_eq!(to_fetch, vec!["/cal/a.ics"]);
}

#[test]
fn fetched_items_are_read_and_bad_ones_passed_over() {
    let items = vec![
        FetchedItem {
            href: "/cal/x.ics".to_string(),
            content: Some(FetchedContent { data: document("x"), etag: "9".to_string() }),
        },
        FetchedItem { href: "/cal/failed.ics".to_string(), content: None },
        FetchedItem {
            href: "/cal/empty.ics".to_string(),
            content: Some(FetchedContent { data: String::new(), etag: "1".to_string() }),
        },
        FetchedItem {
            href: "/cal/event.ics".to_string(),
            content: Some(FetchedContent {
                data: "BEGIN:VCALENDAR\r\nBEGIN:VEVENT\r\nUID:e\r\nEND:VEVENT\r\nEND:VCALENDAR\r\n".to_string(),
                etag: "1".to_string(),
            }),
        },
        FetchedItem {
            href: "/cal/y.ics".to_string(),
            content: Some(FetchedContent { data: document("y"), etag: "3".to_string() }),
        },
    ];
    let tasks = merge_fetched(vec![task("kept", "/cal/kept.ics", "1")], &items, "/cal/");
    assert_eq!(uids(&tasks), vec!["kept", "x", "y"]);
    assert_eq!(tasks[1].href, "/cal/x.ics");
    assert_eq!(tasks[1].etag, "9");
    assert_eq!(tasks[1].calendar_href, "/cal/");
    assert_eq!(tasks[1].summary, "fetched");
}

#[test]
fn local_calendar_is_read_from_the_local_store() {
    let c = online();
    let (s, request) = c.get_tasks(Sync::begin("local://default"), Response::Start);
    assert!(matches!(request, Some(Request::LoadLocal)));
    let (s, request) =
        c.get_tasks(s, Response::Tasks(Ok(vec![task("l", "", "")])));
    assert!(request.is_none());
    assert!(s.is_finished());
    assert_eq!(uids(&s.result.unwrap()), vec!["l"]);
}

#[test]
fn local_store_failure_is_the_result() {
    let c = RustyClient::new("", "", "", false, 0).unwrap();
    let (s, _) = c.get_tasks(Sync::begin("local://default"), Response::Start);
    let (s, request) = c.get_tasks(s, Response::Tasks(Err("disk full".to_string())));
    assert!(request.is_none());
    assert_eq!(s.result.err(), Some("disk full".to_string()));
}

#[test]
fn offline_client_cannot_read_a_remote_calendar() {
    let c = RustyClient::new("", "", "", false, 0).unwrap();
    let (s, request) = c.get_tasks(Sync::begin("/cal/"), Response::Start);
    assert!(request.is_none());
    assert!(s.is_finished());
    assert_eq!(s.result.err(), Some("Offline: Cannot fetch remote calendar".to_string()));
}

#[test]
fn unchanged_calendar_is_read_without_a_batch() {
    let c = online();
    let (s, request) = c.get_tasks(Sync::begin("/cal/"), Response::Start);
    assert!(matches!(request, Some(Request::FlushJournal)));
    let (s, request) = c.get_tasks(s, Response::Done(Err("replay failed".to_string())));
    assert!(matches!(request, Some(Request::ListResources { ref calendar_href }) if calendar_href == "/cal/"));
    let listing = vec![row("/cal/a.ics", Some("1")), row("/cal/b.ics", Some("2"))];
    let (s, request) = c.get_tasks(s, Response::Resources(Ok(listing)));
    assert!(matches!(request, Some(Request::LoadCache { ref calendar_href }) if calendar_href == "/cal/"));
    let cached = vec![task("a", "/cal/a.ics", "1"), task("b", "/cal/b.ics", "2")];
    let (s, request) = c.get_tasks(s, Response::Tasks(Ok(cached)));
    assert!(request.is_none());
    assert!(s.is_finished());
    assert_eq!(uids(&s.result.unwrap()), vec!["a", "b"]);
}

#[test]
fn changed_calendar_is_fetched_in_one_batch() {
    let c = online();
    let (s, _) = c.get_tasks(Sync::begin("/cal/"), Response::Start);
    let (s, _) = c.get_tasks(s, Response::Done(Ok(())));
    let listing = vec![row("/cal/a.ics", Some("1")), row("/cal/n.ics", Some("7")), row("/cal/m.ics", Some("8"))];
    let (s, _) = c.get_tasks(s, Response::Resources(Ok(listing)));
    let cached = vec![task("a", "/cal/a.ics", "1"), task("gone", "/cal/gone.ics", "2")];
    let (s, request) = c.get_tasks(s, Response::Tasks(Ok(cached)));
    match request {
        Some(Request::FetchMany { calendar_href, hrefs }) => {
            assert_eq!(calendar_href, "/cal/");
            assert_eq!(hrefs, vec!["/cal/n.ics", "/cal/m.ics"]);
        }
        other => panic!("unexpected request {:?}", other),
    }
    assert!(!s.is_finished());
    let items = vec![FetchedItem {
        href: "/cal/n.ics".to_string(),
        content: Some(FetchedContent { data: document("n"), etag: "7".to_string() }),
    }];
    let (s, request) = c.get_tasks(s, Response::Items(Ok(items)));
    assert!(request.is_none());
    assert!(s.is_finished());
    assert_eq!(uids(&s.result.unwrap()), vec!["a", "n"]);
}

#[test]
fn cache_that_fails_counts_as_empty() {
    let c = online();
    let (s, _) = c.get_tasks(Sync::begin("/cal/"), Response::Start);
    let (s, _) = c.get_tasks(s, Response::Done(Ok(())));
    let (s, _) = c.get_tasks(s, Response::Resources(Ok(vec![row("/cal/a.ics", Some("1"))])));
    let (_, request) = c.get_tasks(s, Response::Tasks(Err("no cache".to_string())));
    assert!(matches!(request, Some(Request::FetchMany { ref hrefs, .. }) if hrefs == &vec!["/cal/a.ics".to_string()]));
}

#[test]
fn failures_of_the_server_are_named() {
    let c = online();
    let (s, _) = c.get_tasks(Sync::begin("/cal/"), Response::Start);
    let (s, _) = c.get_tasks(s, Response::Done(Ok(())));
    let (s, request) = c.get_tasks(s, Response::Resources(Err("Timeout".to_string())));
    assert!(request.is_none());
    assert_eq!(s.result.err(), Some("PROPFIND Error: Timeout".to_string()));

    let (s, _) = c.get_tasks(Sync::begin("/cal/"), Response::Start);
    let (s, _) = c.get_tasks(s, Response::Done(Ok(())));
    let (s, _) = c.get_tasks(s, Response::Resources(Ok(vec![row("/cal/a.ics", Some("1"))])));
    let (s, _) = c.get_tasks(s, Response::Tasks(Ok(Vec::new())));
    let (s, request) = c.get_tasks(s, Response::Items(Err("Reset".to_string())));
    assert!(request.is_none());
    assert_eq!(s.result.err(), Some("MULTIGET Error: Reset".to_string()));
}

#[test]
fn answer_of_the_wrong_kind_counts_as_a_failure() {
    let c = online();
    let (s, _) = c.get_tasks(Sync::begin("local://default"), Response::Start);
    let (s, request) = c.get_tasks(s, Response::Done(Ok(())));
    assert!(request.is_none());
    assert_eq!(s.result.err(), Some("Unexpected response".to_string()));
    assert_eq!(Response::Start.into_text().err(), Some("Unexpected response".to_string()));
    assert_eq!(Response::Text(Ok(None)).into_done().err(), Some("Unexpected response".to_string()));
    assert!(Response::Done(Ok(())).into_done().is_ok());
}
