use cfait::client::RustyClient;
use cfait::exchange::{FetchedContent, FetchedItem, Request, Response};
use cfait::journal::{Action, Journal};
use cfait::model::{Task, TaskStatus};
use cfait::replay::{Replay, ReplayStage};

fn task(uid: &str, etag: &str) -> Task {
    Task {
        uid: uid.to_string(),
        summary: "s".to_string(),
        description: String::new(),
        status: TaskStatus::NeedsAction,
        estimated_duration: None,
        due: None,
        dtstart: None,
        priority: 0,
        parent_uid: None,
        dependencies: Vec::new(),
        etag: etag.to_string(),
        href: format!("/cal/{}.ics", uid),
        calendar_href: "/cal".to_string(),
        categories: Vec::new(),
        depth: 0,
        rrule: None,
    }
}

fn online() -> RustyClient {
    RustyClient::new("https://example.org/dav/", "u", "p", true, 0).unwrap()
}

fn uids(replay: &Replay) -> Vec<String> {
    replay
        .journal
        .queue
        .iter()
        .map(|a| match a {
            Action::Create(t) => format!("C:{}", t.uid),
            Action::Update(t) => format!("U:{}", t.uid),
            Action::Delete(t) => format!("D:{}", t.uid),
        })
        .collect()
}

fn journal(actions: Vec<Action>) -> Journal {
    let mut j = Journal::new();
    for a in actions {
        j.push(a);
    }
    j
}

const STAMP: &str = "20240101T000000Z";

#[test]
fn journal_is_first_in_first_out() {
    let mut j = Journal::new();
    assert!(j.is_empty());
    assert!(j.pop_front().is_none());
    j.push(Action::Create(task("a", "")));
    j.push(Action::Delete(task("b", "")));
    assert_eq!(j.len(), 2);
    assert!(matches!(j.pop_front(), Some(Action::Create(t)) if t.uid == "a"));
    assert!(matches!(j.pop_front(), Some(Action::Delete(t)) if t.uid == "b"));
    assert!(j.is_empty());
}

#[test]
fn empty_journal_finishes_at_once() {
    let c = online();
    let (r, request) = c.sync_journal(Replay::begin(Journal::new()), Response::Start);
    assert!(request.is_none());
    assert!(r.is_finished());
}

#[test]
fn offline_client_replays_nothing() {
    let c = RustyClient::new("", "", "", false, 0).unwrap();
    let j = journal(vec![Action::Create(task("a", ""))]);
    let (r, request) = c.sync_journal(Replay::begin(j), Response::Start);
    assert!(request.is_none());
    assert!(r.is_finished());
    assert_eq!(uids(&r), vec!["C:a"]);
}

#[test]
fn blocked_head_keeps_every_change_in_place() {
    let c = online();
    let j = journal(vec![Action::Update(task("a", "e1")), Action::Create(task("b", ""))]);
    let (r, request) = c.sync_journal_at(Replay::begin(j), Response::Start, STAMP);
    match request {
        Some(Request::Update { href, body, etag }) => {
            assert_eq!(href, "/cal/a.ics");
            assert_eq!(etag, "e1");
            assert!(body.contains("UID:a"));
        }
        other => panic!("unexpected request {:?}", other),
    }
    let (r, request) =
        c.sync_journal_at(r, Response::Text(Err("Timeout while connecting".to_string())), STAMP);
    assert!(request.is_none());
    assert!(r.is_finished());
    assert_eq!(uids(&r), vec!["U:a", "C:b"]);

    // The next replay, with the server back, resolves the first change and then the second.
    let (r, request) = c.sync_journal_at(Replay::begin(r.journal), Response::Start, STAMP);
    assert!(matches!(request, Some(Request::Update { .. })));
    let (r, request) = c.sync_journal_at(r, Response::Text(Ok(Some("e2".to_string()))), STAMP);
    assert!(matches!(request, Some(Request::PopJournal)));
    assert_eq!(uids(&r), vec!["C:b"]);
    let (r, request) = c.sync_journal_at(r, Response::Done(Ok(())), STAMP);
    match request {
        Some(Request::Create { href, body }) => {
            assert_eq!(href, "/cal/b.ics");
            assert!(body.contains("UID:b"));
        }
        other => panic!("unexpected request {:?}", other),
    }
    let (r, request) = c.sync_journal_at(r, Response::Text(Ok(None)), STAMP);
    assert!(matches!(request, Some(Request::PopJournal)));
    assert!(uids(&r).is_empty());
    let (r, request) = c.sync_journal_at(r, Response::Done(Ok(())), STAMP);
    assert!(request.is_none());
    assert!(r.is_finished());
}

#[test]
fn conflicting_update_is_retried_once_and_leaves() {
    for retry_outcome in [Ok(Some("e3".to_string())), Err("HTTP 412 again".to_string())] {
        let c = online();
        let j = journal(vec![Action::Update(task("a", "e1"))]);
        let (r, first) = c.sync_journal_at(Replay::begin(j), Response::Start, STAMP);
        let first_body = match first {
            Some(Request::Update { body, etag, .. }) => {
                assert_eq!(etag, "e1");
                body
            }
            other => panic!("unexpected request {:?}", other),
        };
        let (r, request) =
            c.sync_journal_at(r, Response::Text(Err("PreconditionFailed".to_string())), STAMP);
        match request {
            Some(Request::FetchMany { calendar_href, hrefs }) => {
                assert_eq!(calendar_href, "/cal");
                assert_eq!(hrefs, vec!["/cal/a.ics".to_string()]);
            }
            other => panic!("unexpected request {:?}", other),
        }
        assert_eq!(r.stage, ReplayStage::Refetch);
        assert_eq!(uids(&r), vec!["U:a"]);
        let items = vec![FetchedItem {
            href: "/cal/a.ics".to_string(),
            content: Some(FetchedContent { data: "x".to_string(), etag: "e2".to_string() }),
        }];
        let (r, request) = c.sync_journal_at(r, Response::Items(Ok(items)), "20250101T000000Z");
        match request {
            Some(Request::Update { href, body, etag }) => {
                assert_eq!(href, "/cal/a.ics");
                assert_eq!(etag, "e2");
                assert_eq!(body, first_body);
            }
            other => panic!("unexpected request {:?}", other),
        }
        assert_eq!(uids(&r), vec!["U:a"]);
        let (r, request) = c.sync_journal_at(r, Response::Text(retry_outcome), STAMP);
        assert!(matches!(request, Some(Request::PopJournal)));
        assert!(uids(&r).is_empty());
    }
}

#[test]
fn conflict_without_fresh_version_leaves_too() {
    for fetched in [
        Response::Items(Err("network".to_string())),
        Response::Items(Ok(Vec::new())),
        Response::Items(Ok(vec![FetchedItem { href: "/cal/a.ics".to_string(), content: None }])),
    ] {
        let c = online();
        let j = journal(vec![Action::Delete(task("a", "e1"))]);
        let (r, _) = c.sync_journal_at(Replay::begin(j), Response::Start, STAMP);
        let (r, request) = c.sync_journal_at(r, Response::Done(Err("412".to_string())), STAMP);
        assert!(matches!(request, Some(Request::FetchMany { .. })));
        let (r, request) = c.sync_journal_at(r, fetched, STAMP);
        assert!(matches!(request, Some(Request::PopJournal)));
        assert!(uids(&r).is_empty());
    }
}

#[test]
fn conflicting_delete_is_retried_with_the_fresh_version() {
    let c = online();
    let j = journal(vec![Action::Delete(task("a", "e1"))]);
    let (r, request) = c.sync_journal_at(Replay::begin(j), Response::Start, STAMP);
    assert!(matches!(request, Some(Request::Delete { ref etag, .. }) if etag == "e1"));
    let (r, _) = c.sync_journal_at(r, Response::Done(Err("status 412".to_string())), STAMP);
    let items = vec![FetchedItem {
        href: "/cal/a.ics".to_string(),
        content: Some(FetchedContent { data: String::new(), etag: "e9".to_string() }),
    }];
    let (r, request) = c.sync_journal_at(r, Response::Items(Ok(items)), STAMP);
    assert!(matches!(request, Some(Request::Delete { ref etag, ref href }) if etag == "e9" && href == "/cal/a.ics"));
    let (r, request) = c.sync_journal_at(r, Response::Done(Err("boom".to_string())), STAMP);
    assert!(matches!(request, Some(Request::PopJournal)));
    assert!(uids(&r).is_empty());
}

#[test]
fn what_resolves_and_what_blocks() {
    let c = online();
    let cases: Vec<(Action, Response, bool)> = vec![
        (Action::Create(task("a", "")), Response::Text(Ok(None)), true),
        (Action::Create(task("a", "")), Response::Text(Err("412 Precondition".to_string())), true),
        (Action::Create(task("a", "")), Response::Text(Err("404".to_string())), false),
        (Action::Create(task("a", "")), Response::Text(Err("timeout".to_string())), false),
        (Action::Create(task("a", "")), Response::Done(Ok(())), false),
        (Action::Update(task("a", "e")), Response::Text(Ok(None)), true),
        (Action::Update(task("a", "e")), Response::Text(Err("HTTP 404".to_string())), true),
        (Action::Update(task("a", "e")), Response::Text(Err("HTTP 500".to_string())), false),
        (Action::Delete(task("a", "e")), Response::Done(Ok(())), true),
        (Action::Delete(task("a", "e")), Response::Done(Err("404 Not Found".to_string())), true),
        (Action::Delete(task("a", "e")), Response::Done(Err("404 and 412".to_string())), true),
        (Action::Delete(task("a", "e")), Response::Done(Err("dns".to_string())), false),
    ];
    for (action, response, resolves) in cases {
        let j = journal(vec![action, Action::Create(task("z", ""))]);
        let (r, _) = c.sync_journal_at(Replay::begin(j), Response::Start, STAMP);
        let (r, request) = c.sync_journal_at(r, response, STAMP);
        if resolves {
            assert!(matches!(request, Some(Request::PopJournal)));
            assert_eq!(uids(&r), vec!["C:z"]);
        } else {
            assert!(request.is_none());
            assert!(r.is_finished());
            assert_eq!(r.journal.len(), 2);
        }
    }
}

#[test]
fn update_that_names_both_failures_is_refetched() {
    let c = online();
    let j = journal(vec![Action::Update(task("a", "e"))]);
    let (r, _) = c.sync_journal_at(Replay::begin(j), Response::Start, STAMP);
    let (_, request) = c.sync_journal_at(r, Response::Text(Err("404 and 412".to_string())), STAMP);
    assert!(matches!(request, Some(Request::FetchMany { .. })));
}

#[test]
fn queued_creation_goes_below_its_calendar() {
    let c = online();
    let mut t = task("new", "");
    t.calendar_href = "/cal/".to_string();
    t.href = String::new();
    let j = journal(vec![Action::Create(t)]);
    let (_, request) = c.sync_journal_at(Replay::begin(j), Response::Start, STAMP);
    assert!(matches!(request, Some(Request::Create { ref href, .. }) if href == "/cal/new.ics"));
}

#[test]
fn change_that_cannot_be_written_blocks_the_replay() {
    let c = online();
    let mut bad = task("bad", "e");
    bad.description = "\u{2003}".repeat(100);
    let j = journal(vec![Action::Update(bad), Action::Create(task("b", ""))]);
    let (r, request) = c.sync_journal_at(Replay::begin(j), Response::Start, STAMP);
    assert!(request.is_none());
    assert!(r.is_finished());
    assert_eq!(uids(&r), vec!["U:bad", "C:b"]);
}
