use cfait::client::{
    certificate_failed, not_found, precondition_failed, task_document, task_href, RustyClient,
};
use cfait::crud::{Write, WriteKind, WriteStage};
use cfait::exchange::{Request, Response};
use cfait::journal::Action;
use cfait::migrate::{Migration, Move};
use cfait::model::{is_local_href, Task, TaskStatus};
use cfait::store::{find_by_uid, remove_by_uid, replace_by_uid};
use cfait::toggle::Toggle;

fn task(uid: &str, calendar: &str) -> Task {
    Task {
        uid: uid.to_string(),
        summary: format!("task {}", uid),
        description: String::new(),
        status: TaskStatus::NeedsAction,
        estimated_duration: None,
        due: None,
        dtstart: None,
        priority: 0,
        parent_uid: None,
        dependencies: Vec::new(),
        etag: String::new(),
        href: String::new(),
        calendar_href: calendar.to_string(),
        categories: Vec::new(),
        depth: 0,
        rrule: None,
    }
}

fn remote(uid: &str) -> Task {
    let mut t = task(uid, "/cal/");
    t.href = format!("/cal/{}.ics", uid);
    t.etag = "e1".to_string();
    t
}

fn uids(tasks: &[Task]) -> Vec<String> {
    tasks.iter().map(|t| t.uid.clone()).collect()
}

fn online() -> RustyClient {
    RustyClient::new("https://example.org/dav/", "u", "p", true, 0).unwrap()
}

fn offline() -> RustyClient {
    RustyClient::new("", "", "", false, 0).unwrap()
}

const LOCAL: &str = "local://default";

#[test]
fn the_client_for_an_address() {
    assert!(!offline().is_online());
    let c = online();
    assert!(c.is_online());
    assert_eq!(c.base_path, Some("/dav/".to_string()));
    let bad = RustyClient::new("http://exa mple.org", "u", "p", true, 0);
    assert!(bad.is_err());
    assert!(!bad.err().unwrap().is_empty());
    let no_roots = RustyClient::new("https://example.org/", "u", "p", false, 0);
    assert_eq!(no_roots.err(), Some("No valid system certificates found.".to_string()));
    assert!(RustyClient::new("https://example.org/", "u", "p", false, 3).is_ok());
    assert!(RustyClient::new("", "u", "p", false, 0).is_ok());
}

#[test]
fn failures_are_told_apart_by_their_text() {
    assert!(precondition_failed("status: 412"));
    assert!(precondition_failed("Error(PreconditionFailed)"));
    assert!(!precondition_failed("status: 404"));
    assert!(not_found("status: 404"));
    assert!(!not_found("status: 500"));
    assert!(certificate_failed("tls: InvalidCertificate(UnknownIssuer)"));
    assert!(!certificate_failed("dns error"));
}

#[test]
fn where_a_task_lives() {
    assert_eq!(task_href("/cal/", "abc"), "/cal/abc.ics");
    assert_eq!(task_href("/cal", "abc"), "/cal/abc.ics");
    assert_eq!(task_href("", "abc"), "/abc.ics");
    assert!(task_document("/cal/abc.ics"));
    assert!(!task_document("/cal/abc.ICS"));
    assert!(!task_document("/cal/"));
    assert!(is_local_href("local://default"));
    assert!(!is_local_href("local://default/"));
    assert!(!is_local_href(""));
}

#[test]
fn local_create_appends_to_the_local_store() {
    let c = offline();
    let (w, request) = c.create_task(Write::begin(WriteKind::Create, task("new", LOCAL)), Response::Start);
    assert!(matches!(request, Some(Request::LoadLocal)));
    let (w, request) = c.create_task(w, Response::Tasks(Ok(vec![task("old", LOCAL)])));
    match request {
        Some(Request::SaveLocal { tasks }) => assert_eq!(uids(&tasks), vec!["old", "new"]),
        other => panic!("unexpected request {:?}", other),
    }
    let (w, request) = c.create_task(w, Response::Done(Ok(())));
    assert!(request.is_none());
    assert!(w.is_finished());
    assert!(w.result.is_ok());
    assert_eq!(w.task.href, "");
    assert_eq!(w.task.etag, "");
}

#[test]
fn remote_create_under_network_failure_is_queued_once() {
    let c = online();
    let (w, request) = c.create_task(Write::begin(WriteKind::Create, task("new", "/cal")), Response::Start);
    match request {
        Some(Request::Create { href, body }) => {
            assert_eq!(href, "/cal/new.ics");
            assert!(body.contains("UID:new"));
        }
        other => panic!("unexpected request {:?}", other),
    }
    assert_eq!(w.task.href, "/cal/new.ics");
    let (w, request) = c.create_task(w, Response::Text(Err("connection refused".to_string())));
    match request {
        Some(Request::PushJournal { action: Action::Create(t) }) => {
            assert_eq!(t.uid, "new");
            assert_eq!(t.href, "/cal/new.ics");
        }
        other => panic!("unexpected request {:?}", other),
    }
    assert_eq!(w.stage, WriteStage::Queue);
    let (w, request) = c.create_task(w, Response::Done(Ok(())));
    assert!(request.is_none());
    assert!(w.is_finished());
    assert!(w.result.is_ok());
    let (w, request) = c.create_task(w, Response::Done(Ok(())));
    assert!(request.is_none());
    assert!(w.is_finished());
}

#[test]
fn remote_create_takes_the_new_version() {
    let c = online();
    let (w, _) = c.create_task(Write::begin(WriteKind::Create, task("new", "/cal/")), Response::Start);
    let (w, request) = c.create_task(w, Response::Text(Ok(Some("etag-9".to_string()))));
    assert!(request.is_none());
    assert!(w.result.is_ok());
    assert_eq!(w.task.etag, "etag-9");
    assert_eq!(w.task.href, "/cal/new.ics");

    let (w, _) = c.create_task(Write::begin(WriteKind::Create, task("new", "/cal/")), Response::Start);
    let (w, _) = c.create_task(w, Response::Text(Ok(None)));
    assert!(w.result.is_ok());
    assert_eq!(w.task.etag, "");
}

#[test]
fn offline_client_cannot_change_a_remote_task() {
    let c = offline();
    let (w, request) = c.create_task(Write::begin(WriteKind::Create, task("n", "/cal/")), Response::Start);
    assert!(request.is_none());
    assert_eq!(w.result.err(), Some("Offline".to_string()));
    let (w, _) = c.update_task(Write::begin(WriteKind::Update, remote("n")), Response::Start);
    assert_eq!(w.result.err(), Some("Offline".to_string()));
    let (w, _) = c.delete_task(Write::begin(WriteKind::Delete, remote("n")), Response::Start);
    assert_eq!(w.result.err(), Some("Offline".to_string()));
}

#[test]
fn journal_failure_is_reported() {
    let c = online();
    let (w, _) = c.update_task(Write::begin(WriteKind::Update, remote("a")), Response::Start);
    let (w, request) = c.update_task(w, Response::Text(Err("timeout".to_string())));
    assert!(matches!(request, Some(Request::PushJournal { action: Action::Update(_) })));
    let (w, _) = c.update_task(w, Response::Done(Err("disk full".to_string())));
    assert_eq!(w.result.err(), Some("disk full".to_string()));
}

#[test]
fn remote_update_sends_the_known_version() {
    let c = online();
    let (w, request) = c.update_task(Write::begin(WriteKind::Update, remote("a")), Response::Start);
    match request {
        Some(Request::Update { href, body, etag }) => {
            assert_eq!(href, "/cal/a.ics");
            assert_eq!(etag, "e1");
            assert!(body.contains("UID:a"));
        }
        other => panic!("unexpected request {:?}", other),
    }
    let (w, request) = c.update_task(w, Response::Text(Ok(Some("e2".to_string()))));
    assert!(request.is_none());
    assert_eq!(w.task.etag, "e2");
}

#[test]
fn local_update_replaces_the_first_task_of_that_identifier() {
    let c = offline();
    let mut changed = task("b", LOCAL);
    changed.summary = "changed".to_string();
    let (w, _) = c.update_task(Write::begin(WriteKind::Update, changed), Response::Start);
    let all = vec![task("a", LOCAL), task("b", LOCAL), task("b", LOCAL)];
    let (w, request) = c.update_task(w, Response::Tasks(Ok(all)));
    match request {
        Some(Request::SaveLocal { tasks }) => {
            assert_eq!(uids(&tasks), vec!["a", "b", "b"]);
            assert_eq!(tasks[1].summary, "changed");
            assert_eq!(tasks[2].summary, "task b");
        }
        other => panic!("unexpected request {:?}", other),
    }
    let (w, _) = c.update_task(w, Response::Done(Err("read-only".to_string())));
    assert_eq!(w.result.err(), Some("read-only".to_string()));
}

#[test]
fn local_update_of_an_unknown_task_writes_nothing() {
    let c = offline();
    let (w, _) = c.update_task(Write::begin(WriteKind::Update, task("x", LOCAL)), Response::Start);
    let (w, request) = c.update_task(w, Response::Tasks(Ok(vec![task("a", LOCAL)])));
    assert!(request.is_none());
    assert!(w.result.is_ok());
}

#[test]
fn local_delete_removes_every_task_of_that_identifier() {
    let c = offline();
    let (w, _) = c.delete_task(Write::begin(WriteKind::Delete, task("b", LOCAL)), Response::Start);
    let all = vec![task("b", LOCAL), task("a", LOCAL), task("b", LOCAL), task("c", LOCAL)];
    let (_, request) = c.delete_task(w, Response::Tasks(Ok(all)));
    match request {
        Some(Request::SaveLocal { tasks }) => assert_eq!(uids(&tasks), vec!["a", "c"]),
        other => panic!("unexpected request {:?}", other),
    }
}

#[test]
fn remote_delete_is_queued_on_failure() {
    let c = online();
    let (w, request) = c.delete_task(Write::begin(WriteKind::Delete, remote("a")), Response::Start);
    assert!(matches!(request, Some(Request::Delete { ref href, ref etag }) if href == "/cal/a.ics" && etag == "e1"));
    let (w, request) = c.delete_task(w, Response::Done(Err("503".to_string())));
    assert!(matches!(request, Some(Request::PushJournal { action: Action::Delete(ref t) }) if t.uid == "a"));
    let (w, _) = c.delete_task(w, Response::Done(Ok(())));
    assert!(w.result.is_ok());

    let (w, _) = c.delete_task(Write::begin(WriteKind::Delete, remote("a")), Response::Start);
    let (w, request) = c.delete_task(w, Response::Done(Ok(())));
    assert!(request.is_none());
    assert!(w.result.is_ok());
}

#[test]
fn the_operation_decides_the_kind() {
    let c = online();
    let (_, request) = c.delete_task(Write::begin(WriteKind::Create, remote("a")), Response::Start);
    assert!(matches!(request, Some(Request::Delete { .. })));
}

#[test]
fn list_changes_of_the_local_store() {
    let mut all = vec![task("a", LOCAL), task("b", LOCAL)];
    assert_eq!(find_by_uid(&all, &"b".to_string()), Some(1));
    assert_eq!(find_by_uid(&all, &"z".to_string()), None);
    let mut b = task("b", LOCAL);
    b.priority = 9;
    assert!(replace_by_uid(&mut all, &b));
    assert_eq!(all[1].priority, 9);
    assert!(!replace_by_uid(&mut all, &task("z", LOCAL)));
    assert_eq!(uids(&all), vec!["a", "b"]);
    assert_eq!(uids(&remove_by_uid(all, &"a".to_string())), vec!["b"]);
}

#[test]
fn toggle_completes_and_reopens() {
    let c = online();
    let (t, request) = c.toggle_task(Toggle::begin(remote("a")), Response::Start);
    assert_eq!(t.task.status, TaskStatus::Completed);
    assert!(t.next.is_none());
    assert!(matches!(request, Some(Request::UpdateTask { ref task }) if task.status == TaskStatus::Completed));
    let mut updated = remote("a");
    updated.status = TaskStatus::Completed;
    updated.etag = "e2".to_string();
    let (t, request) = c.toggle_task(t, Response::Task(Ok(updated)));
    assert!(request.is_none());
    let (task, next) = t.into_result().unwrap();
    assert_eq!(task.etag, "e2");
    assert!(next.is_none());

    let mut done = remote("a");
    done.status = TaskStatus::Completed;
    let (t, _) = c.toggle_task(Toggle::begin(done), Response::Start);
    assert_eq!(t.task.status, TaskStatus::NeedsAction);
    for status in [TaskStatus::InProcess, TaskStatus::Cancelled] {
        let mut other = remote("a");
        other.status = status;
        let (t, _) = c.toggle_task(Toggle::begin(other), Response::Start);
        assert_eq!(t.task.status, TaskStatus::Completed);
    }
}

#[test]
fn completing_a_recurring_task_creates_the_next_one_first() {
    let c = online();
    let mut r = remote("a");
    r.dtstart = Some(1704067200);
    r.due = Some(1704067200 + 2 * 86400);
    r.rrule = Some("FREQ=DAILY".to_string());
    r.dependencies = vec!["x".to_string()];
    let (t, request) = c.toggle_task(Toggle::begin(r), Response::Start);
    let next = match request {
        Some(Request::CreateTask { task }) => task,
        other => panic!("unexpected request {:?}", other),
    };
    assert_eq!(next.dtstart, Some(1704067200 + 86400));
    assert_eq!(next.due, Some(1704067200 + 3 * 86400));
    assert_eq!(next.status, TaskStatus::NeedsAction);
    assert_ne!(next.uid, "a");
    assert!(next.dependencies.is_empty());
    assert_eq!(next.href, "");
    let mut created = next.clone();
    created.href = "/cal/next.ics".to_string();
    let (t, request) = c.toggle_task(t, Response::Task(Ok(created)));
    assert!(matches!(request, Some(Request::UpdateTask { ref task }) if task.uid == "a" && task.status == TaskStatus::Completed));
    let (t, request) = c.toggle_task(t, Response::Task(Ok(remote("a"))));
    assert!(request.is_none());
    let (_, next) = t.into_result().unwrap();
    assert_eq!(next.unwrap().href, "/cal/next.ics");
}

#[test]
fn reopening_a_recurring_task_creates_nothing() {
    let c = online();
    let mut r = remote("a");
    r.status = TaskStatus::Completed;
    r.dtstart = Some(1704067200);
    r.rrule = Some("FREQ=DAILY".to_string());
    let (t, request) = c.toggle_task(Toggle::begin(r), Response::Start);
    assert!(t.next.is_none());
    assert!(matches!(request, Some(Request::UpdateTask { .. })));
}

#[test]
fn toggle_failure_is_the_result() {
    let c = online();
    let mut r = remote("a");
    r.dtstart = Some(1704067200);
    r.rrule = Some("FREQ=DAILY".to_string());
    let (t, _) = c.toggle_task(Toggle::begin(r), Response::Start);
    let (t, request) = c.toggle_task(t, Response::Task(Err("Offline".to_string())));
    assert!(request.is_none());
    assert_eq!(t.into_result().err(), Some("Offline".to_string()));
}

#[test]
fn local_toggle_writes_the_task_and_its_next_occurrence() {
    let c = offline();
    let mut l = task("a", LOCAL);
    l.due = Some(1704067200);
    l.rrule = Some("FREQ=DAILY".to_string());
    let (t, request) = c.toggle_task(Toggle::begin(l), Response::Start);
    assert!(matches!(request, Some(Request::LoadLocal)));
    let (t, request) = c.toggle_task(t, Response::Tasks(Ok(vec![task("z", LOCAL), task("a", LOCAL)])));
    match request {
        Some(Request::SaveLocal { tasks }) => {
            assert_eq!(tasks.len(), 3);
            assert_eq!(tasks[0].uid, "z");
            assert_eq!(tasks[1].uid, "a");
            assert_eq!(tasks[1].status, TaskStatus::Completed);
            assert_eq!(tasks[2].status, TaskStatus::NeedsAction);
            assert_eq!(tasks[2].due, Some(1704067200 + 86400));
        }
        other => panic!("unexpected request {:?}", other),
    }
    let (t, request) = c.toggle_task(t, Response::Done(Ok(())));
    assert!(request.is_none());
    let (task, next) = t.into_result().unwrap();
    assert_eq!(task.status, TaskStatus::Completed);
    assert!(next.is_some());
}

#[test]
fn move_copies_then_deletes() {
    let c = online();
    let (m, request) = c.move_task(Move::begin(remote("a"), "/other/"), Response::Start);
    let copy = match request {
        Some(Request::CreateTask { task }) => task,
        other => panic!("unexpected request {:?}", other),
    };
    assert_eq!(copy.uid, "a");
    assert_eq!(copy.calendar_href, "/other/");
    assert_eq!(copy.href, "");
    assert_eq!(copy.etag, "");
    let mut created = copy.clone();
    created.href = "/other/a.ics".to_string();
    let (m, request) = c.move_task(m, Response::Task(Ok(created)));
    assert!(matches!(request, Some(Request::DeleteTask { ref task }) if task.href == "/cal/a.ics"));
    let (m, request) = c.move_task(m, Response::Task(Err("delete failed".to_string())));
    assert!(request.is_none());
    assert!(m.is_finished());
    assert_eq!(m.into_result().unwrap().href, "/other/a.ics");
}

#[test]
fn move_fails_where_the_copy_fails() {
    let c = online();
    let (m, _) = c.move_task(Move::begin(remote("a"), "/other/"), Response::Start);
    let (m, request) = c.move_task(m, Response::Task(Err("Offline".to_string())));
    assert!(request.is_none());
    assert_eq!(m.into_result().err(), Some("Offline".to_string()));
}

#[test]
fn migration_counts_the_successes() {
    let c = online();
    let tasks = vec![remote("a"), remote("b"), remote("c")];
    let (m, request) = c.migrate_tasks(Migration::begin(tasks, "/other/"), Response::Task(Ok(remote("ignored"))));
    assert!(matches!(request, Some(Request::MoveTask { ref task, ref target }) if task.uid == "a" && target == "/other/"));
    assert_eq!(m.moved_count(), 0);
    let (m, request) = c.migrate_tasks(m, Response::Task(Ok(remote("a"))));
    assert!(matches!(request, Some(Request::MoveTask { ref task, .. }) if task.uid == "b"));
    let (m, request) = c.migrate_tasks(m, Response::Task(Err("failed".to_string())));
    assert!(matches!(request, Some(Request::MoveTask { ref task, .. }) if task.uid == "c"));
    let (m, request) = c.migrate_tasks(m, Response::Task(Ok(remote("c"))));
    assert!(request.is_none());
    assert!(m.is_finished());
    assert_eq!(m.moved_count(), 2);
    let (m, request) = c.migrate_tasks(m, Response::Task(Ok(remote("c"))));
    assert!(request.is_none());
    assert_eq!(m.moved_count(), 2);
}

#[test]
fn migration_of_nothing_is_over_at_once() {
    let c = online();
    let (m, request) = c.migrate_tasks(Migration::begin(Vec::new(), "/other/"), Response::Start);
    assert!(request.is_none());
    assert!(m.is_finished());
    assert_eq!(m.moved_count(), 0);
}

#[test]
fn local_store_that_cannot_be_read_fails_the_change_and_keeps_its_tasks() {
    let c = offline();
    for kind in [WriteKind::Create, WriteKind::Update, WriteKind::Delete] {
        let begin = Write::begin(kind, task("a", LOCAL));
        let (w, request) = match kind {
            WriteKind::Create => c.create_task(begin, Response::Start),
            WriteKind::Update => c.update_task(begin, Response::Start),
            WriteKind::Delete => c.delete_task(begin, Response::Start),
        };
        assert!(matches!(request, Some(Request::LoadLocal)));
        let failed = Response::Tasks(Err("cannot read the store".to_string()));
        let (w, request) = match kind {
            WriteKind::Create => c.create_task(w, failed),
            WriteKind::Update => c.update_task(w, failed),
            WriteKind::Delete => c.delete_task(w, failed),
        };
        assert!(request.is_none());
        assert!(w.is_finished());
        assert_eq!(w.result.err(), Some("cannot read the store".to_string()));
    }
}

#[test]
fn local_store_that_cannot_be_written_fails_the_change() {
    let c = offline();
    let (w, _) = c.create_task(Write::begin(WriteKind::Create, task("a", LOCAL)), Response::Start);
    let (w, request) = c.create_task(w, Response::Tasks(Ok(vec![task("old", LOCAL)])));
    assert!(matches!(request, Some(Request::SaveLocal { .. })));
    let (w, request) = c.create_task(w, Response::Done(Err("disk full".to_string())));
    assert!(request.is_none());
    assert_eq!(w.result.err(), Some("disk full".to_string()));
}

#[test]
fn local_toggle_fails_where_the_store_cannot_be_read() {
    let c = offline();
    let mut l = task("a", LOCAL);
    l.due = Some(1704067200);
    l.rrule = Some("FREQ=DAILY".to_string());
    let (t, request) = c.toggle_task(Toggle::begin(l), Response::Start);
    assert!(matches!(request, Some(Request::LoadLocal)));
    let (t, request) = c.toggle_task(t, Response::Tasks(Err("cannot read the store".to_string())));
    assert!(request.is_none());
    assert!(t.is_finished());
    assert_eq!(t.into_result().err(), Some("cannot read the store".to_string()));
}

#[test]
fn task_that_cannot_be_written_is_neither_sent_nor_queued() {
    let c = online();
    for kind in [WriteKind::Create, WriteKind::Update] {
        let mut t = remote("a");
        t.summary = "\u{a0}".repeat(200);
        let begin = Write::begin(kind, t);
        let (w, request) = match kind {
            WriteKind::Create => c.create_task(begin, Response::Start),
            _ => c.update_task(begin, Response::Start),
        };
        assert!(request.is_none());
        assert!(w.is_finished());
        assert_eq!(
            w.result.err(),
            Some("Cannot write the task: a text holds too much white space".to_string())
        );
    }
    let mut t = remote("a");
    t.summary = "\u{a0}".repeat(200);
    let (_, request) = c.delete_task(Write::begin(WriteKind::Delete, t), Response::Start);
    assert!(matches!(request, Some(Request::Delete { .. })));
}
