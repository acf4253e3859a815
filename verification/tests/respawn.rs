use cfait::model::{Task, TaskStatus};

const T: i64 = 1704067200;
const DAY: i64 = 86400;

fn recurring() -> Task {
    Task {
        uid: "uid-1".to_string(),
        summary: "Water the plants".to_string(),
        description: String::new(),
        status: TaskStatus::Completed,
        estimated_duration: Some(15),
        due: Some(T + 2 * DAY),
        dtstart: Some(T),
        priority: 2,
        parent_uid: Some("garden".to_string()),
        dependencies: vec!["buy-can".to_string()],
        etag: "e1".to_string(),
        href: "/cal/uid-1.ics".to_string(),
        calendar_href: "/cal/".to_string(),
        categories: vec!["home".to_string()],
        depth: 3,
        rrule: Some("FREQ=DAILY".to_string()),
    }
}

#[test]
fn daily_task_respawns_one_day_later() {
    let t = recurring();
    let next = t.respawn().unwrap();
    assert_eq!(next.dtstart, Some(T + DAY));
    assert_eq!(next.due, Some(T + 3 * DAY));
    assert_eq!(next.status, TaskStatus::NeedsAction);
    assert_ne!(next.uid, t.uid);
    assert_eq!(next.uid.chars().count(), 36);
    assert!(next.dependencies.is_empty());
    assert_eq!(next.href, "");
    assert_eq!(next.etag, "");
    assert_eq!(next.summary, t.summary);
    assert_eq!(next.parent_uid, t.parent_uid);
    assert_eq!(next.categories, t.categories);
    assert_eq!(next.rrule, t.rrule);
    assert_eq!(next.calendar_href, t.calendar_href);
    assert_eq!(next.estimated_duration, t.estimated_duration);
    assert_eq!(next.priority, t.priority);
}

#[test]
fn each_respawn_has_its_own_identifier() {
    let t = recurring();
    let a = t.respawn().unwrap();
    let b = t.respawn().unwrap();
    assert_ne!(a.uid, b.uid);
}

#[test]
fn weekly_task_respawns_a_week_later() {
    let mut t = recurring();
    t.rrule = Some("FREQ=WEEKLY".to_string());
    let next = t.respawn().unwrap();
    assert_eq!(next.dtstart, Some(T + 7 * DAY));
    assert_eq!(next.due, Some(T + 9 * DAY));
}

#[test]
fn task_with_due_date_alone_counts_from_it() {
    let mut t = recurring();
    t.dtstart = None;
    let next = t.respawn().unwrap();
    assert_eq!(next.dtstart, None);
    assert_eq!(next.due, Some(T + 3 * DAY));
}

#[test]
fn task_with_start_alone_gets_no_due_date() {
    let mut t = recurring();
    t.due = None;
    let next = t.respawn().unwrap();
    assert_eq!(next.dtstart, Some(T + DAY));
    assert_eq!(next.due, None);
}

#[test]
fn no_respawn_without_rule_or_dates() {
    let mut t = recurring();
    t.rrule = None;
    assert!(t.respawn().is_none());
    let mut t = recurring();
    t.dtstart = None;
    t.due = None;
    assert!(t.respawn().is_none());
    let mut t = recurring();
    t.rrule = Some("not a rule".to_string());
    assert!(t.respawn().is_none());
    let mut t = recurring();
    t.rrule = Some("FREQ=DAILY;COUNT=1".to_string());
    assert!(t.respawn().is_none());
}

#[test]
fn respawn_at_a_given_start() {
    let t = recurring();
    let next = t.respawn_at(T + 10 * DAY, "fresh".to_string()).unwrap();
    assert_eq!(next.uid, "fresh");
    assert_eq!(next.dtstart, Some(T + 10 * DAY));
    assert_eq!(next.due, Some(T + 12 * DAY));
    assert_eq!(next.status, TaskStatus::NeedsAction);
    assert!(next.dependencies.is_empty());
}

#[test]
fn respawn_at_gives_nothing_where_the_due_date_does_not_fit() {
    let mut t = recurring();
    t.dtstart = Some(0);
    t.due = Some(10);
    assert!(t.respawn_at(i64::MAX, "x".to_string()).is_none());
    assert!(t.respawn_at(i64::MAX - 10, "x".to_string()).is_some());
    t.dtstart = Some(-1);
    t.due = Some(i64::MAX);
    let next = t.respawn_at(-5, "x".to_string()).unwrap();
    assert_eq!(next.due, Some(i64::MAX - 4));
}
