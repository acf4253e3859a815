//! The values that cross to the mobile front end.

use crate::clock::{format_rfc3339, rfc3339_text};
use crate::config::{holds, Config, ConfigView};
use crate::model::{
    clone_opt_text, local_href, CalendarListEntry, CalendarView, Task, TaskStatus, TaskView,
    LOCAL_CALENDAR_HREF, LOCAL_CALENDAR_NAME,
};
use vstd::prelude::*;

verus! {

/// A failure as the mobile front end sees it: a text.
#[derive(Debug)]
pub enum MobileError {
    Generic(String),
}

impl MobileError {
    /// The text of the failure.
    pub fn message(&self) -> (r: String)
        ensures
            r@ == self.text(),
    {
        match self {
            MobileError::Generic(s) => s.clone(),
        }
    }

    /// The text of the failure.
    pub open spec fn text(&self) -> Seq<char> {
        match self {
            MobileError::Generic(s) => s@,
        }
    }

    /// The failure with the given text.
    pub fn from_text(e: &str) -> (r: MobileError)
        ensures
            r.text() == e@,
    {
        MobileError::Generic(e.to_owned())
    }
}

impl From<String> for MobileError {
    fn from(e: String) -> (r: MobileError) {
        MobileError::Generic(e)
    }
}

impl vstd::std_specs::convert::FromSpecImpl<String> for MobileError {
    open spec fn obeys_from_spec() -> bool {
        true
    }

    open spec fn from_spec(e: String) -> MobileError {
        MobileError::Generic(e)
    }
}

/// A task as the mobile front end shows it.
#[derive(Debug)]
pub struct MobileTask {
    pub uid: String,
    pub summary: String,
    pub description: String,
    pub is_done: bool,
    pub priority: u8,
    pub due_date_iso: Option<String>,
    pub start_date_iso: Option<String>,
    pub duration_mins: Option<u32>,
    pub calendar_href: String,
    pub categories: Vec<String>,
    pub is_recurring: bool,
    pub parent_uid: Option<String>,
    pub smart_string: String,
}

/// A calendar as the mobile front end shows it.
#[derive(Debug)]
pub struct MobileCalendar {
    pub name: String,
    pub href: String,
    pub color: Option<String>,
    pub is_visible: bool,
    pub is_local: bool,
}

/// The settings that the mobile front end shows.
#[derive(Debug)]
pub struct MobileConfig {
    pub url: String,
    pub username: String,
    pub default_calendar: Option<String>,
    pub allow_insecure: bool,
    pub hide_completed: bool,
}

/// An optional instant written after RFC 3339.
pub open spec fn optional_rfc3339(instant: Option<i64>) -> Option<Seq<char>> {
    match instant {
        Some(secs) => rfc3339_text(secs),
        None => None,
    }
}

fn write_rfc3339(instant: Option<i64>) -> (r: Option<String>)
    ensures
        r.deep_view() == optional_rfc3339(instant),
{
    match instant {
        Some(secs) => format_rfc3339(secs),
        None => None,
    }
}

impl MobileTask {
    /// The task as the mobile front end shows it: done where it is
    /// completed or cancelled, recurring where it has a rule, its dates
    /// written after RFC 3339, and `smart_string` as the line that stands
    /// for it.
    pub fn from_task(t: Task, smart_string: String) -> (r: MobileTask)
        ensures
            r.uid@ == t@.uid,
            r.summary@ == t@.summary,
            r.description@ == t@.description,
            r.is_done == t@.status.done(),
            r.priority == t@.priority,
            r.due_date_iso.deep_view() == optional_rfc3339(t@.due),
            r.start_date_iso.deep_view() == optional_rfc3339(t@.dtstart),
            r.duration_mins == t@.estimated_duration,
            r.calendar_href@ == t@.calendar_href,
            r.categories.deep_view() == t@.categories,
            r.is_recurring == (t@.rrule is Some),
            r.parent_uid.deep_view() == t@.parent_uid,
            r.smart_string@ == smart_string@,
    {
        MobileTask {
            uid: t.uid,
            summary: t.summary,
            description: t.description,
            is_done: t.status.is_done(),
            priority: t.priority,
            due_date_iso: write_rfc3339(t.due),
            start_date_iso: write_rfc3339(t.dtstart),
            duration_mins: t.estimated_duration,
            calendar_href: t.calendar_href,
            categories: t.categories,
            is_recurring: t.rrule.is_some(),
            parent_uid: t.parent_uid,
            smart_string,
        }
    }
}

impl MobileConfig {
    /// The settings that the mobile front end shows. The password is not
    /// among them.
    pub fn from_config(c: Config) -> (r: MobileConfig)
        ensures
            r.url@ == c@.url,
            r.username@ == c@.username,
            r.default_calendar.deep_view() == c@.default_calendar,
            r.allow_insecure == c@.allow_insecure_certs,
            r.hide_completed == c@.hide_completed,
    {
        MobileConfig {
            url: c.url,
            username: c.username,
            default_calendar: c.default_calendar,
            allow_insecure: c.allow_insecure_certs,
            hide_completed: c.hide_completed,
        }
    }
}

/// What a [`MobileCalendar`] holds.
pub ghost struct MobileCalendarView {
    pub name: Seq<char>,
    pub href: Seq<char>,
    pub color: Option<Seq<char>>,
    pub is_visible: bool,
    pub is_local: bool,
}

impl DeepView for MobileCalendar {
    type V = MobileCalendarView;

    open spec fn deep_view(&self) -> MobileCalendarView {
        MobileCalendarView {
            name: self.name@,
            href: self.href@,
            color: self.color.deep_view(),
            is_visible: self.is_visible,
            is_local: self.is_local,
        }
    }
}

impl View for MobileCalendar {
    type V = MobileCalendarView;

    open spec fn view(&self) -> MobileCalendarView {
        self.deep_view()
    }
}

/// The local calendar as the mobile front end shows it.
pub open spec fn local_entry(hidden: Seq<Seq<char>>) -> MobileCalendarView {
    MobileCalendarView {
        name: LOCAL_CALENDAR_NAME@,
        href: local_href(),
        color: None,
        is_visible: !hidden.contains(local_href()),
        is_local: true,
    }
}

/// The remote calendars of a list as the mobile front end shows them, in
/// order. An entry for the local calendar is passed over.
pub open spec fn remote_entries(calendars: Seq<CalendarView>, hidden: Seq<Seq<char>>) -> Seq<
    MobileCalendarView,
>
    decreases calendars.len(),
{
    if calendars.len() == 0 {
        Seq::empty()
    } else if calendars.last().href == local_href() {
        remote_entries(calendars.drop_last(), hidden)
    } else {
        remote_entries(calendars.drop_last(), hidden).push(
            MobileCalendarView {
                name: calendars.last().name,
                href: calendars.last().href,
                color: calendars.last().color,
                is_visible: !hidden.contains(calendars.last().href),
                is_local: false,
            },
        )
    }
}

/// The calendars that the mobile front end shows: the local calendar
/// first, then the calendars last seen on the server. A calendar is visible
/// unless the settings hide it.
pub fn mobile_calendars(config: &Config, cached: &Vec<CalendarListEntry>) -> (r: Vec<
    MobileCalendar,
>)
    ensures
        r.deep_view() == seq![local_entry(config@.hidden_calendars)] + remote_entries(
            cached.deep_view(),
            config@.hidden_calendars,
        ),
{
    let local = LOCAL_CALENDAR_HREF.to_owned();
    let mut result: Vec<MobileCalendar> = Vec::new();
    result.push(
        MobileCalendar {
            name: LOCAL_CALENDAR_NAME.to_owned(),
            href: local.clone(),
            color: None,
            is_visible: config.shows(&local),
            is_local: true,
        },
    );
    let ghost head = seq![local_entry(config@.hidden_calendars)];
    assert(result.deep_view() =~= head);
    let mut i: usize = 0;
    assert(cached.deep_view().take(0) =~= Seq::<CalendarView>::empty());
    assert(head + Seq::<MobileCalendarView>::empty() =~= head);
    while i < cached.len()
        invariant
            i <= cached.len(),
            local@ == local_href(),
            head == seq![local_entry(config@.hidden_calendars)],
            result.deep_view() == head + remote_entries(
                cached.deep_view().take(i as int),
                config@.hidden_calendars,
            ),
        decreases cached.len() - i,
    {
        let ghost prefix = cached.deep_view().take(i + 1);
        let ghost before = result.deep_view();
        assert(prefix.drop_last() =~= cached.deep_view().take(i as int));
        assert(prefix.last() == cached[i as int]@);
        let c = &cached[i];
        if c.href != local {
            let entry = MobileCalendar {
                name: c.name.clone(),
                href: c.href.clone(),
                color: clone_opt_text(&c.color),
                is_visible: config.shows(&c.href),
                is_local: false,
            };
            result.push(entry);
            assert(result.deep_view() =~= before.push(entry@));
            assert(result.deep_view() =~= head + remote_entries(prefix, config@.hidden_calendars));
        }
        i += 1;
    }
    assert(cached.deep_view().take(i as int) =~= cached.deep_view());
    result
}

/// A list of texts without those equal to `item`.
pub open spec fn without_text(list: Seq<Seq<char>>, item: Seq<char>) -> Seq<Seq<char>>
    decreases list.len(),
{
    if list.len() == 0 {
        list
    } else if list.last() == item {
        without_text(list.drop_last(), item)
    } else {
        without_text(list.drop_last(), item).push(list.last())
    }
}

/// The hidden calendars after a calendar is shown or hidden: shown, it is
/// no longer among them; hidden, it is among them once.
pub open spec fn hidden_after(hidden: Seq<Seq<char>>, href: Seq<char>, visible: bool) -> Seq<
    Seq<char>,
> {
    if visible {
        without_text(hidden, href)
    } else if hidden.contains(href) {
        hidden
    } else {
        hidden.push(href)
    }
}

/// Shows or hides a calendar in the settings.
pub fn set_visibility(config: &mut Config, href: String, visible: bool)
    ensures
        final(config)@ == (ConfigView {
            hidden_calendars: hidden_after(old(config)@.hidden_calendars, href@, visible),
            ..old(config)@
        }),
{
    let ghost hidden = config.hidden_calendars.deep_view();
    if visible {
        let mut kept: Vec<String> = Vec::new();
        let mut i: usize = 0;
        assert(hidden.take(0) =~= Seq::<Seq<char>>::empty());
        assert(kept.deep_view() =~= Seq::<Seq<char>>::empty());
        while i < config.hidden_calendars.len()
            invariant
                i <= config.hidden_calendars.len(),
                *config == *old(config),
                hidden == config.hidden_calendars.deep_view(),
                kept.deep_view() == without_text(hidden.take(i as int), href@),
            decreases config.hidden_calendars.len() - i,
        {
            let ghost before = kept.deep_view();
            assert(hidden.take(i + 1).drop_last() =~= hidden.take(i as int));
            assert(hidden.take(i + 1).last() == config.hidden_calendars[i as int]@);
            if config.hidden_calendars[i] != href {
                kept.push(config.hidden_calendars[i].clone());
                assert(kept.deep_view() =~= before.push(config.hidden_calendars[i as int]@));
            }
            i += 1;
        }
        assert(hidden.take(i as int) =~= hidden);
        config.hidden_calendars = kept;
    } else if !holds(&config.hidden_calendars, &href) {
        config.hidden_calendars.push(href);
        assert(config.hidden_calendars.deep_view() =~= hidden.push(href@));
    }
}

/// The settings after the user has entered a connection: the address, the
/// user and the certificate policy are taken over; the password is, unless
/// the entry is empty.
pub open spec fn with_connection(
    c: ConfigView,
    url: Seq<char>,
    user: Seq<char>,
    pass: Seq<char>,
    insecure: bool,
) -> ConfigView {
    ConfigView {
        url,
        username: user,
        password: if pass.len() > 0 {
            pass
        } else {
            c.password
        },
        allow_insecure_certs: insecure,
        ..c
    }
}

/// Takes the connection that the user has entered into the settings.
pub fn apply_connection(config: &mut Config, url: String, user: String, pass: String, insecure: bool)
    ensures
        final(config)@ == with_connection(old(config)@, url@, user@, pass@, insecure),
{
    config.url = url;
    config.username = user;
    if !pass.as_str().is_empty() {
        config.password = pass;
    }
    config.allow_insecure_certs = insecure;
}

/// The calendar that a new task goes to: the configured default, or the
/// local calendar where none is configured.
pub fn target_calendar(config: &Config) -> (r: String)
    ensures
        r@ == match config@.default_calendar {
            Some(href) => href,
            None => local_href(),
        },
{
    match &config.default_calendar {
        Some(href) => href.clone(),
        None => LOCAL_CALENDAR_HREF.to_owned(),
    }
}

/// Marks a task that is not done as completed, and a task that is done as
/// in need of action.
pub fn toggle_done(task: &mut Task)
    ensures
        final(task)@ == (TaskView {
            status: if old(task)@.status.done() {
                TaskStatus::NeedsAction
            } else {
                TaskStatus::Completed
            },
            ..old(task)@
        }),
{
    if task.status.is_done() {
        task.status = TaskStatus::NeedsAction;
    } else {
        task.status = TaskStatus::Completed;
    }
}

} // verus!
