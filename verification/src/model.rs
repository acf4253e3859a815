//! The values that move through the engine: tasks and calendar entries.

use vstd::prelude::*;

verus! {

/// Identifier of the calendar that lives only in the local store.
pub const LOCAL_CALENDAR_HREF: &'static str = "local://default";

/// Display name of the local calendar.
pub const LOCAL_CALENDAR_NAME: &'static str = "Local";

/// The characters of [`LOCAL_CALENDAR_HREF`].
pub open spec fn local_href() -> Seq<char> {
    LOCAL_CALENDAR_HREF@
}

/// Progress of a task.
#[derive(Clone, Copy, Debug, PartialEq, Eq, Structural)]
pub enum TaskStatus {
    NeedsAction,
    InProcess,
    Completed,
    Cancelled,
}

impl TaskStatus {
    /// Whether nothing remains to be done: the task is completed or cancelled.
    pub open spec fn done(self) -> bool {
        self == TaskStatus::Completed || self == TaskStatus::Cancelled
    }

    #[verifier::when_used_as_spec(done)]
    pub fn is_done(self) -> (r: bool)
        ensures
            r == self.done(),
    {
        match self {
            TaskStatus::Completed => true,
            TaskStatus::Cancelled => true,
            _ => false,
        }
    }
}

/// A task. Instants are seconds since the Unix epoch, in UTC. An empty `href`
/// means the task has no remote resource yet; an empty `etag` means no remote
/// version is known.
#[derive(Debug)]
pub struct Task {
    pub uid: String,
    pub summary: String,
    pub description: String,
    pub status: TaskStatus,
    pub estimated_duration: Option<u32>,
    pub due: Option<i64>,
    pub dtstart: Option<i64>,
    pub priority: u8,
    pub parent_uid: Option<String>,
    pub dependencies: Vec<String>,
    pub etag: String,
    pub href: String,
    pub calendar_href: String,
    pub categories: Vec<String>,
    pub depth: usize,
    pub rrule: Option<String>,
}

/// What a [`Task`] holds, as mathematical values.
pub ghost struct TaskView {
    pub uid: Seq<char>,
    pub summary: Seq<char>,
    pub description: Seq<char>,
    pub status: TaskStatus,
    pub estimated_duration: Option<u32>,
    pub due: Option<i64>,
    pub dtstart: Option<i64>,
    pub priority: u8,
    pub parent_uid: Option<Seq<char>>,
    pub dependencies: Seq<Seq<char>>,
    pub etag: Seq<char>,
    pub href: Seq<char>,
    pub calendar_href: Seq<char>,
    pub categories: Seq<Seq<char>>,
    pub depth: usize,
    pub rrule: Option<Seq<char>>,
}

impl TaskView {
    /// The task belongs to the local calendar.
    pub open spec fn is_local(self) -> bool {
        self.calendar_href == local_href()
    }

    /// A local task carries neither a remote locator nor a remote version.
    pub open spec fn well_routed(self) -> bool {
        self.is_local() ==> self.href.len() == 0 && self.etag.len() == 0
    }
}

impl DeepView for Task {
    type V = TaskView;

    open spec fn deep_view(&self) -> TaskView {
        TaskView {
            uid: self.uid@,
            summary: self.summary@,
            description: self.description@,
            status: self.status,
            estimated_duration: self.estimated_duration,
            due: self.due,
            dtstart: self.dtstart,
            priority: self.priority,
            parent_uid: self.parent_uid.deep_view(),
            dependencies: self.dependencies.deep_view(),
            etag: self.etag@,
            href: self.href@,
            calendar_href: self.calendar_href@,
            categories: self.categories.deep_view(),
            depth: self.depth,
            rrule: self.rrule.deep_view(),
        }
    }
}

impl View for Task {
    type V = TaskView;

    open spec fn view(&self) -> TaskView {
        self.deep_view()
    }
}

/// A copy of a list of strings.
pub fn clone_texts(v: &Vec<String>) -> (r: Vec<String>)
    ensures
        r.deep_view() == v.deep_view(),
{
    let mut r: Vec<String> = Vec::new();
    let mut i: usize = 0;
    while i < v.len()
        invariant
            i <= v.len(),
            r.len() == i,
            forall|k: int| 0 <= k < i ==> r[k]@ == v[k]@,
        decreases v.len() - i,
    {
        r.push(v[i].clone());
        i += 1;
    }
    assert(r.deep_view() =~= v.deep_view());
    r
}

/// A copy of an optional string.
pub fn clone_opt_text(o: &Option<String>) -> (r: Option<String>)
    ensures
        r.deep_view() == o.deep_view(),
{
    match o {
        Some(s) => Some(s.clone()),
        None => None,
    }
}

impl Clone for Task {
    fn clone(&self) -> (r: Self)
        ensures
            r@ == self@,
    {
        Task {
            uid: self.uid.clone(),
            summary: self.summary.clone(),
            description: self.description.clone(),
            status: self.status,
            estimated_duration: self.estimated_duration,
            due: self.due,
            dtstart: self.dtstart,
            priority: self.priority,
            parent_uid: clone_opt_text(&self.parent_uid),
            dependencies: clone_texts(&self.dependencies),
            etag: self.etag.clone(),
            href: self.href.clone(),
            calendar_href: self.calendar_href.clone(),
            categories: clone_texts(&self.categories),
            depth: self.depth,
            rrule: clone_opt_text(&self.rrule),
        }
    }
}

impl Task {
    /// Whether the task belongs to the local calendar.
    pub fn is_local(&self) -> (r: bool)
        ensures
            r == self@.is_local(),
    {
        is_local_href(self.calendar_href.as_str())
    }
}

/// Whether `href` names the local calendar: exact equality with the reserved
/// identifier.
pub fn is_local_href(href: &str) -> (r: bool)
    ensures
        r == (href@ == local_href()),
{
    crate::text::same_text(href, LOCAL_CALENDAR_HREF)
}

/// A copy of a list of tasks.
pub fn clone_tasks(v: &Vec<Task>) -> (r: Vec<Task>)
    ensures
        r.deep_view() == v.deep_view(),
{
    let mut r: Vec<Task> = Vec::new();
    let mut i: usize = 0;
    while i < v.len()
        invariant
            i <= v.len(),
            r.len() == i,
            forall|k: int| 0 <= k < i ==> r[k]@ == v[k]@,
        decreases v.len() - i,
    {
        r.push(v[i].clone());
        i += 1;
    }
    assert(r.deep_view() =~= v.deep_view());
    r
}

/// One calendar of the list shown to the user.
#[derive(Debug)]
pub struct CalendarListEntry {
    pub name: String,
    pub href: String,
    pub color: Option<String>,
}

/// What a [`CalendarListEntry`] holds, as mathematical values.
pub ghost struct CalendarView {
    pub name: Seq<char>,
    pub href: Seq<char>,
    pub color: Option<Seq<char>>,
}

impl DeepView for CalendarListEntry {
    type V = CalendarView;

    open spec fn deep_view(&self) -> CalendarView {
        CalendarView { name: self.name@, href: self.href@, color: self.color.deep_view() }
    }
}

impl View for CalendarListEntry {
    type V = CalendarView;

    open spec fn view(&self) -> CalendarView {
        self.deep_view()
    }
}

impl Clone for CalendarListEntry {
    fn clone(&self) -> (r: Self)
        ensures
            r@ == self@,
    {
        CalendarListEntry {
            name: self.name.clone(),
            href: self.href.clone(),
            color: clone_opt_text(&self.color),
        }
    }
}

/// A copy of a list of calendar entries.
pub fn clone_calendars(v: &Vec<CalendarListEntry>) -> (r: Vec<CalendarListEntry>)
    ensures
        r.deep_view() == v.deep_view(),
{
    let mut r: Vec<CalendarListEntry> = Vec::new();
    let mut i: usize = 0;
    while i < v.len()
        invariant
            i <= v.len(),
            r.len() == i,
            forall|k: int| 0 <= k < i ==> r[k]@ == v[k]@,
        decreases v.len() - i,
    {
        r.push(v[i].clone());
        i += 1;
    }
    assert(r.deep_view() =~= v.deep_view());
    r
}

} // verus!
