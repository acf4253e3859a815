//! What the engine asks of the world and what the world answers. The engine
//! names a request; the embedding program carries it out against the remote
//! calendar or a local store and hands back the response.

use crate::journal::{Action, ActionView};
use crate::model::{CalendarListEntry, CalendarView, Task, TaskView};
use vstd::prelude::*;

verus! {

/// One row of a remote listing: a resource and its version, where the server
/// names one.
#[derive(Debug)]
pub struct ResourceEntry {
    pub href: String,
    pub etag: Option<String>,
}

/// What a [`ResourceEntry`] holds.
pub ghost struct ResourceView {
    pub href: Seq<char>,
    pub etag: Option<Seq<char>>,
}

impl DeepView for ResourceEntry {
    type V = ResourceView;

    open spec fn deep_view(&self) -> ResourceView {
        ResourceView { href: self.href@, etag: self.etag.deep_view() }
    }
}

impl View for ResourceEntry {
    type V = ResourceView;

    open spec fn view(&self) -> ResourceView {
        self.deep_view()
    }
}

/// The body of a fetched resource and its version.
#[derive(Debug)]
pub struct FetchedContent {
    pub data: String,
    pub etag: String,
}

/// What a [`FetchedContent`] holds.
pub ghost struct ContentView {
    pub data: Seq<char>,
    pub etag: Seq<char>,
}

impl DeepView for FetchedContent {
    type V = ContentView;

    open spec fn deep_view(&self) -> ContentView {
        ContentView { data: self.data@, etag: self.etag@ }
    }
}

impl View for FetchedContent {
    type V = ContentView;

    open spec fn view(&self) -> ContentView {
        self.deep_view()
    }
}

/// One resource of a batch fetch: its content, or nothing where the server
/// could not give it.
#[derive(Debug)]
pub struct FetchedItem {
    pub href: String,
    pub content: Option<FetchedContent>,
}

/// What a [`FetchedItem`] holds.
pub ghost struct ItemView {
    pub href: Seq<char>,
    pub content: Option<ContentView>,
}

impl DeepView for FetchedItem {
    type V = ItemView;

    open spec fn deep_view(&self) -> ItemView {
        ItemView { href: self.href@, content: self.content.deep_view() }
    }
}

impl View for FetchedItem {
    type V = ItemView;

    open spec fn view(&self) -> ItemView {
        self.deep_view()
    }
}

/// What the engine asks for.
#[derive(Debug)]
pub enum Request {
    /// The resources of a remote calendar with their versions.
    ListResources { calendar_href: String },
    /// The bodies of the named resources of a remote calendar, in one batch.
    FetchMany { calendar_href: String, hrefs: Vec<String> },
    /// A new remote resource with this body.
    Create { href: String, body: String },
    /// A new body for a remote resource, if its version is still `etag`.
    Update { href: String, body: String, etag: String },
    /// The removal of a remote resource, if its version is still `etag`.
    Delete { href: String, etag: String },
    /// The principal of the current user.
    FindPrincipal,
    /// The calendar home sets of a principal.
    FindHomeSet { principal: String },
    /// The calendars below a home set.
    FindCalendars { home: String },
    /// The display name of a calendar.
    DisplayName { href: String },
    /// The tasks of the local store.
    LoadLocal,
    /// These tasks in place of all in the local store.
    SaveLocal { tasks: Vec<Task> },
    /// The tasks last seen in a remote calendar.
    LoadCache { calendar_href: String },
    /// The calendar list last seen.
    LoadCalendars,
    /// This calendar list in place of the one last seen.
    SaveCalendars { calendars: Vec<CalendarListEntry> },
    /// One more change at the end of the stored journal.
    PushJournal { action: Action },
    /// The oldest change of the stored journal taken out.
    PopJournal,
    /// A replay of the journal, run to its end.
    FlushJournal,
    /// The calendar list of the server.
    FetchCalendars,
    /// The calendar to use where none is configured.
    Discover,
    /// The reconciled tasks of a calendar.
    SyncCalendar { calendar_href: String },
    /// A task created in its calendar.
    CreateTask { task: Task },
    /// A task updated in its calendar.
    UpdateTask { task: Task },
    /// A task deleted from its calendar.
    DeleteTask { task: Task },
    /// A task moved to another calendar.
    MoveTask { task: Task, target: String },
}

/// What a [`Request`] holds.
pub ghost enum RequestView {
    ListResources { calendar_href: Seq<char> },
    FetchMany { calendar_href: Seq<char>, hrefs: Seq<Seq<char>> },
    Create { href: Seq<char>, body: Seq<char> },
    Update { href: Seq<char>, body: Seq<char>, etag: Seq<char> },
    Delete { href: Seq<char>, etag: Seq<char> },
    FindPrincipal,
    FindHomeSet { principal: Seq<char> },
    FindCalendars { home: Seq<char> },
    DisplayName { href: Seq<char> },
    LoadLocal,
    SaveLocal { tasks: Seq<TaskView> },
    LoadCache { calendar_href: Seq<char> },
    LoadCalendars,
    SaveCalendars { calendars: Seq<CalendarView> },
    PushJournal { action: ActionView },
    PopJournal,
    FlushJournal,
    FetchCalendars,
    Discover,
    SyncCalendar { calendar_href: Seq<char> },
    CreateTask { task: TaskView },
    UpdateTask { task: TaskView },
    DeleteTask { task: TaskView },
    MoveTask { task: TaskView, target: Seq<char> },
}

impl RequestView {
    /// The request goes to the remote calendar server.
    pub open spec fn is_remote(self) -> bool {
        match self {
            RequestView::ListResources { .. } => true,
            RequestView::FetchMany { .. } => true,
            RequestView::Create { .. } => true,
            RequestView::Update { .. } => true,
            RequestView::Delete { .. } => true,
            RequestView::FindPrincipal => true,
            RequestView::FindHomeSet { .. } => true,
            RequestView::FindCalendars { .. } => true,
            RequestView::DisplayName { .. } => true,
            _ => false,
        }
    }
}

impl DeepView for Request {
    type V = RequestView;

    open spec fn deep_view(&self) -> RequestView {
        match self {
            Request::ListResources { calendar_href } => RequestView::ListResources {
                calendar_href: calendar_href@,
            },
            Request::FetchMany { calendar_href, hrefs } => RequestView::FetchMany {
                calendar_href: calendar_href@,
                hrefs: hrefs.deep_view(),
            },
            Request::Create { href, body } => RequestView::Create { href: href@, body: body@ },
            Request::Update { href, body, etag } => RequestView::Update {
                href: href@,
                body: body@,
                etag: etag@,
            },
            Request::Delete { href, etag } => RequestView::Delete { href: href@, etag: etag@ },
            Request::FindPrincipal => RequestView::FindPrincipal,
            Request::FindHomeSet { principal } => RequestView::FindHomeSet {
                principal: principal@,
            },
            Request::FindCalendars { home } => RequestView::FindCalendars { home: home@ },
            Request::DisplayName { href } => RequestView::DisplayName { href: href@ },
            Request::LoadLocal => RequestView::LoadLocal,
            Request::SaveLocal { tasks } => RequestView::SaveLocal { tasks: tasks.deep_view() },
            Request::LoadCache { calendar_href } => RequestView::LoadCache {
                calendar_href: calendar_href@,
            },
            Request::LoadCalendars => RequestView::LoadCalendars,
            Request::SaveCalendars { calendars } => RequestView::SaveCalendars {
                calendars: calendars.deep_view(),
            },
            Request::PushJournal { action } => RequestView::PushJournal { action: action@ },
            Request::PopJournal => RequestView::PopJournal,
            Request::FlushJournal => RequestView::FlushJournal,
            Request::FetchCalendars => RequestView::FetchCalendars,
            Request::Discover => RequestView::Discover,
            Request::SyncCalendar { calendar_href } => RequestView::SyncCalendar {
                calendar_href: calendar_href@,
            },
            Request::CreateTask { task } => RequestView::CreateTask { task: task@ },
            Request::UpdateTask { task } => RequestView::UpdateTask { task: task@ },
            Request::DeleteTask { task } => RequestView::DeleteTask { task: task@ },
            Request::MoveTask { task, target } => RequestView::MoveTask {
                task: task@,
                target: target@,
            },
        }
    }
}

impl View for Request {
    type V = RequestView;

    open spec fn view(&self) -> RequestView {
        self.deep_view()
    }
}

/// What the world answers. A failure carries the text that describes it.
#[derive(Debug)]
pub enum Response {
    /// Nothing was asked yet.
    Start,
    /// Something was done, or not.
    Done(Result<(), String>),
    /// Tasks.
    Tasks(Result<Vec<Task>, String>),
    /// One task, as it stands after a change.
    Task(Result<Task, String>),
    /// Calendars.
    Calendars(Result<Vec<CalendarListEntry>, String>),
    /// A remote listing.
    Resources(Result<Vec<ResourceEntry>, String>),
    /// Fetched resources.
    Items(Result<Vec<FetchedItem>, String>),
    /// A text, where there is one: a new version, a principal, a name.
    Text(Result<Option<String>, String>),
    /// Texts: home sets, or the hrefs of calendars.
    Texts(Result<Vec<String>, String>),
}

/// What a [`Response`] holds.
pub ghost enum ResponseView {
    Start,
    Done(Result<(), Seq<char>>),
    Tasks(Result<Seq<TaskView>, Seq<char>>),
    Task(Result<TaskView, Seq<char>>),
    Calendars(Result<Seq<CalendarView>, Seq<char>>),
    Resources(Result<Seq<ResourceView>, Seq<char>>),
    Items(Result<Seq<ItemView>, Seq<char>>),
    Text(Result<Option<Seq<char>>, Seq<char>>),
    Texts(Result<Seq<Seq<char>>, Seq<char>>),
}

/// An outcome as mathematical values.
pub open spec fn outcome_view<T: DeepView>(r: Result<T, String>) -> Result<T::V, Seq<char>> {
    match r {
        Ok(v) => Ok(v.deep_view()),
        Err(e) => Err(e@),
    }
}

impl DeepView for Response {
    type V = ResponseView;

    open spec fn deep_view(&self) -> ResponseView {
        match self {
            Response::Start => ResponseView::Start,
            Response::Done(r) => ResponseView::Done(outcome_view(*r)),
            Response::Tasks(r) => ResponseView::Tasks(outcome_view(*r)),
            Response::Task(r) => ResponseView::Task(outcome_view(*r)),
            Response::Calendars(r) => ResponseView::Calendars(outcome_view(*r)),
            Response::Resources(r) => ResponseView::Resources(outcome_view(*r)),
            Response::Items(r) => ResponseView::Items(outcome_view(*r)),
            Response::Text(r) => ResponseView::Text(outcome_view(*r)),
            Response::Texts(r) => ResponseView::Texts(outcome_view(*r)),
        }
    }
}

impl View for Response {
    type V = ResponseView;

    open spec fn view(&self) -> ResponseView {
        self.deep_view()
    }
}

/// The text of the failure that stands for a response of the wrong kind.
pub open spec fn unexpected() -> Seq<char> {
    "Unexpected response"@
}

impl ResponseView {
    /// The response read as the outcome of something done.
    pub open spec fn done(self) -> Result<(), Seq<char>> {
        match self {
            ResponseView::Done(r) => r,
            _ => Err(unexpected()),
        }
    }

    /// The response read as tasks.
    pub open spec fn tasks(self) -> Result<Seq<TaskView>, Seq<char>> {
        match self {
            ResponseView::Tasks(r) => r,
            _ => Err(unexpected()),
        }
    }

    /// The response read as one task.
    pub open spec fn task(self) -> Result<TaskView, Seq<char>> {
        match self {
            ResponseView::Task(r) => r,
            _ => Err(unexpected()),
        }
    }

    /// The response read as calendars.
    pub open spec fn calendars(self) -> Result<Seq<CalendarView>, Seq<char>> {
        match self {
            ResponseView::Calendars(r) => r,
            _ => Err(unexpected()),
        }
    }

    /// The response read as a remote listing.
    pub open spec fn resources(self) -> Result<Seq<ResourceView>, Seq<char>> {
        match self {
            ResponseView::Resources(r) => r,
            _ => Err(unexpected()),
        }
    }

    /// The response read as fetched resources.
    pub open spec fn items(self) -> Result<Seq<ItemView>, Seq<char>> {
        match self {
            ResponseView::Items(r) => r,
            _ => Err(unexpected()),
        }
    }

    /// The response read as an optional text.
    pub open spec fn text(self) -> Result<Option<Seq<char>>, Seq<char>> {
        match self {
            ResponseView::Text(r) => r,
            _ => Err(unexpected()),
        }
    }

    /// The response read as texts.
    pub open spec fn texts(self) -> Result<Seq<Seq<char>>, Seq<char>> {
        match self {
            ResponseView::Texts(r) => r,
            _ => Err(unexpected()),
        }
    }
}

impl Response {
    /// Reads the response as the outcome of something done. A response of
    /// another kind counts as a failure.
    pub fn into_done(self) -> (r: Result<(), String>)
        ensures
            outcome_view(r) == self@.done(),
    {
        match self {
            Response::Done(r) => r,
            _ => Err("Unexpected response".to_owned()),
        }
    }

    /// Reads the response as tasks.
    pub fn into_tasks(self) -> (r: Result<Vec<Task>, String>)
        ensures
            outcome_view(r) == self@.tasks(),
    {
        match self {
            Response::Tasks(r) => r,
            _ => Err("Unexpected response".to_owned()),
        }
    }

    /// Reads the response as one task.
    pub fn into_task(self) -> (r: Result<Task, String>)
        ensures
            outcome_view(r) == self@.task(),
    {
        match self {
            Response::Task(r) => r,
            _ => Err("Unexpected response".to_owned()),
        }
    }

    /// Reads the response as calendars.
    pub fn into_calendars(self) -> (r: Result<Vec<CalendarListEntry>, String>)
        ensures
            outcome_view(r) == self@.calendars(),
    {
        match self {
            Response::Calendars(r) => r,
            _ => Err("Unexpected response".to_owned()),
        }
    }

    /// Reads the response as a remote listing.
    pub fn into_resources(self) -> (r: Result<Vec<ResourceEntry>, String>)
        ensures
            outcome_view(r) == self@.resources(),
    {
        match self {
            Response::Resources(r) => r,
            _ => Err("Unexpected response".to_owned()),
        }
    }

    /// Reads the response as fetched resources.
    pub fn into_items(self) -> (r: Result<Vec<FetchedItem>, String>)
        ensures
            outcome_view(r) == self@.items(),
    {
        match self {
            Response::Items(r) => r,
            _ => Err("Unexpected response".to_owned()),
        }
    }

    /// Reads the response as an optional text.
    pub fn into_text(self) -> (r: Result<Option<String>, String>)
        ensures
            outcome_view(r) == self@.text(),
    {
        match self {
            Response::Text(r) => r,
            _ => Err("Unexpected response".to_owned()),
        }
    }

    /// Reads the response as texts.
    pub fn into_texts(self) -> (r: Result<Vec<String>, String>)
        ensures
            outcome_view(r) == self@.texts(),
    {
        match self {
            Response::Texts(r) => r,
            _ => Err("Unexpected response".to_owned()),
        }
    }
}

} // verus!
