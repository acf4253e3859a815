//! Bringing a session up: the client, the calendar list of the server or
//! the one last seen, the calendar to work in, and its tasks.

use crate::client::{certificate_failed, client_for, is_certificate_failure, RustyClient};
use crate::config::{Config, ConfigView};
use crate::exchange::{Request, RequestView, Response, ResponseView};
use crate::model::{clone_calendars, CalendarListEntry, CalendarView, Task, TaskView};
use crate::sync::tasks_or_none;
use vstd::prelude::*;
use vstd::string::StringExecFns;

verus! {

/// Where the bring-up of a session stands.
#[derive(Clone, Copy, Debug, PartialEq, Eq, Structural)]
pub enum ConnectStage {
    /// Nothing was asked yet.
    Start,
    /// The journal is being replayed.
    Flush,
    /// The server was asked for its calendars.
    Calendars,
    /// The calendar list is being stored.
    SaveList,
    /// The calendar list last seen was asked for.
    CachedList,
    /// The calendar to use is being discovered.
    Discover,
    /// The tasks of the active calendar are being read.
    Tasks,
    /// The bring-up is over; the result stands.
    Finished,
}

/// The bring-up of a session under way, and the session once it is over:
/// the client, the calendars, the tasks of the active calendar, the active
/// calendar where there is one, and a warning where the session is offline.
#[derive(Debug)]
pub struct Connection {
    pub config: Config,
    pub trusted_roots: usize,
    pub client: RustyClient,
    pub calendars: Vec<CalendarListEntry>,
    pub tasks: Vec<Task>,
    pub active_href: Option<String>,
    pub warning: Option<String>,
    pub stage: ConnectStage,
    pub result: Result<(), String>,
}

/// What a [`Connection`] holds.
pub ghost struct ConnectionView {
    pub config: ConfigView,
    pub trusted_roots: usize,
    pub client: Option<Seq<char>>,
    pub calendars: Seq<CalendarView>,
    pub tasks: Seq<TaskView>,
    pub active_href: Option<Seq<char>>,
    pub warning: Option<Seq<char>>,
    pub stage: ConnectStage,
    pub result: Result<(), Seq<char>>,
}

impl DeepView for Connection {
    type V = ConnectionView;

    open spec fn deep_view(&self) -> ConnectionView {
        ConnectionView {
            config: self.config@,
            trusted_roots: self.trusted_roots,
            client: self.client@,
            calendars: self.calendars.deep_view(),
            tasks: self.tasks.deep_view(),
            active_href: self.active_href.deep_view(),
            warning: self.warning.deep_view(),
            stage: self.stage,
            result: match self.result {
                Ok(_) => Ok(()),
                Err(e) => Err(e@),
            },
        }
    }
}

impl View for Connection {
    type V = ConnectionView;

    open spec fn view(&self) -> ConnectionView {
        self.deep_view()
    }
}

/// The warning of a session that works without the server.
pub open spec fn offline_warning() -> Seq<char> {
    "Offline Mode (Network unreachable)"@
}

/// The place of the first calendar whose name or locator is `wanted`, or
/// the length of the list where there is none.
pub open spec fn first_named(calendars: Seq<CalendarView>, wanted: Seq<char>) -> int
    decreases calendars.len(),
{
    if calendars.len() == 0 || calendars[0].name == wanted || calendars[0].href == wanted {
        0
    } else {
        1 + first_named(calendars.skip(1), wanted)
    }
}

/// `first_named` is the least place of a calendar with that name or
/// locator.
pub proof fn lemma_first_named(calendars: Seq<CalendarView>, wanted: Seq<char>)
    ensures
        0 <= first_named(calendars, wanted) <= calendars.len(),
        first_named(calendars, wanted) < calendars.len() ==> (calendars[first_named(
            calendars,
            wanted,
        )].name == wanted || calendars[first_named(calendars, wanted)].href == wanted),
        forall|k: int|
            0 <= k < first_named(calendars, wanted) ==> (#[trigger] calendars[k]).name != wanted
                && calendars[k].href != wanted,
    decreases calendars.len(),
{
    if calendars.len() == 0 || calendars[0].name == wanted || calendars[0].href == wanted {
    } else {
        lemma_first_named(calendars.skip(1), wanted);
        assert forall|k: int| 0 <= k < first_named(calendars, wanted) implies (
        #[trigger] calendars[k]).name != wanted && calendars[k].href != wanted by {
            if k > 0 {
                assert(calendars.skip(1)[k - 1] == calendars[k]);
            }
        }
    }
}

/// The configured calendar: the locator of the first calendar of the list
/// whose name or locator is the configured default, where there is a
/// default and such a calendar.
pub open spec fn configured(default: Option<Seq<char>>, calendars: Seq<CalendarView>) -> Option<
    Seq<char>,
> {
    match default {
        None => None,
        Some(wanted) => {
            let at = first_named(calendars, wanted);
            if at < calendars.len() {
                Some(calendars[at].href)
            } else {
                None
            }
        },
    }
}

/// Finds the configured calendar in the list.
pub fn find_configured(default: &Option<String>, calendars: &Vec<CalendarListEntry>) -> (r: Option<
    String,
>)
    ensures
        r.deep_view() == configured(default.deep_view(), calendars.deep_view()),
{
    let wanted = match default {
        None => {
            return None;
        },
        Some(wanted) => wanted,
    };
    let mut i: usize = 0;
    assert(calendars.deep_view().skip(0) =~= calendars.deep_view());
    while i < calendars.len()
        invariant
            i <= calendars.len(),
            default.deep_view() == Some(wanted@),
            first_named(calendars.deep_view(), wanted@) == i + first_named(
                calendars.deep_view().skip(i as int),
                wanted@,
            ),
        decreases calendars.len() - i,
    {
        assert(calendars.deep_view().skip(i as int)[0] == calendars[i as int]@);
        if calendars[i].name == *wanted || calendars[i].href == *wanted {
            assert(calendars.deep_view()[i as int] == calendars[i as int]@);
            assert(first_named(calendars.deep_view().skip(i as int), wanted@) == 0);
            assert(first_named(calendars.deep_view(), wanted@) == i);
            return Some(calendars[i].href.clone());
        }
        assert(calendars.deep_view().skip(i as int).skip(1) =~= calendars.deep_view().skip(i + 1));
        i += 1;
    }
    assert(first_named(calendars.deep_view(), wanted@) == calendars.len());
    None
}

/// The bring-up is over with this result.
pub open spec fn connected(st: ConnectionView, result: Result<(), Seq<char>>) -> (
    ConnectionView,
    Option<RequestView>,
) {
    (ConnectionView { stage: ConnectStage::Finished, result, ..st }, None)
}

/// With the active calendar settled: an online session with an active
/// calendar reads its tasks; any other session is up, with no tasks.
pub open spec fn after_active(st: ConnectionView) -> (ConnectionView, Option<RequestView>) {
    match (st.warning, st.active_href) {
        (None, Some(href)) => (
            ConnectionView { stage: ConnectStage::Tasks, ..st },
            Some(RequestView::SyncCalendar { calendar_href: href }),
        ),
        _ => connected(st, Ok(())),
    }
}

/// With the calendar list settled: the configured calendar is the active
/// one; where there is none and the session is online, the calendar to use
/// is discovered.
pub open spec fn after_list(st: ConnectionView) -> (ConnectionView, Option<RequestView>) {
    let active_href = configured(st.config.default_calendar, st.calendars);
    let st = ConnectionView { active_href, ..st };
    if active_href is None && st.warning is None {
        (ConnectionView { stage: ConnectStage::Discover, ..st }, Some(RequestView::Discover))
    } else {
        after_active(st)
    }
}

/// The calendars of a response, or none where it holds a failure.
pub open spec fn calendars_or_none(response: ResponseView) -> Seq<CalendarView> {
    match response.calendars() {
        Ok(calendars) => calendars,
        Err(_) => Seq::empty(),
    }
}

/// One step of the bring-up of a session.
///
/// The client is made from the settings; a failure there is the result.
/// The journal is replayed, whatever comes of it. Then the server is asked
/// for its calendars. Its list is stored, whatever comes of that, and the
/// session is online. Where the server's certificate is not accepted, the
/// bring-up fails. After any other failure the session works with the
/// calendar list last seen (none, where that cannot be read) and carries
/// the offline warning: nothing is discovered, and no tasks are read.
pub open spec fn connect_step(st: ConnectionView, response: ResponseView) -> (
    ConnectionView,
    Option<RequestView>,
) {
    match st.stage {
        ConnectStage::Start => match client_for(
            st.config.url,
            st.config.allow_insecure_certs,
            st.trusted_roots,
        ) {
            Err(e) => connected(st, Err(e)),
            Ok(client) => (
                ConnectionView { client, stage: ConnectStage::Flush, ..st },
                Some(RequestView::FlushJournal),
            ),
        },
        ConnectStage::Flush => (
            ConnectionView { stage: ConnectStage::Calendars, ..st },
            Some(RequestView::FetchCalendars),
        ),
        ConnectStage::Calendars => match response.calendars() {
            Ok(calendars) => (
                ConnectionView { calendars, warning: None, stage: ConnectStage::SaveList, ..st },
                Some(RequestView::SaveCalendars { calendars }),
            ),
            Err(e) => if is_certificate_failure(e) {
                connected(st, Err("Connection failed: "@ + e))
            } else {
                (
                    ConnectionView { stage: ConnectStage::CachedList, ..st },
                    Some(RequestView::LoadCalendars),
                )
            },
        },
        ConnectStage::SaveList => after_list(st),
        ConnectStage::CachedList => after_list(
            ConnectionView {
                calendars: calendars_or_none(response),
                warning: Some(offline_warning()),
                ..st
            },
        ),
        ConnectStage::Discover => after_active(
            ConnectionView {
                active_href: match response.text() {
                    Ok(Some(href)) => Some(href),
                    _ => None,
                },
                ..st
            },
        ),
        ConnectStage::Tasks => connected(
            ConnectionView { tasks: tasks_or_none(response), ..st },
            Ok(()),
        ),
        ConnectStage::Finished => (st, None),
    }
}

impl Connection {
    /// The bring-up of a session that has not begun. `trusted_roots` is the
    /// number of root certificates that the system offers.
    pub fn begin(config: Config, trusted_roots: usize) -> (r: Connection)
        ensures
            r@ == (ConnectionView {
                config: config@,
                trusted_roots,
                client: None,
                calendars: Seq::empty(),
                tasks: Seq::empty(),
                active_href: None,
                warning: None,
                stage: ConnectStage::Start,
                result: Ok(()),
            }),
    {
        let r = Connection {
            config,
            trusted_roots,
            client: RustyClient { base_path: None },
            calendars: Vec::new(),
            tasks: Vec::new(),
            active_href: None,
            warning: None,
            stage: ConnectStage::Start,
            result: Ok(()),
        };
        assert(r@.calendars =~= Seq::empty());
        assert(r@.tasks =~= Seq::empty());
        r
    }

    /// Whether the bring-up is over.
    pub fn is_finished(&self) -> (r: bool)
        ensures
            r == (self@.stage == ConnectStage::Finished),
    {
        match self.stage {
            ConnectStage::Finished => true,
            _ => false,
        }
    }

    /// What the bring-up gave: the client, the calendars, the tasks of the
    /// active calendar, the active calendar and the warning; or the
    /// failure.
    pub fn into_result(self) -> (r: Result<
        (RustyClient, Vec<CalendarListEntry>, Vec<Task>, Option<String>, Option<String>),
        String,
    >)
        ensures
            match r {
                Ok(session) => {
                    &&& self@.result is Ok
                    &&& session.0@ == self@.client
                    &&& session.1.deep_view() == self@.calendars
                    &&& session.2.deep_view() == self@.tasks
                    &&& session.3.deep_view() == self@.active_href
                    &&& session.4.deep_view() == self@.warning
                },
                Err(e) => self@.result == Err::<(), Seq<char>>(e@),
            },
    {
        match self.result {
            Ok(_) => Ok((self.client, self.calendars, self.tasks, self.active_href, self.warning)),
            Err(e) => Err(e),
        }
    }

    fn finish(self, result: Result<(), String>) -> (r: (Connection, Option<Request>))
        ensures
            (r.0@, r.1.deep_view()) == connected(
                self@,
                match result {
                    Ok(_) => Ok(()),
                    Err(e) => Err(e@),
                },
            ),
    {
        let mut next = self;
        next.stage = ConnectStage::Finished;
        next.result = result;
        (next, None)
    }

    fn on(self, stage: ConnectStage, request: Request) -> (r: (Connection, Option<Request>))
        ensures
            r.0@ == (ConnectionView { stage, ..self@ }),
            r.1.deep_view() == Some(request@),
    {
        let mut next = self;
        next.stage = stage;
        (next, Some(request))
    }

    fn after_active(self) -> (r: (Connection, Option<Request>))
        ensures
            (r.0@, r.1.deep_view()) == after_active(self@),
    {
        if self.warning.is_none() {
            if let Some(href) = &self.active_href {
                let request = Request::SyncCalendar { calendar_href: href.clone() };
                return self.on(ConnectStage::Tasks, request);
            }
        }
        self.finish(Ok(()))
    }

    fn after_list(self) -> (r: (Connection, Option<Request>))
        ensures
            (r.0@, r.1.deep_view()) == after_list(self@),
    {
        let mut next = self;
        next.active_href = find_configured(&next.config.default_calendar, &next.calendars);
        if next.active_href.is_none() && next.warning.is_none() {
            next.on(ConnectStage::Discover, Request::Discover)
        } else {
            next.after_active()
        }
    }
}

impl RustyClient {
    /// One step of the bring-up of a session. See [`connect_step`].
    pub fn connect_with_fallback(state: Connection, response: Response) -> (r: (
        Connection,
        Option<Request>,
    ))
        ensures
            (r.0@, r.1.deep_view()) == connect_step(state@, response@),
    {
        match state.stage {
            ConnectStage::Start => {
                let made = RustyClient::new(
                    state.config.url.as_str(),
                    state.config.username.as_str(),
                    state.config.password.as_str(),
                    state.config.allow_insecure_certs,
                    state.trusted_roots,
                );
                match made {
                    Err(e) => state.finish(Err(e)),
                    Ok(client) => {
                        let mut next = state;
                        next.client = client;
                        next.on(ConnectStage::Flush, Request::FlushJournal)
                    },
                }
            },
            ConnectStage::Flush => state.on(ConnectStage::Calendars, Request::FetchCalendars),
            ConnectStage::Calendars => match response.into_calendars() {
                Ok(calendars) => {
                    let copy = clone_calendars(&calendars);
                    let mut next = state;
                    next.calendars = calendars;
                    next.warning = None;
                    next.on(ConnectStage::SaveList, Request::SaveCalendars { calendars: copy })
                },
                Err(e) => {
                    if certificate_failed(e.as_str()) {
                        state.finish(Err("Connection failed: ".to_owned().concat(e.as_str())))
                    } else {
                        state.on(ConnectStage::CachedList, Request::LoadCalendars)
                    }
                },
            },
            ConnectStage::SaveList => state.after_list(),
            ConnectStage::CachedList => {
                let calendars = match response.into_calendars() {
                    Ok(calendars) => calendars,
                    Err(_) => Vec::new(),
                };
                assert(calendars.deep_view() =~= calendars_or_none(response@));
                let mut next = state;
                next.calendars = calendars;
                next.warning = Some("Offline Mode (Network unreachable)".to_owned());
                next.after_list()
            },
            ConnectStage::Discover => {
                let mut next = state;
                next.active_href = match response.into_text() {
                    Ok(Some(href)) => Some(href),
                    _ => None,
                };
                next.after_active()
            },
            ConnectStage::Tasks => {
                let tasks = match response.into_tasks() {
                    Ok(tasks) => tasks,
                    Err(_) => Vec::new(),
                };
                assert(tasks.deep_view() =~= tasks_or_none(response@));
                let mut next = state;
                next.tasks = tasks;
                next.finish(Ok(()))
            },
            ConnectStage::Finished => (state, None),
        }
    }
}

/// A certificate that is not accepted is fatal: the bring-up fails, asks
/// nothing more, and does not turn to the calendar list last seen.
pub proof fn lemma_certificate_failure_is_fatal(st: ConnectionView, e: Seq<char>)
    requires
        st.stage == ConnectStage::Calendars,
        is_certificate_failure(e),
    ensures
        ({
            let next = connect_step(st, ResponseView::Calendars(Err(e)));
            &&& next.1 is None
            &&& next.0.stage == ConnectStage::Finished
            &&& next.0.result == Err::<(), Seq<char>>("Connection failed: "@ + e)
        }),
{
}

/// Any other failure falls back: the session comes up with the calendar
/// list last seen and the offline warning, reads no tasks and asks nothing
/// more of the server.
pub proof fn lemma_failure_falls_back(st: ConnectionView, e: Seq<char>, cached: ResponseView)
    requires
        st.stage == ConnectStage::Calendars,
        !is_certificate_failure(e),
    ensures
        ({
            let asked = connect_step(st, ResponseView::Calendars(Err(e)));
            let up = connect_step(asked.0, cached);
            &&& asked.1 == Some(RequestView::LoadCalendars)
            &&& up.1 is None
            &&& up.0.stage == ConnectStage::Finished
            &&& up.0.result is Ok
            &&& up.0.warning == Some(offline_warning())
            &&& up.0.calendars == calendars_or_none(cached)
            &&& up.0.tasks == st.tasks
        }),
{
}

} // verus!
