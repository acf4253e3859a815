//! Finding the calendars of a server: the calendar list with its names, and
//! the calendar to use where none is configured.

use crate::client::{is_task_document, offline, task_document, RustyClient};
use crate::exchange::{Request, RequestView, ResourceEntry, ResourceView, Response, ResponseView};
use crate::model::{CalendarListEntry, CalendarView};
use vstd::prelude::*;

verus! {

/// Where a discovery stands.
#[derive(Clone, Copy, Debug, PartialEq, Eq, Structural)]
pub enum DiscoverStage {
    /// Nothing was asked yet.
    Start,
    /// The root of the server was asked for its resources.
    Root,
    /// The server was asked for the principal.
    Principal,
    /// The server was asked for the home sets.
    HomeSet,
    /// The server was asked for the calendars.
    Calendars,
    /// The discovery is over; the result stands.
    Finished,
}

/// A discovery under way.
#[derive(Debug)]
pub struct Discovery {
    pub stage: DiscoverStage,
    pub result: Result<String, String>,
}

/// What a [`Discovery`] holds.
pub ghost struct DiscoveryView {
    pub stage: DiscoverStage,
    pub result: Result<Seq<char>, Seq<char>>,
}

impl DeepView for Discovery {
    type V = DiscoveryView;

    open spec fn deep_view(&self) -> DiscoveryView {
        DiscoveryView {
            stage: self.stage,
            result: match self.result {
                Ok(href) => Ok(href@),
                Err(e) => Err(e@),
            },
        }
    }
}

impl View for Discovery {
    type V = DiscoveryView;

    open spec fn view(&self) -> DiscoveryView {
        self.deep_view()
    }
}

/// One of the listed resources is a task document.
pub open spec fn lists_task_document(resources: Seq<ResourceView>) -> bool {
    exists|i: int| 0 <= i < resources.len() && is_task_document((#[trigger] resources[i]).href)
}

/// Whether one of the listed resources is a task document.
pub fn any_task_document(resources: &Vec<ResourceEntry>) -> (r: bool)
    ensures
        r == lists_task_document(resources.deep_view()),
{
    let mut i: usize = 0;
    while i < resources.len()
        invariant
            i <= resources.len(),
            forall|k: int| 0 <= k < i ==> !is_task_document(resources[k]@.href),
        decreases resources.len() - i,
    {
        if task_document(resources[i].href.as_str()) {
            assert(is_task_document(resources.deep_view()[i as int].href));
            return true;
        }
        i += 1;
    }
    assert forall|k: int| 0 <= k < resources.deep_view().len() implies !is_task_document(
        (#[trigger] resources.deep_view()[k]).href,
    ) by {
        assert(resources.deep_view()[k] == resources[k]@);
    }
    false
}

/// The discovery is over with this result.
pub open spec fn discovered(result: Result<Seq<char>, Seq<char>>) -> (
    DiscoveryView,
    Option<RequestView>,
) {
    (DiscoveryView { stage: DiscoverStage::Finished, result }, None)
}

/// One step of a discovery.
///
/// An offline client discovers nothing. Otherwise the root of the server is
/// the calendar where it lists a task document. Else the first calendar of
/// the first home set of the current user is; and where the way there
/// fails at any point, the root is after all.
pub open spec fn discover_step(
    client: Option<Seq<char>>,
    st: DiscoveryView,
    response: ResponseView,
) -> (DiscoveryView, Option<RequestView>) {
    match client {
        None => if st.stage == DiscoverStage::Finished {
            (st, None)
        } else {
            discovered(Err(offline()))
        },
        Some(base) => match st.stage {
            DiscoverStage::Start => (
                DiscoveryView { stage: DiscoverStage::Root, ..st },
                Some(RequestView::ListResources { calendar_href: base }),
            ),
            DiscoverStage::Root => match response.resources() {
                Ok(resources) => if lists_task_document(resources) {
                    discovered(Ok(base))
                } else {
                    (
                        DiscoveryView { stage: DiscoverStage::Principal, ..st },
                        Some(RequestView::FindPrincipal),
                    )
                },
                Err(_) => (
                    DiscoveryView { stage: DiscoverStage::Principal, ..st },
                    Some(RequestView::FindPrincipal),
                ),
            },
            DiscoverStage::Principal => match response.text() {
                Ok(Some(principal)) => (
                    DiscoveryView { stage: DiscoverStage::HomeSet, ..st },
                    Some(RequestView::FindHomeSet { principal }),
                ),
                _ => discovered(Ok(base)),
            },
            DiscoverStage::HomeSet => match response.texts() {
                Ok(homes) => if homes.len() > 0 {
                    (
                        DiscoveryView { stage: DiscoverStage::Calendars, ..st },
                        Some(RequestView::FindCalendars { home: homes[0] }),
                    )
                } else {
                    discovered(Ok(base))
                },
                Err(_) => discovered(Ok(base)),
            },
            DiscoverStage::Calendars => match response.texts() {
                Ok(calendars) => if calendars.len() > 0 {
                    discovered(Ok(calendars[0]))
                } else {
                    discovered(Ok(base))
                },
                Err(_) => discovered(Ok(base)),
            },
            DiscoverStage::Finished => (st, None),
        },
    }
}

impl Discovery {
    /// A discovery that has not begun.
    pub fn begin() -> (r: Discovery)
        ensures
            r@ == (DiscoveryView { stage: DiscoverStage::Start, result: Ok(Seq::empty()) }),
    {
        Discovery { stage: DiscoverStage::Start, result: Ok(String::new()) }
    }

    /// Whether the discovery is over.
    pub fn is_finished(&self) -> (r: bool)
        ensures
            r == (self@.stage == DiscoverStage::Finished),
    {
        match self.stage {
            DiscoverStage::Finished => true,
            _ => false,
        }
    }

    fn on(self, stage: DiscoverStage, request: Request) -> (r: (Discovery, Option<Request>))
        ensures
            r.0@ == (DiscoveryView { stage, ..self@ }),
            r.1.deep_view() == Some(request@),
    {
        (Discovery { stage, result: self.result }, Some(request))
    }
}

fn found(result: Result<String, String>) -> (r: (Discovery, Option<Request>))
    ensures
        (r.0@, r.1.deep_view()) == discovered(
            match result {
                Ok(href) => Ok(href@),
                Err(e) => Err(e@),
            },
        ),
{
    (Discovery { stage: DiscoverStage::Finished, result }, None)
}

/// Where the listing of the calendars stands.
#[derive(Clone, Copy, Debug, PartialEq, Eq, Structural)]
pub enum ListStage {
    /// Nothing was asked yet.
    Start,
    /// The server was asked for the principal.
    Principal,
    /// The server was asked for the home sets.
    HomeSet,
    /// The server was asked for the calendars.
    Collections,
    /// The server was asked for the name of the next calendar.
    Names,
    /// The listing is over; the result stands.
    Finished,
}

/// The listing of the calendars under way: the calendars found, those
/// named so far, and the result once the listing is over.
#[derive(Debug)]
pub struct Listing {
    pub stage: ListStage,
    pub hrefs: Vec<String>,
    pub calendars: Vec<CalendarListEntry>,
    pub result: Result<(), String>,
}

/// What a [`Listing`] holds.
pub ghost struct ListingView {
    pub stage: ListStage,
    pub hrefs: Seq<Seq<char>>,
    pub calendars: Seq<CalendarView>,
    pub result: Result<(), Seq<char>>,
}

impl DeepView for Listing {
    type V = ListingView;

    open spec fn deep_view(&self) -> ListingView {
        ListingView {
            stage: self.stage,
            hrefs: self.hrefs.deep_view(),
            calendars: self.calendars.deep_view(),
            result: match self.result {
                Ok(_) => Ok(()),
                Err(e) => Err(e@),
            },
        }
    }
}

impl View for Listing {
    type V = ListingView;

    open spec fn view(&self) -> ListingView {
        self.deep_view()
    }
}

/// The listing is over with this result.
pub open spec fn listed(st: ListingView, result: Result<(), Seq<char>>) -> (
    ListingView,
    Option<RequestView>,
) {
    (ListingView { stage: ListStage::Finished, result, ..st }, None)
}

/// Turning to the next calendar without a name: its name is asked for, or
/// the listing is over where every calendar has one.
pub open spec fn name_next(st: ListingView) -> (ListingView, Option<RequestView>) {
    if st.calendars.len() < st.hrefs.len() {
        (
            ListingView { stage: ListStage::Names, ..st },
            Some(RequestView::DisplayName { href: st.hrefs[st.calendars.len() as int] }),
        )
    } else {
        listed(st, Ok(()))
    }
}

/// The entry of a calendar: under the name that the server gives, or under
/// its locator where the server gives none; without a colour.
pub open spec fn named(href: Seq<char>, response: ResponseView) -> CalendarView {
    CalendarView {
        name: match response.text() {
            Ok(Some(name)) => name,
            _ => href,
        },
        href,
        color: None,
    }
}

/// One step of the listing of the calendars.
///
/// An offline client lists no calendars, and that is a success. Otherwise
/// the calendars of the first home set of the current user are listed,
/// each under its display name. A failure on the way to the calendars is
/// the result, as is a server without a principal or a home set; a name
/// that cannot be had is none.
pub open spec fn list_step(client: Option<Seq<char>>, st: ListingView, response: ResponseView) -> (
    ListingView,
    Option<RequestView>,
) {
    match st.stage {
        ListStage::Start => if client is None {
            listed(st, Ok(()))
        } else {
            (ListingView { stage: ListStage::Principal, ..st }, Some(RequestView::FindPrincipal))
        },
        ListStage::Principal => match response.text() {
            Err(e) => listed(st, Err(e)),
            Ok(None) => listed(st, Err("No principal"@)),
            Ok(Some(principal)) => (
                ListingView { stage: ListStage::HomeSet, ..st },
                Some(RequestView::FindHomeSet { principal }),
            ),
        },
        ListStage::HomeSet => match response.texts() {
            Err(e) => listed(st, Err(e)),
            Ok(homes) => if homes.len() == 0 {
                listed(st, Err("No home set"@))
            } else {
                (
                    ListingView { stage: ListStage::Collections, ..st },
                    Some(RequestView::FindCalendars { home: homes[0] }),
                )
            },
        },
        ListStage::Collections => match response.texts() {
            Err(e) => listed(st, Err(e)),
            Ok(hrefs) => name_next(ListingView { hrefs, calendars: Seq::empty(), ..st }),
        },
        ListStage::Names => if st.calendars.len() < st.hrefs.len() {
            name_next(
                ListingView {
                    calendars: st.calendars.push(
                        named(st.hrefs[st.calendars.len() as int], response),
                    ),
                    ..st
                },
            )
        } else {
            listed(st, Ok(()))
        },
        ListStage::Finished => (st, None),
    }
}

impl Listing {
    /// A listing that has not begun.
    pub fn begin() -> (r: Listing)
        ensures
            r@ == (ListingView {
                stage: ListStage::Start,
                hrefs: Seq::empty(),
                calendars: Seq::empty(),
                result: Ok(()),
            }),
    {
        let r = Listing {
            stage: ListStage::Start,
            hrefs: Vec::new(),
            calendars: Vec::new(),
            result: Ok(()),
        };
        assert(r@.hrefs =~= Seq::empty());
        assert(r@.calendars =~= Seq::empty());
        r
    }

    /// Whether the listing is over.
    pub fn is_finished(&self) -> (r: bool)
        ensures
            r == (self@.stage == ListStage::Finished),
    {
        match self.stage {
            ListStage::Finished => true,
            _ => false,
        }
    }

    /// What the listing gave: the calendars, or the failure.
    pub fn into_result(self) -> (r: Result<Vec<CalendarListEntry>, String>)
        ensures
            match r {
                Ok(calendars) => self@.result is Ok && calendars.deep_view() == self@.calendars,
                Err(e) => self@.result == Err::<(), Seq<char>>(e@),
            },
    {
        match self.result {
            Ok(_) => Ok(self.calendars),
            Err(e) => Err(e),
        }
    }

    fn finish(self, result: Result<(), String>) -> (r: (Listing, Option<Request>))
        ensures
            (r.0@, r.1.deep_view()) == listed(
                self@,
                match result {
                    Ok(_) => Ok(()),
                    Err(e) => Err(e@),
                },
            ),
    {
        (
            Listing {
                stage: ListStage::Finished,
                hrefs: self.hrefs,
                calendars: self.calendars,
                result,
            },
            None,
        )
    }

    fn on(self, stage: ListStage, request: Request) -> (r: (Listing, Option<Request>))
        ensures
            r.0@ == (ListingView { stage, ..self@ }),
            r.1.deep_view() == Some(request@),
    {
        (
            Listing { stage, hrefs: self.hrefs, calendars: self.calendars, result: self.result },
            Some(request),
        )
    }

    fn name_next(self) -> (r: (Listing, Option<Request>))
        ensures
            (r.0@, r.1.deep_view()) == name_next(self@),
    {
        if self.calendars.len() < self.hrefs.len() {
            let at = self.calendars.len();
            assert(self.hrefs.deep_view()[at as int] == self.hrefs[at as int]@);
            let request = Request::DisplayName { href: self.hrefs[at].clone() };
            self.on(ListStage::Names, request)
        } else {
            self.finish(Ok(()))
        }
    }
}

impl RustyClient {
    /// One step of the discovery of the calendar to use. See
    /// [`discover_step`].
    pub fn discover_calendar(&self, state: Discovery, response: Response) -> (r: (
        Discovery,
        Option<Request>,
    ))
        ensures
            (r.0@, r.1.deep_view()) == discover_step(self@, state@, response@),
    {
        let base = match &self.base_path {
            None => {
                return match state.stage {
                    DiscoverStage::Finished => (state, None),
                    _ => found(Err("Offline".to_owned())),
                };
            },
            Some(base) => base,
        };
        match state.stage {
            DiscoverStage::Start => state.on(
                DiscoverStage::Root,
                Request::ListResources { calendar_href: base.clone() },
            ),
            DiscoverStage::Root => {
                let at_root = match response.into_resources() {
                    Ok(resources) => any_task_document(&resources),
                    Err(_) => false,
                };
                if at_root {
                    found(Ok(base.clone()))
                } else {
                    state.on(DiscoverStage::Principal, Request::FindPrincipal)
                }
            },
            DiscoverStage::Principal => match response.into_text() {
                Ok(Some(principal)) => state.on(
                    DiscoverStage::HomeSet,
                    Request::FindHomeSet { principal },
                ),
                _ => found(Ok(base.clone())),
            },
            DiscoverStage::HomeSet => match response.into_texts() {
                Ok(homes) => {
                    if homes.len() > 0 {
                        assert(homes.deep_view()[0] == homes[0]@);
                        state.on(
                            DiscoverStage::Calendars,
                            Request::FindCalendars { home: homes[0].clone() },
                        )
                    } else {
                        found(Ok(base.clone()))
                    }
                },
                Err(_) => found(Ok(base.clone())),
            },
            DiscoverStage::Calendars => match response.into_texts() {
                Ok(calendars) => {
                    if calendars.len() > 0 {
                        assert(calendars.deep_view()[0] == calendars[0]@);
                        found(Ok(calendars[0].clone()))
                    } else {
                        found(Ok(base.clone()))
                    }
                },
                Err(_) => found(Ok(base.clone())),
            },
            DiscoverStage::Finished => (state, None),
        }
    }

    /// One step of the listing of the calendars. See [`list_step`].
    pub fn get_calendars(&self, state: Listing, response: Response) -> (r: (
        Listing,
        Option<Request>,
    ))
        ensures
            (r.0@, r.1.deep_view()) == list_step(self@, state@, response@),
    {
        match state.stage {
            ListStage::Start => {
                if !self.is_online() {
                    state.finish(Ok(()))
                } else {
                    state.on(ListStage::Principal, Request::FindPrincipal)
                }
            },
            ListStage::Principal => match response.into_text() {
                Err(e) => state.finish(Err(e)),
                Ok(None) => state.finish(Err("No principal".to_owned())),
                Ok(Some(principal)) => state.on(
                    ListStage::HomeSet,
                    Request::FindHomeSet { principal },
                ),
            },
            ListStage::HomeSet => match response.into_texts() {
                Err(e) => state.finish(Err(e)),
                Ok(homes) => {
                    if homes.len() == 0 {
                        state.finish(Err("No home set".to_owned()))
                    } else {
                        assert(homes.deep_view()[0] == homes[0]@);
                        state.on(
                            ListStage::Collections,
                            Request::FindCalendars { home: homes[0].clone() },
                        )
                    }
                },
            },
            ListStage::Collections => match response.into_texts() {
                Err(e) => state.finish(Err(e)),
                Ok(hrefs) => {
                    let next = Listing {
                        stage: state.stage,
                        hrefs,
                        calendars: Vec::new(),
                        result: state.result,
                    };
                    assert(next@.calendars =~= Seq::empty());
                    next.name_next()
                },
            },
            ListStage::Names => {
                if state.calendars.len() < state.hrefs.len() {
                    let at = state.calendars.len();
                    assert(state.hrefs.deep_view()[at as int] == state.hrefs[at as int]@);
                    let href = state.hrefs[at].clone();
                    let name = match response.into_text() {
                        Ok(Some(name)) => name,
                        _ => href.clone(),
                    };
                    let ghost before = state.calendars.deep_view();
                    let mut calendars = state.calendars;
                    let entry = CalendarListEntry { name, href, color: None };
                    calendars.push(entry);
                    assert(calendars.deep_view() =~= before.push(entry@));
                    let next = Listing {
                        stage: state.stage,
                        hrefs: state.hrefs,
                        calendars,
                        result: state.result,
                    };
                    next.name_next()
                } else {
                    state.finish(Ok(()))
                }
            },
            ListStage::Finished => (state, None),
        }
    }
}

/// The discovery of an online client always ends with a calendar: whatever
/// the server answers, the result is no failure.
pub proof fn lemma_discovery_finds(base: Seq<char>, st: DiscoveryView, response: ResponseView)
    requires
        st.stage != DiscoverStage::Finished,
    ensures
        discover_step(Some(base), st, response).0.stage == DiscoverStage::Finished
            ==> discover_step(Some(base), st, response).0.result is Ok,
{
}

/// Every listed calendar has a name: a calendar whose name the server does
/// not give is listed under its locator.
pub proof fn lemma_unnamed_calendar(href: Seq<char>, response: ResponseView)
    requires
        !(response.text() matches Ok(Some(_))),
    ensures
        named(href, response).name == href,
        named(href, response).href == href,
{
}

} // verus!
