//! Reading the tasks of one calendar: the local store for the local
//! calendar, delta sync for a remote one.

use crate::adapter::is_task_of;
use crate::client::RustyClient;
use crate::delta::{fetch_of, kept_of, plan_delta};
use crate::exchange::{
    FetchedItem, ItemView, Request, RequestView, ResourceEntry, ResourceView, Response,
    ResponseView,
};
use crate::ical::parsed_todo;
use crate::model::{is_local_href, local_href, Task, TaskView};
use vstd::prelude::*;
use vstd::string::StringExecFns;

verus! {

/// Where the reading of a calendar stands.
#[derive(Clone, Copy, Debug, PartialEq, Eq, Structural)]
pub enum SyncStage {
    /// Nothing was asked yet.
    Start,
    /// The local store was asked for its tasks.
    Local,
    /// The journal is being replayed.
    Flush,
    /// The server was asked for the listing.
    Listing,
    /// The cache was asked for the tasks last seen.
    Cache,
    /// The server was asked for the new and changed resources.
    Bodies,
    /// The reading is over; the result stands.
    Finished,
}

/// The reading of a calendar under way.
#[derive(Debug)]
pub struct Sync {
    pub calendar_href: String,
    pub stage: SyncStage,
    pub resources: Vec<ResourceEntry>,
    pub kept: Vec<Task>,
    pub result: Result<Vec<Task>, String>,
}

/// What a [`Sync`] holds.
pub ghost struct SyncView {
    pub calendar_href: Seq<char>,
    pub stage: SyncStage,
    pub resources: Seq<ResourceView>,
    pub kept: Seq<TaskView>,
    pub result: Result<Seq<TaskView>, Seq<char>>,
}

impl DeepView for Sync {
    type V = SyncView;

    open spec fn deep_view(&self) -> SyncView {
        SyncView {
            calendar_href: self.calendar_href@,
            stage: self.stage,
            resources: self.resources.deep_view(),
            kept: self.kept.deep_view(),
            result: match self.result {
                Ok(tasks) => Ok(tasks.deep_view()),
                Err(e) => Err(e@),
            },
        }
    }
}

impl View for Sync {
    type V = SyncView;

    open spec fn view(&self) -> SyncView {
        self.deep_view()
    }
}

/// The reading is over with this result.
pub open spec fn sync_finished(st: SyncView, result: Result<Seq<TaskView>, Seq<char>>) -> (
    SyncView,
    Option<RequestView>,
) {
    (SyncView { stage: SyncStage::Finished, result, ..st }, None)
}

/// The tasks of a response, or none where it holds a failure.
pub open spec fn tasks_or_none(response: ResponseView) -> Seq<TaskView> {
    match response.tasks() {
        Ok(tasks) => tasks,
        Err(_) => Seq::empty(),
    }
}

/// One step of the reading of a calendar. `read` holds the tasks of the
/// fetched items; it matters in the last step of a delta sync alone.
///
/// The local calendar is read from the local store, and that is all. A
/// remote calendar cannot be read by an offline client. Otherwise the
/// journal is replayed first, whatever comes of it; then the server is
/// asked for the listing, then the cache for the tasks last seen (a cache
/// that fails counts as empty). Where the listing asks for no fetch the
/// reading is over with the kept tasks and nothing more is asked; else the
/// resources to fetch are asked for in one batch, and the reading is over
/// with the kept tasks followed by the tasks of the fetched items.
pub open spec fn sync_step(
    client: Option<Seq<char>>,
    st: SyncView,
    response: ResponseView,
    read: Seq<TaskView>,
) -> (SyncView, Option<RequestView>) {
    match st.stage {
        SyncStage::Start => if st.calendar_href == local_href() {
            (SyncView { stage: SyncStage::Local, ..st }, Some(RequestView::LoadLocal))
        } else if client is None {
            sync_finished(st, Err("Offline: Cannot fetch remote calendar"@))
        } else {
            (SyncView { stage: SyncStage::Flush, ..st }, Some(RequestView::FlushJournal))
        },
        SyncStage::Local => sync_finished(st, response.tasks()),
        SyncStage::Flush => (
            SyncView { stage: SyncStage::Listing, ..st },
            Some(RequestView::ListResources { calendar_href: st.calendar_href }),
        ),
        SyncStage::Listing => match response.resources() {
            Err(e) => sync_finished(st, Err("PROPFIND Error: "@ + e)),
            Ok(resources) => (
                SyncView { stage: SyncStage::Cache, resources, ..st },
                Some(RequestView::LoadCache { calendar_href: st.calendar_href }),
            ),
        },
        SyncStage::Cache => {
            let cached = tasks_or_none(response);
            let kept = kept_of(st.resources, cached, st.resources.len() as int);
            let to_fetch = fetch_of(st.resources, cached, st.resources.len() as int);
            if to_fetch.len() == 0 {
                sync_finished(SyncView { kept, ..st }, Ok(kept))
            } else {
                (
                    SyncView { stage: SyncStage::Bodies, kept, ..st },
                    Some(
                        RequestView::FetchMany { calendar_href: st.calendar_href, hrefs: to_fetch },
                    ),
                )
            }
        },
        SyncStage::Bodies => match response.items() {
            Err(e) => sync_finished(st, Err("MULTIGET Error: "@ + e)),
            Ok(_) => sync_finished(st, Ok(st.kept + read)),
        },
        SyncStage::Finished => (st, None),
    }
}

/// A fetched item gives a task: it has content, the content is not empty,
/// and it is a document with a to-do entry.
pub open spec fn is_readable(item: ItemView) -> bool {
    item.content matches Some(c) && c.data.len() > 0 && parsed_todo(c.data) matches Ok(Some(_))
}

/// `out` holds the tasks of the readable items, one each, in the items'
/// order. An item that is not readable is passed over.
pub open spec fn items_read(items: Seq<ItemView>, calendar_href: Seq<char>, out: Seq<TaskView>) -> bool
    decreases items.len(),
{
    if items.len() == 0 {
        out.len() == 0
    } else if is_readable(items.last()) {
        &&& out.len() > 0
        &&& items_read(items.drop_last(), calendar_href, out.drop_last())
        &&& is_task_of(
            out.last(),
            parsed_todo(items.last().content->0.data)->Ok_0->0,
            items.last().content->0.data,
            items.last().content->0.etag,
            items.last().href,
            calendar_href,
        )
    } else {
        items_read(items.drop_last(), calendar_href, out)
    }
}

/// `read` holds what the response gives to read: in the last step of a
/// delta sync the tasks of the fetched items, at any other time nothing.
pub open spec fn is_read(st: SyncView, response: ResponseView, read: Seq<TaskView>) -> bool {
    if st.stage == SyncStage::Bodies && response.items() is Ok {
        items_read(response.items()->Ok_0, st.calendar_href, read)
    } else {
        read == Seq::<TaskView>::empty()
    }
}

/// Adds the tasks of the fetched items to the kept tasks.
pub fn merge_fetched(kept: Vec<Task>, items: &Vec<FetchedItem>, calendar_href: &str) -> (tasks:
    Vec<Task>)
    ensures
        tasks.len() >= kept.len(),
        tasks.deep_view().take(kept.len() as int) == kept.deep_view(),
        items_read(items.deep_view(), calendar_href@, tasks.deep_view().skip(kept.len() as int)),
{
    let ghost base = kept.deep_view();
    let mut tasks = kept;
    let mut i: usize = 0;
    assert(items.deep_view().take(0) =~= Seq::<ItemView>::empty());
    assert(tasks.deep_view().take(base.len() as int) =~= base);
    while i < items.len()
        invariant
            i <= items.len(),
            tasks.len() >= base.len(),
            tasks.deep_view().take(base.len() as int) == base,
            items_read(
                items.deep_view().take(i as int),
                calendar_href@,
                tasks.deep_view().skip(base.len() as int),
            ),
        decreases items.len() - i,
    {
        let ghost prefix = items.deep_view().take(i + 1);
        let ghost before = tasks.deep_view();
        proof {
            assert(prefix.drop_last() =~= items.deep_view().take(i as int));
            assert(prefix.last() == items[i as int]@);
        }
        let item = &items[i];
        let mut added = false;
        if let Some(content) = &item.content {
            if !content.data.as_str().is_empty() {
                let read = Task::from_ics(
                    content.data.as_str(),
                    content.etag.clone(),
                    item.href.clone(),
                    calendar_href.to_owned(),
                );
                if let Ok(task) = read {
                    tasks.push(task);
                    proof {
                        let out = tasks.deep_view().skip(base.len() as int);
                        assert(tasks.deep_view() =~= before.push(task@));
                        assert(out.drop_last() =~= before.skip(base.len() as int));
                        assert(out.last() == task@);
                        assert(tasks.deep_view().take(base.len() as int) =~= before.take(
                            base.len() as int,
                        ));
                    }
                    added = true;
                }
            }
        }
        proof {
            if !added {
                assert(!is_readable(prefix.last()));
            }
        }
        i += 1;
    }
    assert(items.deep_view().take(i as int) =~= items.deep_view());
    tasks
}

impl Sync {
    /// The reading of a calendar that has not begun.
    pub fn begin(calendar_href: &str) -> (r: Sync)
        ensures
            r@ == (SyncView {
                calendar_href: calendar_href@,
                stage: SyncStage::Start,
                resources: Seq::empty(),
                kept: Seq::empty(),
                result: Ok(Seq::empty()),
            }),
    {
        let r = Sync {
            calendar_href: calendar_href.to_owned(),
            stage: SyncStage::Start,
            resources: Vec::new(),
            kept: Vec::new(),
            result: Ok(Vec::new()),
        };
        assert(r@.resources =~= Seq::empty());
        assert(r@.kept =~= Seq::empty());
        assert(r@.result->Ok_0 =~= Seq::empty());
        r
    }

    /// Whether the reading is over.
    pub fn is_finished(&self) -> (r: bool)
        ensures
            r == (self@.stage == SyncStage::Finished),
    {
        match self.stage {
            SyncStage::Finished => true,
            _ => false,
        }
    }

    fn finish(self, result: Result<Vec<Task>, String>) -> (r: (Sync, Option<Request>))
        ensures
            (r.0@, r.1.deep_view()) == sync_finished(
                self@,
                match result {
                    Ok(tasks) => Ok(tasks.deep_view()),
                    Err(e) => Err(e@),
                },
            ),
    {
        (
            Sync {
                calendar_href: self.calendar_href,
                stage: SyncStage::Finished,
                resources: self.resources,
                kept: self.kept,
                result,
            },
            None,
        )
    }
}

impl RustyClient {
    /// One step of the reading of a calendar: from where it stands and what
    /// the world answered to where it stands next and what it asks. See
    /// [`sync_step`].
    pub fn get_tasks(&self, state: Sync, response: Response) -> (r: (Sync, Option<Request>))
        ensures
            exists|read: Seq<TaskView>| #[trigger]
                is_read(state@, response@, read) && (r.0@, r.1.deep_view()) == sync_step(
                    self@,
                    state@,
                    response@,
                    read,
                ),
    {
        let ghost none = Seq::<TaskView>::empty();
        proof {
            if !(state@.stage == SyncStage::Bodies && response@.items() is Ok) {
                assert(is_read(state@, response@, none));
            }
        }
        match state.stage {
            SyncStage::Start => {
                if is_local_href(state.calendar_href.as_str()) {
                    (
                        Sync {
                            calendar_href: state.calendar_href,
                            stage: SyncStage::Local,
                            resources: state.resources,
                            kept: state.kept,
                            result: state.result,
                        },
                        Some(Request::LoadLocal),
                    )
                } else if !self.is_online() {
                    state.finish(Err("Offline: Cannot fetch remote calendar".to_owned()))
                } else {
                    (
                        Sync {
                            calendar_href: state.calendar_href,
                            stage: SyncStage::Flush,
                            resources: state.resources,
                            kept: state.kept,
                            result: state.result,
                        },
                        Some(Request::FlushJournal),
                    )
                }
            },
            SyncStage::Local => {
                let result = response.into_tasks();
                state.finish(result)
            },
            SyncStage::Flush => {
                let request = Request::ListResources { calendar_href: state.calendar_href.clone() };
                (
                    Sync {
                        calendar_href: state.calendar_href,
                        stage: SyncStage::Listing,
                        resources: state.resources,
                        kept: state.kept,
                        result: state.result,
                    },
                    Some(request),
                )
            },
            SyncStage::Listing => match response.into_resources() {
                Err(e) => state.finish(Err("PROPFIND Error: ".to_owned().concat(e.as_str()))),
                Ok(resources) => {
                    let request = Request::LoadCache { calendar_href: state.calendar_href.clone() };
                    (
                        Sync {
                            calendar_href: state.calendar_href,
                            stage: SyncStage::Cache,
                            resources,
                            kept: state.kept,
                            result: state.result,
                        },
                        Some(request),
                    )
                },
            },
            SyncStage::Cache => {
                let cached = match response.into_tasks() {
                    Ok(tasks) => tasks,
                    Err(_) => Vec::new(),
                };
                assert(cached.deep_view() =~= tasks_or_none(response@));
                let (kept, to_fetch) = plan_delta(&state.resources, &cached);
                if to_fetch.len() == 0 {
                    let result = crate::model::clone_tasks(&kept);
                    (
                        Sync {
                            calendar_href: state.calendar_href,
                            stage: SyncStage::Finished,
                            resources: state.resources,
                            kept,
                            result: Ok(result),
                        },
                        None,
                    )
                } else {
                    let request = Request::FetchMany {
                        calendar_href: state.calendar_href.clone(),
                        hrefs: to_fetch,
                    };
                    (
                        Sync {
                            calendar_href: state.calendar_href,
                            stage: SyncStage::Bodies,
                            resources: state.resources,
                            kept,
                            result: state.result,
                        },
                        Some(request),
                    )
                }
            },
            SyncStage::Bodies => match response.into_items() {
                Err(e) => state.finish(Err("MULTIGET Error: ".to_owned().concat(e.as_str()))),
                Ok(items) => {
                    let kept = crate::model::clone_tasks(&state.kept);
                    let tasks = merge_fetched(kept, &items, state.calendar_href.as_str());
                    proof {
                        let read = tasks.deep_view().skip(state@.kept.len() as int);
                        assert(is_read(state@, response@, read));
                        assert(state@.kept + read =~= tasks.deep_view());
                    }
                    (
                        Sync {
                            calendar_href: state.calendar_href,
                            stage: SyncStage::Finished,
                            resources: state.resources,
                            kept: state.kept,
                            result: Ok(tasks),
                        },
                        None,
                    )
                },
            },
            SyncStage::Finished => (state, None),
        }
    }
}

/// Nothing is fetched where nothing changed: when the cache answers with
/// tasks whose resources and versions are exactly those of the listing, the
/// reading is over at once. No batch is asked for, and the result holds,
/// for each row of the listing, the task last seen at its resource. Where
/// the tasks were seen at different resources, the result holds the tasks
/// last seen and no others.
pub proof fn lemma_zero_fetch_sync(
    client: Option<Seq<char>>,
    st: SyncView,
    cached: Seq<TaskView>,
)
    requires
        st.stage == SyncStage::Cache,
        crate::delta::same_versions(st.resources, cached),
    ensures
        ({
            let next = sync_step(client, st, ResponseView::Tasks(Ok(cached)), Seq::empty());
            &&& next.1 is None
            &&& next.0.stage == SyncStage::Finished
            &&& next.0.result matches Ok(tasks) && tasks.len() == st.resources.len() && (
            crate::delta::mirrors(st.resources, cached) ==> tasks.to_set() == cached.to_set())
        }),
{
    crate::delta::lemma_no_fetch(st.resources, cached);
    if crate::delta::mirrors(st.resources, cached) {
        crate::delta::lemma_zero_fetch(st.resources, cached);
    }
}

/// Deletion on the server reaches the result of a delta sync: of the tasks
/// last seen, the result holds, before the tasks of the fetched items, only
/// tasks whose resource the listing names.
pub proof fn lemma_deleted_not_in_result(
    client: Option<Seq<char>>,
    st: SyncView,
    response: ResponseView,
    t: TaskView,
)
    requires
        st.stage == SyncStage::Cache,
        forall|i: int| 0 <= i < st.resources.len() ==> (#[trigger] st.resources[i]).href != t.href,
    ensures
        !sync_step(client, st, response, Seq::empty()).0.kept.contains(t),
        sync_step(client, st, response, Seq::empty()).1 is None ==> sync_step(
            client,
            st,
            response,
            Seq::empty(),
        ).0.result == Ok::<Seq<TaskView>, Seq<char>>(
            sync_step(client, st, response, Seq::empty()).0.kept,
        ),
{
    crate::delta::lemma_deleted_not_kept(st.resources, tasks_or_none(response), t);
}

/// The local calendar is read from the local store and from nowhere else:
/// its reading asks for the tasks of the store, takes the answer as its
/// result, and asks nothing of the server, the cache or the journal.
pub proof fn lemma_local_calendar_reads_store(
    client: Option<Seq<char>>,
    st: SyncView,
    any: ResponseView,
    answer: ResponseView,
)
    requires
        st.stage == SyncStage::Start,
        st.calendar_href == local_href(),
    ensures
        ({
            let asked = sync_step(client, st, any, Seq::empty());
            let over = sync_step(client, asked.0, answer, Seq::empty());
            &&& asked.1 == Some(RequestView::LoadLocal)
            &&& over.1 is None
            &&& over.0.stage == SyncStage::Finished
            &&& over.0.result == answer.tasks()
        }),
{
}

} // verus!
