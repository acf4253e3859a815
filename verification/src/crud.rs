//! Creating, updating and deleting a task: in the local store for a local
//! task, on the server for a remote one, and in the journal where the server
//! cannot be reached.

use crate::adapter::{can_be_written, ics_document, unwritable};
use crate::client::{offline, resource_href, task_href, RustyClient};
use crate::clock::now_stamp;
use crate::exchange::{Request, RequestView, Response, ResponseView};
use crate::journal::{Action, ActionView};
use crate::model::{Task, TaskView};
use crate::store::{
    first_with_uid, lemma_first_with_uid, remove_by_uid, replace_by_uid, replaced, without_uid,
};
use vstd::prelude::*;

verus! {

/// The kind of a change to a task.
#[derive(Clone, Copy, Debug, PartialEq, Eq, Structural)]
pub enum WriteKind {
    Create,
    Update,
    Delete,
}

/// Where a change to a task stands.
#[derive(Clone, Copy, Debug, PartialEq, Eq, Structural)]
pub enum WriteStage {
    /// Nothing was asked yet.
    Start,
    /// The local store was asked for its tasks.
    LocalLoad,
    /// The local store was given its new tasks.
    LocalSave,
    /// The server was asked to make the change.
    Remote,
    /// The journal was given the change.
    Queue,
    /// The change is over; the result stands.
    Finished,
}

/// A change to a task under way.
#[derive(Debug)]
pub struct Write {
    pub kind: WriteKind,
    pub task: Task,
    pub stage: WriteStage,
    pub result: Result<(), String>,
}

/// What a [`Write`] holds.
pub ghost struct WriteView {
    pub kind: WriteKind,
    pub task: TaskView,
    pub stage: WriteStage,
    pub result: Result<(), Seq<char>>,
}

impl DeepView for Write {
    type V = WriteView;

    open spec fn deep_view(&self) -> WriteView {
        WriteView {
            kind: self.kind,
            task: self.task@,
            stage: self.stage,
            result: match self.result {
                Ok(_) => Ok(()),
                Err(e) => Err(e@),
            },
        }
    }
}

impl View for Write {
    type V = WriteView;

    open spec fn view(&self) -> WriteView {
        self.deep_view()
    }
}

impl WriteView {
    /// The change is in order: its task is well routed, and only a remote
    /// task has reached the server or the journal.
    pub open spec fn in_order(self) -> bool {
        &&& self.task.well_routed()
        &&& (self.stage == WriteStage::Remote || self.stage == WriteStage::Queue)
            ==> !self.task.is_local()
    }

    /// The same change, taken as one of the given kind.
    pub open spec fn as_kind(self, kind: WriteKind) -> WriteView {
        WriteView { kind, ..self }
    }
}

/// The change is over with this result.
pub open spec fn write_finished(st: WriteView, result: Result<(), Seq<char>>) -> (
    WriteView,
    Option<RequestView>,
) {
    (WriteView { stage: WriteStage::Finished, result, ..st }, None)
}

/// The change as the journal holds it.
pub open spec fn queued_action(kind: WriteKind, task: TaskView) -> ActionView {
    match kind {
        WriteKind::Create => ActionView::Create(task),
        WriteKind::Update => ActionView::Update(task),
        WriteKind::Delete => ActionView::Delete(task),
    }
}

/// The task as the server is asked to hold it: a task to create gets its
/// place below its calendar.
pub open spec fn placed(kind: WriteKind, task: TaskView) -> TaskView {
    match kind {
        WriteKind::Create => TaskView {
            href: resource_href(task.calendar_href, task.uid),
            ..task
        },
        _ => task,
    }
}

/// What the server is asked, with a document written at `stamp`.
pub open spec fn remote_request(kind: WriteKind, task: TaskView, stamp: Seq<char>) -> RequestView {
    match kind {
        WriteKind::Create => RequestView::Create {
            href: task.href,
            body: ics_document(task, stamp),
        },
        WriteKind::Update => RequestView::Update {
            href: task.href,
            body: ics_document(task, stamp),
            etag: task.etag,
        },
        WriteKind::Delete => RequestView::Delete { href: task.href, etag: task.etag },
    }
}

/// The tasks of the local store after the change: a new task at the end,
/// an updated task in the place of the first one known under its
/// identifier, a deleted task gone with all of its identifier.
pub open spec fn local_result(kind: WriteKind, all: Seq<TaskView>, task: TaskView) -> Seq<
    TaskView,
> {
    match kind {
        WriteKind::Create => all.push(task),
        WriteKind::Update => replaced(all, task),
        WriteKind::Delete => without_uid(all, task.uid),
    }
}

/// What the server's answer means: success ends the change, and a new
/// version that the server names becomes the task's version; a failure of
/// any kind puts the change into the journal.
pub open spec fn after_remote(st: WriteView, response: ResponseView) -> (
    WriteView,
    Option<RequestView>,
) {
    let outcome = match st.kind {
        WriteKind::Delete => match response.done() {
            Ok(_) => Ok(None),
            Err(e) => Err(e),
        },
        _ => response.text(),
    };
    match outcome {
        Ok(Some(etag)) => write_finished(
            WriteView { task: TaskView { etag, ..st.task }, ..st },
            Ok(()),
        ),
        Ok(None) => write_finished(st, Ok(())),
        Err(_) => (
            WriteView { stage: WriteStage::Queue, ..st },
            Some(RequestView::PushJournal { action: queued_action(st.kind, st.task) }),
        ),
    }
}

/// One step of a change to a task, with `stamp` as the time written into
/// documents.
///
/// A local task is changed in the local store: the store is read and
/// written back whole; an update of a task that the store does not know
/// writes nothing. A failure of the store, to read or to write, is the
/// result, and after a failure to read nothing is written. A remote task
/// cannot be changed by an offline client, and a task that cannot be
/// written as a document can be neither created nor updated. Otherwise
/// the server is asked; where it fails the change goes into the journal and
/// the result is success, unless the journal fails.
pub open spec fn write_step(
    client: Option<Seq<char>>,
    st: WriteView,
    response: ResponseView,
    stamp: Seq<char>,
) -> (WriteView, Option<RequestView>) {
    match st.stage {
        WriteStage::Start => if st.task.is_local() {
            (WriteView { stage: WriteStage::LocalLoad, ..st }, Some(RequestView::LoadLocal))
        } else if client is None {
            write_finished(st, Err(offline()))
        } else {
            let task = placed(st.kind, st.task);
            if st.kind != WriteKind::Delete && !can_be_written(task, stamp) {
                write_finished(WriteView { task, ..st }, Err(unwritable()))
            } else {
                (
                    WriteView { task, stage: WriteStage::Remote, ..st },
                    Some(remote_request(st.kind, task, stamp)),
                )
            }
        },
        WriteStage::LocalLoad => match response.tasks() {
            Err(e) => write_finished(st, Err(e)),
            Ok(all) => if st.kind == WriteKind::Update && first_with_uid(all, st.task.uid)
                >= all.len() {
                write_finished(st, Ok(()))
            } else {
                (
                    WriteView { stage: WriteStage::LocalSave, ..st },
                    Some(RequestView::SaveLocal { tasks: local_result(st.kind, all, st.task) }),
                )
            },
        },
        WriteStage::LocalSave => write_finished(st, response.done()),
        WriteStage::Remote => after_remote(st, response),
        WriteStage::Queue => write_finished(st, response.done()),
        WriteStage::Finished => (st, None),
    }
}

impl Write {
    /// A change to `task` that has not begun.
    pub fn begin(kind: WriteKind, task: Task) -> (r: Write)
        ensures
            r@ == (WriteView { kind, task: task@, stage: WriteStage::Start, result: Ok(()) }),
    {
        Write { kind, task, stage: WriteStage::Start, result: Ok(()) }
    }

    /// Whether the change is over.
    pub fn is_finished(&self) -> (r: bool)
        ensures
            r == (self@.stage == WriteStage::Finished),
    {
        match self.stage {
            WriteStage::Finished => true,
            _ => false,
        }
    }

    fn finish(self, result: Result<(), String>) -> (r: (Write, Option<Request>))
        ensures
            (r.0@, r.1.deep_view()) == write_finished(
                self@,
                match result {
                    Ok(_) => Ok(()),
                    Err(e) => Err(e@),
                },
            ),
    {
        (Write { kind: self.kind, task: self.task, stage: WriteStage::Finished, result }, None)
    }

    fn queue(self) -> (r: (Write, Option<Request>))
        ensures
            r.0@ == (WriteView { stage: WriteStage::Queue, ..self@ }),
            r.1.deep_view() == Some(
                RequestView::PushJournal { action: queued_action(self@.kind, self@.task) },
            ),
    {
        let action = match self.kind {
            WriteKind::Create => Action::Create(self.task.clone()),
            WriteKind::Update => Action::Update(self.task.clone()),
            WriteKind::Delete => Action::Delete(self.task.clone()),
        };
        (
            Write { kind: self.kind, task: self.task, stage: WriteStage::Queue, result: self.result },
            Some(Request::PushJournal { action }),
        )
    }

    /// One step of the change. See [`write_step`].
    pub fn step(self, client: &RustyClient, response: Response, stamp: &str) -> (r: (
        Write,
        Option<Request>,
    ))
        ensures
            (r.0@, r.1.deep_view()) == write_step(client@, self@, response@, stamp@),
    {
        match self.stage {
            WriteStage::Start => {
                if self.task.is_local() {
                    (
                        Write {
                            kind: self.kind,
                            task: self.task,
                            stage: WriteStage::LocalLoad,
                            result: self.result,
                        },
                        Some(Request::LoadLocal),
                    )
                } else if !client.is_online() {
                    self.finish(Err("Offline".to_owned()))
                } else {
                    let mut task = self.task;
                    if let WriteKind::Create = self.kind {
                        task.href = task_href(task.calendar_href.as_str(), task.uid.as_str());
                    }
                    let request = match self.kind {
                        WriteKind::Delete => Request::Delete {
                            href: task.href.clone(),
                            etag: task.etag.clone(),
                        },
                        _ => match task.to_ics_at(stamp) {
                            Err(e) => {
                                return (
                                    Write {
                                        kind: self.kind,
                                        task,
                                        stage: WriteStage::Finished,
                                        result: Err(e),
                                    },
                                    None,
                                );
                            },
                            Ok(body) => match self.kind {
                                WriteKind::Create => Request::Create {
                                    href: task.href.clone(),
                                    body,
                                },
                                _ => Request::Update {
                                    href: task.href.clone(),
                                    body,
                                    etag: task.etag.clone(),
                                },
                            },
                        },
                    };
                    (
                        Write {
                            kind: self.kind,
                            task,
                            stage: WriteStage::Remote,
                            result: self.result,
                        },
                        Some(request),
                    )
                }
            },
            WriteStage::LocalLoad => {
                let mut all = match response.into_tasks() {
                    Ok(tasks) => tasks,
                    Err(e) => {
                        return self.finish(Err(e));
                    },
                };
                let ghost before = all.deep_view();
                match self.kind {
                    WriteKind::Create => {
                        all.push(self.task.clone());
                        assert(all.deep_view() =~= before.push(self@.task));
                    },
                    WriteKind::Update => {
                        let found = replace_by_uid(&mut all, &self.task);
                        if !found {
                            return self.finish(Ok(()));
                        }
                    },
                    WriteKind::Delete => {
                        all = remove_by_uid(all, &self.task.uid);
                    },
                }
                (
                    Write {
                        kind: self.kind,
                        task: self.task,
                        stage: WriteStage::LocalSave,
                        result: self.result,
                    },
                    Some(Request::SaveLocal { tasks: all }),
                )
            },
            WriteStage::LocalSave => {
                let result = response.into_done();
                self.finish(result)
            },
            WriteStage::Remote => {
                let outcome: Result<Option<String>, String> = match self.kind {
                    WriteKind::Delete => match response.into_done() {
                        Ok(_) => Ok(None),
                        Err(e) => Err(e),
                    },
                    _ => response.into_text(),
                };
                match outcome {
                    Ok(Some(etag)) => {
                        let mut task = self.task;
                        task.etag = etag;
                        (
                            Write {
                                kind: self.kind,
                                task,
                                stage: WriteStage::Finished,
                                result: Ok(()),
                            },
                            None,
                        )
                    },
                    Ok(None) => self.finish(Ok(())),
                    Err(_) => self.queue(),
                }
            },
            WriteStage::Queue => {
                let result = response.into_done();
                self.finish(result)
            },
            WriteStage::Finished => (self, None),
        }
    }
}

impl RustyClient {
    /// One step of the creation of a task, with the current time written
    /// into documents. The state counts as a creation whatever kind it
    /// names. See [`write_step`].
    pub fn create_task(&self, state: Write, response: Response) -> (r: (Write, Option<Request>))
        ensures
            exists|stamp: Seq<char>|
                (r.0@, r.1.deep_view()) == #[trigger] write_step(
                    self@,
                    state@.as_kind(WriteKind::Create),
                    response@,
                    stamp,
                ),
    {
        let stamp = now_stamp();
        let state = Write {
            kind: WriteKind::Create,
            task: state.task,
            stage: state.stage,
            result: state.result,
        };
        state.step(self, response, stamp.as_str())
    }

    /// One step of the update of a task, with the current time written into
    /// documents. The state counts as an update whatever kind it names. See
    /// [`write_step`].
    pub fn update_task(&self, state: Write, response: Response) -> (r: (Write, Option<Request>))
        ensures
            exists|stamp: Seq<char>|
                (r.0@, r.1.deep_view()) == #[trigger] write_step(
                    self@,
                    state@.as_kind(WriteKind::Update),
                    response@,
                    stamp,
                ),
    {
        let stamp = now_stamp();
        let state = Write {
            kind: WriteKind::Update,
            task: state.task,
            stage: state.stage,
            result: state.result,
        };
        state.step(self, response, stamp.as_str())
    }

    /// One step of the deletion of a task. The state counts as a deletion
    /// whatever kind it names. See [`write_step`]; a deletion writes no
    /// document, so the time does not matter.
    pub fn delete_task(&self, state: Write, response: Response) -> (r: (Write, Option<Request>))
        ensures
            (r.0@, r.1.deep_view()) == write_step(
                self@,
                state@.as_kind(WriteKind::Delete),
                response@,
                Seq::empty(),
            ),
    {
        let state = Write {
            kind: WriteKind::Delete,
            task: state.task,
            stage: state.stage,
            result: state.result,
        };
        state.step(self, response, "")
    }
}

/// A local task never reaches the server: whatever the stage and the
/// answer, a change to a task of the local calendar asks nothing of the
/// server and puts nothing into the journal.
pub proof fn lemma_local_stays_local(
    client: Option<Seq<char>>,
    st: WriteView,
    response: ResponseView,
    stamp: Seq<char>,
)
    requires
        st.task.is_local(),
        st.stage == WriteStage::Start || st.stage == WriteStage::LocalLoad || st.stage
            == WriteStage::LocalSave,
    ensures
        ({
            let next = write_step(client, st, response, stamp);
            &&& next.0.task == st.task
            &&& next.0.stage != WriteStage::Remote && next.0.stage != WriteStage::Queue
            &&& next.1 matches Some(request) ==> !request.is_remote() && !(request is PushJournal)
        }),
{
}

/// A change that the server refuses is not lost and not reported: whatever
/// the failure, the change goes into the journal as it stands, and once the
/// journal has it the result is success.
pub proof fn lemma_failure_is_queued(
    client: Option<Seq<char>>,
    st: WriteView,
    failure: ResponseView,
    stored: ResponseView,
    stamp: Seq<char>,
)
    requires
        st.stage == WriteStage::Remote,
        st.kind == WriteKind::Delete ==> failure.done() is Err,
        st.kind != WriteKind::Delete ==> failure.text() is Err,
        stored.done() is Ok,
    ensures
        ({
            let queued = write_step(client, st, failure, stamp);
            let over = write_step(client, queued.0, stored, stamp);
            &&& queued.1 == Some(
                RequestView::PushJournal { action: queued_action(st.kind, st.task) },
            )
            &&& over.1 is None
            &&& over.0.stage == WriteStage::Finished
            &&& over.0.result is Ok
        }),
{
}

/// The journal grows only where the server fails: a change goes into the
/// journal in no other step than the one that takes the server's answer, and
/// then only where that answer is a failure.
pub proof fn lemma_queued_only_on_failure(
    client: Option<Seq<char>>,
    st: WriteView,
    response: ResponseView,
    stamp: Seq<char>,
)
    requires
        write_step(client, st, response, stamp).1 matches Some(request) && request is PushJournal,
    ensures
        st.stage == WriteStage::Remote,
        !st.task.is_local() || st.stage == WriteStage::Remote,
        st.kind == WriteKind::Delete ==> response.done() is Err,
        st.kind != WriteKind::Delete ==> response.text() is Err,
        write_step(client, st, response, stamp).1 == Some(
            RequestView::PushJournal { action: queued_action(st.kind, st.task) },
        ),
{
}

/// A failure of the local store reaches the caller: where the store cannot
/// be read, the change ends with that failure and nothing is written; where
/// it cannot be written, the change ends with that failure.
pub proof fn lemma_store_failure_is_reported(
    client: Option<Seq<char>>,
    st: WriteView,
    response: ResponseView,
    stamp: Seq<char>,
    e: Seq<char>,
)
    requires
        (st.stage == WriteStage::LocalLoad && response.tasks() == Err::<Seq<TaskView>, Seq<char>>(e))
            || (st.stage == WriteStage::LocalSave && response.done() == Err::<(), Seq<char>>(e)),
    ensures
        write_step(client, st, response, stamp) == write_finished(st, Err(e)),
        write_step(client, st, response, stamp).1 is None,
        write_step(client, st, response, stamp).0.result == Err::<(), Seq<char>>(e),
{
}

/// Every task of the list is well routed.
pub open spec fn all_well_routed(tasks: Seq<TaskView>) -> bool {
    forall|i: int| 0 <= i < tasks.len() ==> (#[trigger] tasks[i]).well_routed()
}

/// Taking tasks out of a well-routed list leaves a well-routed list.
pub proof fn lemma_without_uid_routed(tasks: Seq<TaskView>, uid: Seq<char>)
    requires
        all_well_routed(tasks),
    ensures
        all_well_routed(without_uid(tasks, uid)),
    decreases tasks.len(),
{
    if tasks.len() > 0 {
        assert forall|i: int| 0 <= i < tasks.drop_last().len() implies (
        #[trigger] tasks.drop_last()[i]).well_routed() by {
            assert(tasks.drop_last()[i] == tasks[i]);
        }
        lemma_without_uid_routed(tasks.drop_last(), uid);
        assert(tasks.last() == tasks[tasks.len() - 1]);
    }
}

/// Routing is kept by every step of a change: a change that is in order
/// stays in order, so a local task keeps its empty locator and version and
/// reaches neither the server nor the journal; and the tasks written to the
/// local store are well routed where the tasks read from it are.
pub proof fn lemma_write_keeps_routing(
    client: Option<Seq<char>>,
    st: WriteView,
    response: ResponseView,
    stamp: Seq<char>,
)
    requires
        st.in_order(),
    ensures
        write_step(client, st, response, stamp).0.in_order(),
        write_step(client, st, response, stamp).1 matches Some(request) ==> (request.is_remote()
            || request is PushJournal) ==> !st.task.is_local(),
        write_step(client, st, response, stamp).1 matches Some(
            RequestView::SaveLocal { tasks },
        ) ==> (response.tasks() matches Ok(all) && all_well_routed(all)) ==> all_well_routed(tasks),
{
    if st.stage == WriteStage::LocalLoad {
        if let Ok(all) = response.tasks() {
            if all_well_routed(all) {
                lemma_first_with_uid(all, st.task.uid);
                lemma_without_uid_routed(all, st.task.uid);
            }
        }
    }
}

/// A task that cannot be written as a document is not sent and not put
/// into the journal: its creation or update ends with the failure at once.
pub proof fn lemma_unwritable_is_refused(
    client: Option<Seq<char>>,
    st: WriteView,
    response: ResponseView,
    stamp: Seq<char>,
)
    requires
        st.stage == WriteStage::Start,
        !st.task.is_local(),
        client is Some,
        st.kind != WriteKind::Delete,
        !can_be_written(placed(st.kind, st.task), stamp),
    ensures
        write_step(client, st, response, stamp).1 is None,
        write_step(client, st, response, stamp).0.stage == WriteStage::Finished,
        write_step(client, st, response, stamp).0.result == Err::<(), Seq<char>>(unwritable()),
{
}

} // verus!
