//! Completing a task and taking a completed task up again. Completing a
//! recurring task brings its next occurrence into being.

use crate::adapter::{can_recur, is_respawn_of, respawned};
use crate::client::RustyClient;
use crate::exchange::{Request, RequestView, Response, ResponseView};
use crate::model::{Task, TaskStatus, TaskView};
use crate::store::{replace_by_uid, replaced};
use vstd::prelude::*;

verus! {

/// Where a toggle stands.
#[derive(Clone, Copy, Debug, PartialEq, Eq, Structural)]
pub enum ToggleStage {
    /// Nothing was asked yet.
    Start,
    /// The local store was asked for its tasks.
    LocalLoad,
    /// The local store was given its new tasks.
    LocalSave,
    /// The next occurrence is being created.
    Creating,
    /// The toggled task is being updated.
    Updating,
    /// The toggle is over; the result stands.
    Finished,
}

/// A toggle under way: the task, its next occurrence where it has one, and
/// the result once the toggle is over.
#[derive(Debug)]
pub struct Toggle {
    pub task: Task,
    pub next: Option<Task>,
    pub stage: ToggleStage,
    pub result: Result<(), String>,
}

/// What a [`Toggle`] holds.
pub ghost struct ToggleView {
    pub task: TaskView,
    pub next: Option<TaskView>,
    pub stage: ToggleStage,
    pub result: Result<(), Seq<char>>,
}

impl DeepView for Toggle {
    type V = ToggleView;

    open spec fn deep_view(&self) -> ToggleView {
        ToggleView {
            task: self.task@,
            next: self.next.deep_view(),
            stage: self.stage,
            result: match self.result {
                Ok(_) => Ok(()),
                Err(e) => Err(e@),
            },
        }
    }
}

impl View for Toggle {
    type V = ToggleView;

    open spec fn view(&self) -> ToggleView {
        self.deep_view()
    }
}

/// The status after a toggle: a completed task needs action again, any
/// other task is completed.
pub open spec fn flipped(status: TaskStatus) -> TaskStatus {
    if status == TaskStatus::Completed {
        TaskStatus::NeedsAction
    } else {
        TaskStatus::Completed
    }
}

/// The task with its status toggled.
pub open spec fn toggled(task: TaskView) -> TaskView {
    TaskView { status: flipped(task.status), ..task }
}

/// `next` can be the next occurrence that a toggle of `task` brings into
/// being: there is one only where the toggle completes the task and the
/// task can recur, and it is an occurrence of the completed task under a
/// new identifier of 36 characters.
pub open spec fn is_next_of(task: TaskView, next: Option<TaskView>) -> bool {
    let done = toggled(task);
    next matches Some(n) ==> done.status == TaskStatus::Completed && can_recur(done)
        && is_respawn_of(done, n) && n.uid.len() == 36
}

/// The toggle is over with this result.
pub open spec fn toggle_finished(st: ToggleView, result: Result<(), Seq<char>>) -> (
    ToggleView,
    Option<RequestView>,
) {
    (ToggleView { stage: ToggleStage::Finished, result, ..st }, None)
}

/// The tasks of the local store after a toggle: the task in the place of
/// the first one known under its identifier, and its next occurrence at the
/// end.
pub open spec fn local_toggle(all: Seq<TaskView>, task: TaskView, next: Option<TaskView>) -> Seq<
    TaskView,
> {
    match next {
        Some(n) => replaced(all, task).push(n),
        None => replaced(all, task),
    }
}

/// One step of a toggle. `next` is the next occurrence that the toggle
/// brings into being; it matters in the first step alone.
///
/// The first step toggles the status. A local task is then written to the
/// local store together with its next occurrence; a failure of the store,
/// to read or to write, is the result, and after a failure to read nothing
/// is written. For a remote
/// task the next occurrence is created first, then the task is updated; a
/// failure of either is the result, and the task and the occurrence stand
/// as those operations left them.
pub open spec fn toggle_step(st: ToggleView, response: ResponseView, next: Option<TaskView>) -> (
    ToggleView,
    Option<RequestView>,
) {
    match st.stage {
        ToggleStage::Start => {
            let task = toggled(st.task);
            if task.is_local() {
                (
                    ToggleView { task, next, stage: ToggleStage::LocalLoad, ..st },
                    Some(RequestView::LoadLocal),
                )
            } else {
                match next {
                    Some(n) => (
                        ToggleView { task, next, stage: ToggleStage::Creating, ..st },
                        Some(RequestView::CreateTask { task: n }),
                    ),
                    None => (
                        ToggleView { task, next, stage: ToggleStage::Updating, ..st },
                        Some(RequestView::UpdateTask { task }),
                    ),
                }
            }
        },
        ToggleStage::LocalLoad => match response.tasks() {
            Err(e) => toggle_finished(st, Err(e)),
            Ok(all) => (
                ToggleView { stage: ToggleStage::LocalSave, ..st },
                Some(RequestView::SaveLocal { tasks: local_toggle(all, st.task, st.next) }),
            ),
        },
        ToggleStage::LocalSave => toggle_finished(st, response.done()),
        ToggleStage::Creating => match response.task() {
            Err(e) => toggle_finished(st, Err(e)),
            Ok(created) => (
                ToggleView { next: Some(created), stage: ToggleStage::Updating, ..st },
                Some(RequestView::UpdateTask { task: st.task }),
            ),
        },
        ToggleStage::Updating => match response.task() {
            Err(e) => toggle_finished(st, Err(e)),
            Ok(updated) => toggle_finished(ToggleView { task: updated, ..st }, Ok(())),
        },
        ToggleStage::Finished => (st, None),
    }
}

impl Toggle {
    /// A toggle of `task` that has not begun.
    pub fn begin(task: Task) -> (r: Toggle)
        ensures
            r@ == (ToggleView {
                task: task@,
                next: None,
                stage: ToggleStage::Start,
                result: Ok(()),
            }),
    {
        Toggle { task, next: None, stage: ToggleStage::Start, result: Ok(()) }
    }

    /// Whether the toggle is over.
    pub fn is_finished(&self) -> (r: bool)
        ensures
            r == (self@.stage == ToggleStage::Finished),
    {
        match self.stage {
            ToggleStage::Finished => true,
            _ => false,
        }
    }

    /// What the toggle gave: the task as it stands and its next occurrence,
    /// or the failure.
    pub fn into_result(self) -> (r: Result<(Task, Option<Task>), String>)
        ensures
            match r {
                Ok(pair) => self@.result is Ok && pair.0@ == self@.task && pair.1.deep_view()
                    == self@.next,
                Err(e) => self@.result == Err::<(), Seq<char>>(e@),
            },
    {
        match self.result {
            Ok(_) => Ok((self.task, self.next)),
            Err(e) => Err(e),
        }
    }

    fn finish(self, result: Result<(), String>) -> (r: (Toggle, Option<Request>))
        ensures
            (r.0@, r.1.deep_view()) == toggle_finished(
                self@,
                match result {
                    Ok(_) => Ok(()),
                    Err(e) => Err(e@),
                },
            ),
    {
        (Toggle { task: self.task, next: self.next, stage: ToggleStage::Finished, result }, None)
    }

    /// One step of the toggle, with `next` as the next occurrence that it
    /// brings into being. See [`toggle_step`].
    pub fn step(self, response: Response, next: Option<Task>) -> (r: (Toggle, Option<Request>))
        ensures
            (r.0@, r.1.deep_view()) == toggle_step(self@, response@, next.deep_view()),
    {
        match self.stage {
            ToggleStage::Start => {
                let mut task = self.task;
                task.status = match task.status {
                    TaskStatus::Completed => TaskStatus::NeedsAction,
                    _ => TaskStatus::Completed,
                };
                if task.is_local() {
                    (
                        Toggle { task, next, stage: ToggleStage::LocalLoad, result: self.result },
                        Some(Request::LoadLocal),
                    )
                } else {
                    match &next {
                        Some(n) => {
                            let request = Request::CreateTask { task: n.clone() };
                            (
                                Toggle {
                                    task,
                                    next,
                                    stage: ToggleStage::Creating,
                                    result: self.result,
                                },
                                Some(request),
                            )
                        },
                        None => {
                            let request = Request::UpdateTask { task: task.clone() };
                            (
                                Toggle {
                                    task,
                                    next,
                                    stage: ToggleStage::Updating,
                                    result: self.result,
                                },
                                Some(request),
                            )
                        },
                    }
                }
            },
            ToggleStage::LocalLoad => {
                let mut all = match response.into_tasks() {
                    Ok(tasks) => tasks,
                    Err(e) => {
                        return self.finish(Err(e));
                    },
                };
                let _ = replace_by_uid(&mut all, &self.task);
                if let Some(n) = &self.next {
                    let ghost before = all.deep_view();
                    all.push(n.clone());
                    assert(all.deep_view() =~= before.push(n@));
                }
                (
                    Toggle {
                        task: self.task,
                        next: self.next,
                        stage: ToggleStage::LocalSave,
                        result: self.result,
                    },
                    Some(Request::SaveLocal { tasks: all }),
                )
            },
            ToggleStage::LocalSave => {
                let result = response.into_done();
                self.finish(result)
            },
            ToggleStage::Creating => match response.into_task() {
                Err(e) => self.finish(Err(e)),
                Ok(created) => {
                    let request = Request::UpdateTask { task: self.task.clone() };
                    (
                        Toggle {
                            task: self.task,
                            next: Some(created),
                            stage: ToggleStage::Updating,
                            result: self.result,
                        },
                        Some(request),
                    )
                },
            },
            ToggleStage::Updating => match response.into_task() {
                Err(e) => self.finish(Err(e)),
                Ok(updated) => (
                    Toggle {
                        task: updated,
                        next: self.next,
                        stage: ToggleStage::Finished,
                        result: Ok(()),
                    },
                    None,
                ),
            },
            ToggleStage::Finished => (self, None),
        }
    }
}

impl RustyClient {
    /// One step of a toggle. In the first step the next occurrence of a
    /// recurring task that the toggle completes is worked out, under a new
    /// random identifier. See [`toggle_step`].
    pub fn toggle_task(&self, state: Toggle, response: Response) -> (r: (Toggle, Option<Request>))
        ensures
            state@.stage == ToggleStage::Start ==> is_next_of(state@.task, r.0@.next) && (
                r.0@,
                r.1.deep_view(),
            ) == toggle_step(state@, response@, r.0@.next),
            state@.stage != ToggleStage::Start ==> (r.0@, r.1.deep_view()) == toggle_step(
                state@,
                response@,
                None,
            ),
    {
        let next = match state.stage {
            ToggleStage::Start => match state.task.status {
                TaskStatus::Completed => None,
                _ => {
                    let mut done = state.task.clone();
                    done.status = TaskStatus::Completed;
                    done.respawn()
                },
            },
            _ => None,
        };
        state.step(response, next)
    }
}

/// A toggle changes the status and nothing else, and a second toggle of a
/// task that was completed or needed action gives the first status back.
pub proof fn lemma_toggle_flips(task: TaskView)
    ensures
        toggled(task) == (TaskView { status: toggled(task).status, ..task }),
        toggled(task).status == TaskStatus::Completed || toggled(task).status
            == TaskStatus::NeedsAction,
        task.status == TaskStatus::Completed || task.status == TaskStatus::NeedsAction ==> toggled(
            toggled(task),
        ) == task,
{
}

/// Routing is kept by every step of a toggle: where the task, its next
/// occurrence and the task that the world answers with are well routed, so
/// are the task and the next occurrence after the step. An occurrence that
/// the toggle brings into being always is.
pub proof fn lemma_toggle_keeps_routing(
    st: ToggleView,
    response: ResponseView,
    next: Option<TaskView>,
)
    requires
        st.task.well_routed(),
        st.next matches Some(n) ==> n.well_routed(),
        next matches Some(n) ==> n.well_routed(),
        response.task() matches Ok(t) ==> t.well_routed(),
    ensures
        toggle_step(st, response, next).0.task.well_routed(),
        toggle_step(st, response, next).0.next matches Some(n) ==> n.well_routed(),
        forall|n: TaskView| is_next_of(st.task, Some(n)) ==> n.well_routed(),
{
    assert forall|n: TaskView| is_next_of(st.task, Some(n)) implies n.well_routed() by {
        let done = toggled(st.task);
        let start = choose|start: i64|
            #[trigger] crate::adapter::respawnable(done, start) && n == respawned(
                done,
                start,
                n.uid,
            );
        assert(n == respawned(done, start, n.uid));
    }
}

} // verus!
