//! Moving tasks from one calendar to another.

use crate::client::RustyClient;
use crate::exchange::{Request, RequestView, Response, ResponseView};
use crate::model::{Task, TaskView};
use vstd::prelude::*;

verus! {

/// Where a move stands.
#[derive(Clone, Copy, Debug, PartialEq, Eq, Structural)]
pub enum MoveStage {
    /// Nothing was asked yet.
    Start,
    /// The copy is being created in the other calendar.
    Creating,
    /// The task is being deleted from its calendar.
    Deleting,
    /// The move is over; the result stands.
    Finished,
}

/// A move under way: the task, the calendar it moves to, the copy there,
/// and the result once the move is over.
#[derive(Debug)]
pub struct Move {
    pub task: Task,
    pub target: String,
    pub moved: Task,
    pub stage: MoveStage,
    pub result: Result<(), String>,
}

/// What a [`Move`] holds.
pub ghost struct MoveView {
    pub task: TaskView,
    pub target: Seq<char>,
    pub moved: TaskView,
    pub stage: MoveStage,
    pub result: Result<(), Seq<char>>,
}

impl DeepView for Move {
    type V = MoveView;

    open spec fn deep_view(&self) -> MoveView {
        MoveView {
            task: self.task@,
            target: self.target@,
            moved: self.moved@,
            stage: self.stage,
            result: match self.result {
                Ok(_) => Ok(()),
                Err(e) => Err(e@),
            },
        }
    }
}

impl View for Move {
    type V = MoveView;

    open spec fn view(&self) -> MoveView {
        self.deep_view()
    }
}

/// The copy of a task for another calendar: the same task under the same
/// identifier, without a remote resource or version.
pub open spec fn copy_for(task: TaskView, target: Seq<char>) -> TaskView {
    TaskView { calendar_href: target, href: Seq::empty(), etag: Seq::empty(), ..task }
}

/// One step of a move.
///
/// The copy is created in the other calendar; a failure there is the
/// result, and the task stays where it is. Then the task is deleted from
/// its calendar. Whatever comes of the deletion, the move has succeeded:
/// where the deletion fails the task exists in both calendars.
pub open spec fn move_step(st: MoveView, response: ResponseView) -> (
    MoveView,
    Option<RequestView>,
) {
    match st.stage {
        MoveStage::Start => {
            let moved = copy_for(st.task, st.target);
            (
                MoveView { moved, stage: MoveStage::Creating, ..st },
                Some(RequestView::CreateTask { task: moved }),
            )
        },
        MoveStage::Creating => match response.task() {
            Err(e) => (MoveView { stage: MoveStage::Finished, result: Err(e), ..st }, None),
            Ok(created) => (
                MoveView { moved: created, stage: MoveStage::Deleting, ..st },
                Some(RequestView::DeleteTask { task: st.task }),
            ),
        },
        MoveStage::Deleting => (
            MoveView { stage: MoveStage::Finished, result: Ok(()), ..st },
            None,
        ),
        MoveStage::Finished => (st, None),
    }
}

impl Move {
    /// A move of `task` to the calendar `target` that has not begun.
    pub fn begin(task: Task, target: &str) -> (r: Move)
        ensures
            r@ == (MoveView {
                task: task@,
                target: target@,
                moved: task@,
                stage: MoveStage::Start,
                result: Ok(()),
            }),
    {
        let moved = task.clone();
        Move { task, target: target.to_owned(), moved, stage: MoveStage::Start, result: Ok(()) }
    }

    /// Whether the move is over.
    pub fn is_finished(&self) -> (r: bool)
        ensures
            r == (self@.stage == MoveStage::Finished),
    {
        match self.stage {
            MoveStage::Finished => true,
            _ => false,
        }
    }

    /// What the move gave: the copy in the other calendar, or the failure.
    pub fn into_result(self) -> (r: Result<Task, String>)
        ensures
            match r {
                Ok(moved) => self@.result is Ok && moved@ == self@.moved,
                Err(e) => self@.result == Err::<(), Seq<char>>(e@),
            },
    {
        match self.result {
            Ok(_) => Ok(self.moved),
            Err(e) => Err(e),
        }
    }
}

/// Where a migration stands: the tasks to move, the calendar they move to,
/// how many were sent off, how many arrived, and whether it has begun and
/// ended.
#[derive(Debug)]
pub struct Migration {
    pub tasks: Vec<Task>,
    pub target: String,
    pub sent: usize,
    pub count: usize,
    pub started: bool,
    pub finished: bool,
}

/// What a [`Migration`] holds.
pub ghost struct MigrationView {
    pub tasks: Seq<TaskView>,
    pub target: Seq<char>,
    pub sent: usize,
    pub count: usize,
    pub started: bool,
    pub finished: bool,
}

impl DeepView for Migration {
    type V = MigrationView;

    open spec fn deep_view(&self) -> MigrationView {
        MigrationView {
            tasks: self.tasks.deep_view(),
            target: self.target@,
            sent: self.sent,
            count: self.count,
            started: self.started,
            finished: self.finished,
        }
    }
}

impl View for Migration {
    type V = MigrationView;

    open spec fn view(&self) -> MigrationView {
        self.deep_view()
    }
}

/// The number of moves that have succeeded once the world has answered: one
/// more where the answer is a moved task, and never more than there are
/// tasks.
pub open spec fn counted(st: MigrationView, response: ResponseView) -> usize {
    if st.started && response.task() is Ok && st.count < st.tasks.len() {
        (st.count + 1) as usize
    } else {
        st.count
    }
}

/// One step of a migration.
///
/// The tasks are moved one after the other, in order. A move that fails
/// is not counted and stops nothing. When the answer to the last move is
/// in, the migration is over.
pub open spec fn migrate_step(st: MigrationView, response: ResponseView) -> (
    MigrationView,
    Option<RequestView>,
) {
    if st.finished {
        (st, None)
    } else {
        let count = counted(st, response);
        if st.sent < st.tasks.len() {
            (
                MigrationView { sent: (st.sent + 1) as usize, count, started: true, ..st },
                Some(
                    RequestView::MoveTask { task: st.tasks[st.sent as int], target: st.target },
                ),
            )
        } else {
            (MigrationView { count, started: true, finished: true, ..st }, None)
        }
    }
}

impl Migration {
    /// A migration of `tasks` to the calendar `target` that has not begun.
    pub fn begin(tasks: Vec<Task>, target: &str) -> (r: Migration)
        ensures
            r@ == (MigrationView {
                tasks: tasks.deep_view(),
                target: target@,
                sent: 0,
                count: 0,
                started: false,
                finished: false,
            }),
    {
        Migration {
            tasks,
            target: target.to_owned(),
            sent: 0,
            count: 0,
            started: false,
            finished: false,
        }
    }

    /// Whether the migration is over.
    pub fn is_finished(&self) -> (r: bool)
        ensures
            r == self@.finished,
    {
        self.finished
    }

    /// The number of tasks that were moved.
    pub fn moved_count(&self) -> (r: usize)
        ensures
            r == self@.count,
    {
        self.count
    }
}

impl RustyClient {
    /// One step of a move. See [`move_step`].
    pub fn move_task(&self, state: Move, response: Response) -> (r: (Move, Option<Request>))
        ensures
            (r.0@, r.1.deep_view()) == move_step(state@, response@),
    {
        match state.stage {
            MoveStage::Start => {
                let mut moved = state.task.clone();
                moved.calendar_href = state.target.clone();
                moved.href = String::new();
                moved.etag = String::new();
                let request = Request::CreateTask { task: moved.clone() };
                (
                    Move {
                        task: state.task,
                        target: state.target,
                        moved,
                        stage: MoveStage::Creating,
                        result: state.result,
                    },
                    Some(request),
                )
            },
            MoveStage::Creating => match response.into_task() {
                Err(e) => (
                    Move {
                        task: state.task,
                        target: state.target,
                        moved: state.moved,
                        stage: MoveStage::Finished,
                        result: Err(e),
                    },
                    None,
                ),
                Ok(created) => {
                    let request = Request::DeleteTask { task: state.task.clone() };
                    (
                        Move {
                            task: state.task,
                            target: state.target,
                            moved: created,
                            stage: MoveStage::Deleting,
                            result: state.result,
                        },
                        Some(request),
                    )
                },
            },
            MoveStage::Deleting => (
                Move {
                    task: state.task,
                    target: state.target,
                    moved: state.moved,
                    stage: MoveStage::Finished,
                    result: Ok(()),
                },
                None,
            ),
            MoveStage::Finished => (state, None),
        }
    }

    /// One step of a migration. See [`migrate_step`].
    pub fn migrate_tasks(&self, state: Migration, response: Response) -> (r: (
        Migration,
        Option<Request>,
    ))
        ensures
            (r.0@, r.1.deep_view()) == migrate_step(state@, response@),
    {
        if state.finished {
            return (state, None);
        }
        let arrived = state.started && response.into_task().is_ok();
        let count = if arrived && state.count < state.tasks.len() {
            state.count + 1
        } else {
            state.count
        };
        if state.sent < state.tasks.len() {
            assert(state.tasks.deep_view()[state.sent as int] == state.tasks[state.sent as int]@);
            let request = Request::MoveTask {
                task: state.tasks[state.sent].clone(),
                target: state.target.clone(),
            };
            (
                Migration {
                    tasks: state.tasks,
                    target: state.target,
                    sent: state.sent + 1,
                    count,
                    started: true,
                    finished: false,
                },
                Some(request),
            )
        } else {
            (
                Migration {
                    tasks: state.tasks,
                    target: state.target,
                    sent: state.sent,
                    count,
                    started: true,
                    finished: true,
                },
                None,
            )
        }
    }
}

/// A task keeps its identifier when it moves, and its copy starts without a
/// remote resource or version.
pub proof fn lemma_move_keeps_uid(st: MoveView, response: ResponseView)
    requires
        st.stage == MoveStage::Start,
    ensures
        move_step(st, response).0.moved.uid == st.task.uid,
        move_step(st, response).0.moved.calendar_href == st.target,
        move_step(st, response).0.moved.href.len() == 0,
        move_step(st, response).0.moved.etag.len() == 0,
{
}

/// A failed deletion does not fail the move: once the copy exists, the move
/// ends in success whatever the deletion gives.
pub proof fn lemma_move_survives_delete(
    st: MoveView,
    created: TaskView,
    deletion: ResponseView,
)
    requires
        st.stage == MoveStage::Creating,
    ensures
        ({
            let copied = move_step(st, ResponseView::Task(Ok(created)));
            let over = move_step(copied.0, deletion);
            &&& copied.1 == Some(RequestView::DeleteTask { task: st.task })
            &&& over.1 is None
            &&& over.0.stage == MoveStage::Finished
            &&& over.0.result is Ok
            &&& over.0.moved == created
        }),
{
}

/// The migration is in order: it has sent off no more tasks than there
/// are, and counted no more than it has had answers for.
pub open spec fn migration_in_order(st: MigrationView) -> bool {
    &&& st.sent <= st.tasks.len() <= usize::MAX
    &&& st.started ==> (st.count < st.sent || (st.finished && st.count <= st.sent))
    &&& !st.started ==> (st.count == 0 && st.sent == 0 && !st.finished)
}

/// A migration stays in order, one failure stops nothing, and every
/// success counts: in a migration that is in order, each step sends off the
/// next task whatever the last answer was, and the count grows by one
/// exactly when the answer is a moved task.
pub proof fn lemma_migration_counts(st: MigrationView, response: ResponseView)
    requires
        migration_in_order(st),
        !st.finished,
    ensures
        migration_in_order(migrate_step(st, response).0),
        st.sent < st.tasks.len() ==> migrate_step(st, response).1 == Some(
            RequestView::MoveTask { task: st.tasks[st.sent as int], target: st.target },
        ),
        st.sent == st.tasks.len() ==> migrate_step(st, response).0.finished,
        migrate_step(st, response).0.count == st.count + if st.started && response.task() is Ok {
            1int
        } else {
            0int
        },
{
}

/// The copy of a task for another calendar is well routed, whichever
/// calendar that is: it has neither a locator nor a version.
pub proof fn lemma_copy_is_well_routed(task: TaskView, target: Seq<char>)
    ensures
        copy_for(task, target).well_routed(),
{
}

} // verus!
