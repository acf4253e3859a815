//! The queue of changes that wait to be applied to the remote calendar.

use crate::model::{Task, TaskView};
use vstd::prelude::*;

verus! {

/// One change that could not be applied remotely when it was made. It holds
/// the whole task as it stood then.
#[derive(Debug)]
pub enum Action {
    Create(Task),
    Update(Task),
    Delete(Task),
}

/// What an [`Action`] holds, as mathematical values.
pub ghost enum ActionView {
    Create(TaskView),
    Update(TaskView),
    Delete(TaskView),
}

impl ActionView {
    /// The task that the change is about.
    pub open spec fn task(self) -> TaskView {
        match self {
            ActionView::Create(t) => t,
            ActionView::Update(t) => t,
            ActionView::Delete(t) => t,
        }
    }
}

impl DeepView for Action {
    type V = ActionView;

    open spec fn deep_view(&self) -> ActionView {
        match self {
            Action::Create(t) => ActionView::Create(t@),
            Action::Update(t) => ActionView::Update(t@),
            Action::Delete(t) => ActionView::Delete(t@),
        }
    }
}

impl View for Action {
    type V = ActionView;

    open spec fn view(&self) -> ActionView {
        self.deep_view()
    }
}

impl Clone for Action {
    fn clone(&self) -> (r: Self)
        ensures
            r@ == self@,
    {
        match self {
            Action::Create(t) => Action::Create(t.clone()),
            Action::Update(t) => Action::Update(t.clone()),
            Action::Delete(t) => Action::Delete(t.clone()),
        }
    }
}

/// The changes that wait, oldest first.
#[derive(Debug)]
pub struct Journal {
    pub queue: Vec<Action>,
}

impl DeepView for Journal {
    type V = Seq<ActionView>;

    open spec fn deep_view(&self) -> Seq<ActionView> {
        self.queue.deep_view()
    }
}

impl View for Journal {
    type V = Seq<ActionView>;

    open spec fn view(&self) -> Seq<ActionView> {
        self.deep_view()
    }
}

impl Journal {
    /// A journal in which nothing waits.
    pub fn new() -> (r: Journal)
        ensures
            r@ == Seq::<ActionView>::empty(),
    {
        let r = Journal { queue: Vec::new() };
        assert(r@ =~= Seq::<ActionView>::empty());
        r
    }

    /// Whether nothing waits.
    pub fn is_empty(&self) -> (r: bool)
        ensures
            r == (self@.len() == 0),
    {
        self.queue.len() == 0
    }

    /// The number of changes that wait.
    pub fn len(&self) -> (r: usize)
        ensures
            r == self@.len(),
    {
        self.queue.len()
    }

    /// Puts a change behind all that wait.
    pub fn push(&mut self, action: Action)
        ensures
            final(self)@ == old(self)@.push(action@),
    {
        self.queue.push(action);
        assert(self@ =~= old(self)@.push(action@));
    }

    /// Takes the oldest change out, where there is one. All others keep
    /// their order.
    pub fn pop_front(&mut self) -> (r: Option<Action>)
        ensures
            old(self)@.len() == 0 ==> r is None && final(self)@ == old(self)@,
            old(self)@.len() > 0 ==> (r matches Some(a) && a@ == old(self)@[0]),
            old(self)@.len() > 0 ==> final(self)@ == old(self)@.drop_first(),
    {
        if self.queue.len() == 0 {
            None
        } else {
            let a = self.queue.remove(0);
            assert(self@ =~= old(self)@.drop_first());
            assert(a@ == old(self)@[0]);
            Some(a)
        }
    }
}

} // verus!
