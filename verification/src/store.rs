//! Changes to the task list of the local store. The store is read and
//! written as a whole; a change is made to the list in between.

use crate::model::{Task, TaskView};
use vstd::prelude::*;

verus! {

/// The place of the first task known as `uid`, or the length of the list
/// where there is none.
pub open spec fn first_with_uid(tasks: Seq<TaskView>, uid: Seq<char>) -> int
    decreases tasks.len(),
{
    if tasks.len() == 0 || tasks[0].uid == uid {
        0
    } else {
        1 + first_with_uid(tasks.skip(1), uid)
    }
}

/// `first_with_uid` is the least place that holds the identifier.
pub proof fn lemma_first_with_uid(tasks: Seq<TaskView>, uid: Seq<char>)
    ensures
        0 <= first_with_uid(tasks, uid) <= tasks.len(),
        first_with_uid(tasks, uid) < tasks.len() ==> tasks[first_with_uid(tasks, uid)].uid == uid,
        forall|k: int| 0 <= k < first_with_uid(tasks, uid) ==> (#[trigger] tasks[k]).uid != uid,
    decreases tasks.len(),
{
    if tasks.len() == 0 || tasks[0].uid == uid {
    } else {
        lemma_first_with_uid(tasks.skip(1), uid);
        assert forall|k: int| 0 <= k < first_with_uid(tasks, uid) implies (#[trigger] tasks[k]).uid
            != uid by {
            if k > 0 {
                assert(tasks.skip(1)[k - 1] == tasks[k]);
            }
        }
    }
}

/// The list with the first task known under the identifier of `task`
/// replaced by `task`; the list as it is where it knows none.
pub open spec fn replaced(tasks: Seq<TaskView>, task: TaskView) -> Seq<TaskView> {
    let at = first_with_uid(tasks, task.uid);
    if at < tasks.len() {
        tasks.update(at, task)
    } else {
        tasks
    }
}

/// The list without the tasks known as `uid`.
pub open spec fn without_uid(tasks: Seq<TaskView>, uid: Seq<char>) -> Seq<TaskView>
    decreases tasks.len(),
{
    if tasks.len() == 0 {
        tasks
    } else if tasks.last().uid == uid {
        without_uid(tasks.drop_last(), uid)
    } else {
        without_uid(tasks.drop_last(), uid).push(tasks.last())
    }
}

/// The place of the first task known as `uid`.
pub fn find_by_uid(tasks: &Vec<Task>, uid: &String) -> (r: Option<usize>)
    ensures
        match r {
            Some(at) => at < tasks.len() && at == first_with_uid(tasks.deep_view(), uid@),
            None => first_with_uid(tasks.deep_view(), uid@) == tasks.len(),
        },
{
    let mut i: usize = 0;
    assert(tasks.deep_view().skip(0) =~= tasks.deep_view());
    while i < tasks.len()
        invariant
            i <= tasks.len(),
            first_with_uid(tasks.deep_view(), uid@) == i + first_with_uid(
                tasks.deep_view().skip(i as int),
                uid@,
            ),
        decreases tasks.len() - i,
    {
        assert(tasks.deep_view().skip(i as int)[0] == tasks[i as int]@);
        if tasks[i].uid == *uid {
            return Some(i);
        }
        assert(tasks.deep_view().skip(i as int).skip(1) =~= tasks.deep_view().skip(i + 1));
        i += 1;
    }
    None
}

/// Puts `task` in the place of the first task known under its identifier.
/// Says whether there was one.
pub fn replace_by_uid(tasks: &mut Vec<Task>, task: &Task) -> (found: bool)
    ensures
        final(tasks).deep_view() == replaced(old(tasks).deep_view(), task@),
        found == (first_with_uid(old(tasks).deep_view(), task@.uid) < old(tasks).len()),
{
    match find_by_uid(tasks, &task.uid) {
        Some(at) => {
            tasks.set(at, task.clone());
            assert(tasks.deep_view() =~= old(tasks).deep_view().update(at as int, task@));
            true
        },
        None => false,
    }
}

/// Takes out every task known as `uid`.
pub fn remove_by_uid(tasks: Vec<Task>, uid: &String) -> (r: Vec<Task>)
    ensures
        r.deep_view() == without_uid(tasks.deep_view(), uid@),
{
    let mut out: Vec<Task> = Vec::new();
    let mut i: usize = 0;
    assert(tasks.deep_view().take(0) =~= Seq::<TaskView>::empty());
    assert(out.deep_view() =~= Seq::<TaskView>::empty());
    while i < tasks.len()
        invariant
            i <= tasks.len(),
            out.deep_view() == without_uid(tasks.deep_view().take(i as int), uid@),
        decreases tasks.len() - i,
    {
        let ghost prefix = tasks.deep_view().take(i + 1);
        let ghost before = out.deep_view();
        assert(prefix.drop_last() =~= tasks.deep_view().take(i as int));
        assert(prefix.last() == tasks[i as int]@);
        if tasks[i].uid != *uid {
            out.push(tasks[i].clone());
            assert(out.deep_view() =~= before.push(tasks[i as int]@));
        }
        i += 1;
    }
    assert(tasks.deep_view().take(i as int) =~= tasks.deep_view());
    out
}

/// Once the tasks known as `uid` are taken out, no task of the list is known
/// under that identifier, and the list has not grown.
pub proof fn lemma_without_uid(tasks: Seq<TaskView>, uid: Seq<char>)
    ensures
        without_uid(tasks, uid).len() <= tasks.len(),
        forall|k: int|
            0 <= k < without_uid(tasks, uid).len() ==> (#[trigger] without_uid(tasks, uid)[k]).uid
                != uid,
    decreases tasks.len(),
{
    if tasks.len() > 0 {
        lemma_without_uid(tasks.drop_last(), uid);
    }
}

} // verus!
