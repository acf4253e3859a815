//! Reading many calendars at once, with a bound on how many readings are
//! under way at any time.

use crate::client::RustyClient;
use crate::model::{clone_texts, CalendarListEntry, Task, TaskView};
use vstd::prelude::*;

verus! {

/// The most readings that may be under way at the same time.
pub const MAX_IN_FLIGHT: usize = 4;

/// The end of one reading: the calendar and what its reading gave.
#[derive(Debug)]
pub struct Completion {
    pub href: String,
    pub outcome: Result<Vec<Task>, String>,
}

/// What a [`Completion`] holds.
pub ghost struct CompletionView {
    pub href: Seq<char>,
    pub outcome: Result<Seq<TaskView>, Seq<char>>,
}

impl DeepView for Completion {
    type V = CompletionView;

    open spec fn deep_view(&self) -> CompletionView {
        CompletionView {
            href: self.href@,
            outcome: match self.outcome {
                Ok(tasks) => Ok(tasks.deep_view()),
                Err(e) => Err(e@),
            },
        }
    }
}

impl View for Completion {
    type V = CompletionView;

    open spec fn view(&self) -> CompletionView {
        self.deep_view()
    }
}

/// A refresh under way: the calendars whose reading has not started, in
/// order; those whose reading is under way; and the tasks of those whose
/// reading succeeded, in the order in which the readings ended.
#[derive(Debug)]
pub struct Refresh {
    pub pending: Vec<String>,
    pub in_flight: Vec<String>,
    pub results: Vec<(String, Vec<Task>)>,
}

/// What a [`Refresh`] holds.
pub ghost struct RefreshView {
    pub pending: Seq<Seq<char>>,
    pub in_flight: Seq<Seq<char>>,
    pub results: Seq<(Seq<char>, Seq<TaskView>)>,
}

impl DeepView for Refresh {
    type V = RefreshView;

    open spec fn deep_view(&self) -> RefreshView {
        RefreshView {
            pending: self.pending.deep_view(),
            in_flight: self.in_flight.deep_view(),
            results: self.results.deep_view(),
        }
    }
}

impl View for Refresh {
    type V = RefreshView;

    open spec fn view(&self) -> RefreshView {
        self.deep_view()
    }
}

impl RefreshView {
    /// No reading waits and none is under way.
    pub open spec fn is_finished(self) -> bool {
        self.pending.len() == 0 && self.in_flight.len() == 0
    }

    /// No more readings are under way than may be.
    pub open spec fn is_bounded(self) -> bool {
        self.in_flight.len() <= MAX_IN_FLIGHT
    }
}

/// The first place of `href` in a list, or the length of the list where it
/// does not occur.
pub open spec fn first_place(list: Seq<Seq<char>>, href: Seq<char>) -> int
    decreases list.len(),
{
    if list.len() == 0 || list[0] == href {
        0
    } else {
        1 + first_place(list.skip(1), href)
    }
}

/// `first_place` lies within the list or at its end.
pub proof fn lemma_first_place(list: Seq<Seq<char>>, href: Seq<char>)
    ensures
        0 <= first_place(list, href) <= list.len(),
        first_place(list, href) < list.len() ==> list[first_place(list, href)] == href,
    decreases list.len(),
{
    if list.len() == 0 || list[0] == href {
    } else {
        lemma_first_place(list.skip(1), href);
    }
}

/// The refresh after a reading has ended. The calendar leaves the readings
/// under way; where the reading succeeded its tasks join the results, where
/// it failed nothing else changes. The end of a reading that is not under
/// way changes nothing.
pub open spec fn settled(st: RefreshView, completion: Option<CompletionView>) -> RefreshView {
    match completion {
        None => st,
        Some(c) => {
            let at = first_place(st.in_flight, c.href);
            if at < st.in_flight.len() {
                RefreshView {
                    in_flight: st.in_flight.remove(at),
                    results: match c.outcome {
                        Ok(tasks) => st.results.push((c.href, tasks)),
                        Err(_) => st.results,
                    },
                    ..st
                }
            } else {
                st
            }
        },
    }
}

/// The number of readings that may start now: as many as wait, but no more
/// than the bound leaves room for.
pub open spec fn room(st: RefreshView) -> int {
    if st.in_flight.len() >= MAX_IN_FLIGHT {
        0
    } else if st.pending.len() <= MAX_IN_FLIGHT - st.in_flight.len() {
        st.pending.len() as int
    } else {
        MAX_IN_FLIGHT - st.in_flight.len()
    }
}

/// The refresh after the readings that may start have started, and the
/// calendars whose readings start: the first of those that wait.
pub open spec fn launched(st: RefreshView) -> (RefreshView, Seq<Seq<char>>) {
    let n = room(st);
    (
        RefreshView {
            pending: st.pending.skip(n),
            in_flight: st.in_flight + st.pending.take(n),
            ..st
        },
        st.pending.take(n),
    )
}

/// One step of a refresh: a reading that has ended is settled, then as many
/// readings start as the bound allows.
pub open spec fn refresh_step(st: RefreshView, completion: Option<CompletionView>) -> (
    RefreshView,
    Seq<Seq<char>>,
) {
    launched(settled(st, completion))
}

/// The first place of `href` in a list.
pub fn find_place(list: &Vec<String>, href: &String) -> (r: usize)
    ensures
        r == first_place(list.deep_view(), href@),
        r <= list.len(),
{
    let mut i: usize = 0;
    assert(list.deep_view().skip(0) =~= list.deep_view());
    while i < list.len()
        invariant
            i <= list.len(),
            first_place(list.deep_view(), href@) == i + first_place(
                list.deep_view().skip(i as int),
                href@,
            ),
        decreases list.len() - i,
    {
        assert(list.deep_view().skip(i as int)[0] == list[i as int]@);
        if list[i] == *href {
            return i;
        }
        assert(list.deep_view().skip(i as int).skip(1) =~= list.deep_view().skip(i + 1));
        i += 1;
    }
    i
}

impl Refresh {
    /// A refresh of the given calendars that has not begun: the reading of
    /// each waits, in the order of the list.
    pub fn begin(calendars: &Vec<CalendarListEntry>) -> (r: Refresh)
        ensures
            r@.pending == calendars.deep_view().map_values(|c: crate::model::CalendarView| c.href),
            r@.in_flight.len() == 0,
            r@.results.len() == 0,
    {
        let mut pending: Vec<String> = Vec::new();
        let mut i: usize = 0;
        while i < calendars.len()
            invariant
                i <= calendars.len(),
                pending.len() == i,
                forall|k: int| 0 <= k < i ==> pending[k]@ == calendars[k]@.href,
            decreases calendars.len() - i,
        {
            pending.push(calendars[i].href.clone());
            i += 1;
        }
        let r = Refresh { pending, in_flight: Vec::new(), results: Vec::new() };
        assert(r@.pending =~= calendars.deep_view().map_values(
            |c: crate::model::CalendarView| c.href,
        ));
        r
    }

    /// Whether no reading waits and none is under way.
    pub fn is_finished(&self) -> (r: bool)
        ensures
            r == self@.is_finished(),
    {
        self.pending.len() == 0 && self.in_flight.len() == 0
    }

    /// The tasks of the calendars whose reading succeeded.
    pub fn into_results(self) -> (r: Vec<(String, Vec<Task>)>)
        ensures
            r.deep_view() == self@.results,
    {
        self.results
    }

    fn settle(&mut self, completion: Option<Completion>)
        ensures
            final(self)@ == settled(old(self)@, completion.deep_view()),
    {
        if let Some(c) = completion {
            let at = find_place(&self.in_flight, &c.href);
            if at < self.in_flight.len() {
                let ghost flying = self.in_flight.deep_view();
                let ghost results = self.results.deep_view();
                let _ = self.in_flight.remove(at);
                assert(self.in_flight.deep_view() =~= flying.remove(at as int));
                if let Ok(tasks) = c.outcome {
                    self.results.push((c.href, tasks));
                    assert(self.results.deep_view() =~= results.push((c@.href, tasks.deep_view())));
                }
            }
        }
    }

    fn launch(&mut self) -> (started: Vec<String>)
        ensures
            (final(self)@, started.deep_view()) == launched(old(self)@),
    {
        let n: usize = if self.in_flight.len() >= MAX_IN_FLIGHT {
            0
        } else if self.pending.len() <= MAX_IN_FLIGHT - self.in_flight.len() {
            self.pending.len()
        } else {
            MAX_IN_FLIGHT - self.in_flight.len()
        };
        let ghost pending = self.pending.deep_view();
        let ghost flying = self.in_flight.deep_view();
        let rest = self.pending.split_off(n);
        let started = clone_texts(&self.pending);
        assert(started.deep_view() =~= pending.take(n as int));
        assert(rest.deep_view() =~= pending.skip(n as int));
        let mut i: usize = 0;
        while i < started.len()
            invariant
                i <= started.len(),
                self.in_flight.deep_view() == flying + started.deep_view().take(i as int),
                self.results == old(self).results,
            decreases started.len() - i,
        {
            let ghost before = self.in_flight.deep_view();
            self.in_flight.push(started[i].clone());
            assert(self.in_flight.deep_view() =~= before.push(started[i as int]@));
            assert(started.deep_view().take(i + 1) =~= started.deep_view().take(i as int).push(
                started[i as int]@,
            ));
            i += 1;
        }
        assert(started.deep_view().take(i as int) =~= started.deep_view());
        self.pending = rest;
        started
    }
}

impl RustyClient {
    /// One step of a refresh of many calendars. `completion` is a reading
    /// that has ended, or nothing at the start. Gives the calendars whose
    /// reading is to start now. See [`refresh_step`].
    pub fn get_all_tasks(&self, state: Refresh, completion: Option<Completion>) -> (r: (
        Refresh,
        Vec<String>,
    ))
        ensures
            (r.0@, r.1.deep_view()) == refresh_step(state@, completion.deep_view()),
            state@.is_bounded() ==> r.0@.is_bounded(),
    {
        proof {
            if state@.is_bounded() {
                lemma_refresh_bounded(state@, completion.deep_view());
            }
        }
        let mut state = state;
        state.settle(completion);
        let started = state.launch();
        (state, started)
    }
}

/// The bound holds at all times: a refresh with at most four readings under
/// way has at most four under way after any step, and it starts none while
/// four are under way.
pub proof fn lemma_refresh_bounded(st: RefreshView, completion: Option<CompletionView>)
    requires
        st.is_bounded(),
    ensures
        refresh_step(st, completion).0.is_bounded(),
        refresh_step(st, completion).1.len() <= MAX_IN_FLIGHT,
        settled(st, completion).in_flight.len() == MAX_IN_FLIGHT ==> refresh_step(
            st,
            completion,
        ).1.len() == 0,
{
    if let Some(c) = completion {
        lemma_first_place(st.in_flight, c.href);
    }
}

/// A failed reading is left out and stops nothing: the results stay as they
/// are, and the readings that wait start exactly as they would after a
/// success.
pub proof fn lemma_failure_stops_nothing(
    st: RefreshView,
    href: Seq<char>,
    failure: Seq<char>,
    tasks: Seq<TaskView>,
)
    ensures
        ({
            let failed = refresh_step(st, Some(CompletionView { href, outcome: Err(failure) }));
            let succeeded = refresh_step(st, Some(CompletionView { href, outcome: Ok(tasks) }));
            &&& failed.0.results == st.results
            &&& failed.0.pending == succeeded.0.pending
            &&& failed.0.in_flight == succeeded.0.in_flight
            &&& failed.1 == succeeded.1
        }),
{
}

/// A success is returned whatever else fails: the tasks of a reading under
/// way that succeeds join the results, and no step ever takes a result
/// away or changes its place.
pub proof fn lemma_results_grow(st: RefreshView, completion: Option<CompletionView>)
    ensures
        st.results.is_prefix_of(refresh_step(st, completion).0.results),
        completion matches Some(c) ==> (st.in_flight.contains(c.href) && c.outcome is Ok
            ==> refresh_step(st, completion).0.results == st.results.push(
            (c.href, c.outcome->Ok_0),
        )),
{
    if let Some(c) = completion {
        lemma_first_place(st.in_flight, c.href);
        if st.in_flight.contains(c.href) {
            lemma_first_place_finds(st.in_flight, c.href);
        }
    }
}

/// A text that a list holds has a first place within the list.
pub proof fn lemma_first_place_finds(list: Seq<Seq<char>>, href: Seq<char>)
    requires
        list.contains(href),
    ensures
        first_place(list, href) < list.len(),
    decreases list.len(),
{
    if list.len() == 0 || list[0] == href {
    } else {
        let k = choose|k: int| 0 <= k < list.len() && list[k] == href;
        assert(list.skip(1)[k - 1] == href);
        lemma_first_place_finds(list.skip(1), href);
    }
}

/// No reading is lost or made up: a step moves calendars from those that
/// wait to those under way, takes at most the one that has ended out of
/// those under way, and touches no other.
pub proof fn lemma_refresh_conserves(st: RefreshView, completion: Option<CompletionView>)
    ensures
        ({
            let next = refresh_step(st, completion);
            let ended: int = if completion matches Some(c) && st.in_flight.contains(c.href) {
                1
            } else {
                0
            };
            &&& next.1 + next.0.pending == st.pending
            &&& next.0.pending.len() + next.0.in_flight.len() + ended == st.pending.len()
                + st.in_flight.len()
        }),
{
    let mid = settled(st, completion);
    if let Some(c) = completion {
        lemma_first_place(st.in_flight, c.href);
        if st.in_flight.contains(c.href) {
            lemma_first_place_finds(st.in_flight, c.href);
        } else {
            if first_place(st.in_flight, c.href) < st.in_flight.len() {
                assert(st.in_flight[first_place(st.in_flight, c.href)] == c.href);
            }
        }
    }
    let n = room(mid);
    assert(mid.pending.take(n) + mid.pending.skip(n) =~= mid.pending);
}

/// Where a refresh stands after a run of steps, one for each reading that
/// ended (or for nothing, at the start), and the calendars whose readings
/// were started in the run, in the order in which they were started.
pub open spec fn refresh_run(st: RefreshView, completions: Seq<Option<CompletionView>>) -> (
    RefreshView,
    Seq<Seq<char>>,
)
    decreases completions.len(),
{
    if completions.len() == 0 {
        (st, Seq::empty())
    } else {
        let before = refresh_run(st, completions.drop_last());
        let next = refresh_step(before.0, completions.last());
        (next.0, before.1 + next.1)
    }
}

/// The readings of a run that succeeded, in the order in which they ended:
/// each was under way when it ended and gave tasks.
pub open spec fn successes(st: RefreshView, completions: Seq<Option<CompletionView>>) -> Seq<
    (Seq<char>, Seq<TaskView>),
>
    decreases completions.len(),
{
    if completions.len() == 0 {
        Seq::empty()
    } else {
        let before = refresh_run(st, completions.drop_last()).0;
        let rest = successes(st, completions.drop_last());
        match completions.last() {
            Some(c) => if before.in_flight.contains(c.href) && c.outcome is Ok {
                rest.push((c.href, c.outcome->Ok_0))
            } else {
                rest
            },
            None => rest,
        }
    }
}

/// Over a whole refresh, whatever readings end and in whatever order: never
/// are more than four readings under way; the calendars are started in the
/// order of the list, each at most once, and each exactly once when none
/// waits any more; and the results are the results from before followed by
/// the readings that succeeded, in the order in which they ended, so that a
/// failure takes no result away.
pub proof fn lemma_refresh_run(st: RefreshView, completions: Seq<Option<CompletionView>>)
    requires
        st.is_bounded(),
    ensures
        refresh_run(st, completions).0.is_bounded(),
        refresh_run(st, completions).1 + refresh_run(st, completions).0.pending == st.pending,
        refresh_run(st, completions).0.pending.len() == 0 ==> refresh_run(st, completions).1
            == st.pending,
        refresh_run(st, completions).0.results == st.results + successes(st, completions),
    decreases completions.len(),
{
    let run = refresh_run(st, completions);
    if completions.len() == 0 {
        assert(run.1 + run.0.pending =~= st.pending);
        assert(st.results + successes(st, completions) =~= st.results);
    } else {
        let first = completions.drop_last();
        let before = refresh_run(st, first);
        lemma_refresh_run(st, first);
        lemma_refresh_bounded(before.0, completions.last());
        lemma_refresh_conserves(before.0, completions.last());
        lemma_results_grow(before.0, completions.last());
        let next = refresh_step(before.0, completions.last());
        assert((before.1 + next.1) + next.0.pending =~= before.1 + (next.1 + next.0.pending));
        if let Some(c) = completions.last() {
            lemma_first_place(before.0.in_flight, c.href);
            if before.0.in_flight.contains(c.href) {
                lemma_first_place_finds(before.0.in_flight, c.href);
            } else if first_place(before.0.in_flight, c.href) < before.0.in_flight.len() {
                assert(before.0.in_flight[first_place(before.0.in_flight, c.href)] == c.href);
            }
        }
        assert(run.0.results =~= st.results + successes(st, completions));
    }
    if run.0.pending.len() == 0 {
        assert(run.1 + run.0.pending =~= run.1);
    }
}

} // verus!
