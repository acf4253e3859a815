//! Which tasks a front end shows, and which of them it orders by date.

use crate::config::holds;
use crate::model::{Task, TaskView};
use crate::text::{chars_of, contains, contains_text, to_upper, uppercase_text};
use vstd::prelude::*;

verus! {

/// What the user has chosen to see.
#[derive(Debug)]
pub struct FilterOptions {
    /// The one calendar to show, where there is one.
    pub active_cal_href: Option<String>,
    pub hidden_calendars: Vec<String>,
    pub selected_categories: Vec<String>,
    /// Whether a task needs every selected tag, or any one of them.
    pub match_all_categories: bool,
    pub search_term: String,
    pub hide_completed_global: bool,
    /// The instant up to which tasks are ordered by their due date.
    pub cutoff_date: Option<i64>,
    pub min_duration: Option<u32>,
    pub max_duration: Option<u32>,
    /// Whether a task without an estimated duration is shown while a bound
    /// on the duration is set.
    pub include_unset_duration: bool,
}

/// What a [`FilterOptions`] holds.
pub ghost struct FilterView {
    pub active_cal_href: Option<Seq<char>>,
    pub hidden_calendars: Seq<Seq<char>>,
    pub selected_categories: Seq<Seq<char>>,
    pub match_all_categories: bool,
    pub search_term: Seq<char>,
    pub hide_completed_global: bool,
    pub cutoff_date: Option<i64>,
    pub min_duration: Option<u32>,
    pub max_duration: Option<u32>,
    pub include_unset_duration: bool,
}

impl DeepView for FilterOptions {
    type V = FilterView;

    open spec fn deep_view(&self) -> FilterView {
        FilterView {
            active_cal_href: self.active_cal_href.deep_view(),
            hidden_calendars: self.hidden_calendars.deep_view(),
            selected_categories: self.selected_categories.deep_view(),
            match_all_categories: self.match_all_categories,
            search_term: self.search_term@,
            hide_completed_global: self.hide_completed_global,
            cutoff_date: self.cutoff_date,
            min_duration: self.min_duration,
            max_duration: self.max_duration,
            include_unset_duration: self.include_unset_duration,
        }
    }
}

impl View for FilterOptions {
    type V = FilterView;

    open spec fn view(&self) -> FilterView {
        self.deep_view()
    }
}

/// The tags of a task answer the selection: nothing is selected, or the
/// task has every selected tag, or, where any one will do, one of them.
pub open spec fn tags_fit(tags: Seq<Seq<char>>, selected: Seq<Seq<char>>, all: bool) -> bool {
    ||| selected.len() == 0
    ||| all && forall|i: int| 0 <= i < selected.len() ==> tags.contains(#[trigger] selected[i])
    ||| !all && exists|i: int| 0 <= i < selected.len() && tags.contains(#[trigger] selected[i])
}

/// The estimated duration of a task lies within the bounds that are set. A
/// task without one fits where no bound is set, or where such tasks are to
/// be shown.
pub open spec fn duration_fits(duration: Option<u32>, o: FilterView) -> bool {
    match duration {
        Some(d) => (o.min_duration matches Some(min) ==> min <= d) && (
        o.max_duration matches Some(max) ==> d <= max),
        None => (o.min_duration is None && o.max_duration is None) || o.include_unset_duration,
    }
}

/// The summary of a task holds the search term, whatever the case of the
/// letters. An empty term is held by every summary.
pub open spec fn term_fits(summary: Seq<char>, term: Seq<char>) -> bool {
    term.len() == 0 || contains_text(uppercase_text(summary), uppercase_text(term))
}

/// The task is shown: it is in the active calendar where one is active,
/// its calendar is not hidden, it is not done while done tasks are hidden,
/// and its tags, its duration and its summary answer what is chosen.
pub open spec fn is_shown(t: TaskView, o: FilterView) -> bool {
    &&& o.active_cal_href matches Some(href) ==> t.calendar_href == href
    &&& !o.hidden_calendars.contains(t.calendar_href)
    &&& !(o.hide_completed_global && t.status.done())
    &&& tags_fit(t.categories, o.selected_categories, o.match_all_categories)
    &&& duration_fits(t.estimated_duration, o)
    &&& term_fits(t.summary, o.search_term)
}

/// The tasks that are shown, in the order in which they are given.
pub open spec fn shown_of(tasks: Seq<TaskView>, o: FilterView) -> Seq<TaskView>
    decreases tasks.len(),
{
    if tasks.len() == 0 {
        tasks
    } else if is_shown(tasks.last(), o) {
        shown_of(tasks.drop_last(), o).push(tasks.last())
    } else {
        shown_of(tasks.drop_last(), o)
    }
}

/// The task is ordered by its due date: it has one, and it is not after the
/// cutoff where one is set.
pub open spec fn is_dated(t: TaskView, cutoff: Option<i64>) -> bool {
    t.due matches Some(due) && (cutoff matches Some(limit) ==> due <= limit)
}

/// Whether the tags of a task answer the selection.
pub fn fits_tags(tags: &Vec<String>, selected: &Vec<String>, all: bool) -> (r: bool)
    ensures
        r == tags_fit(tags.deep_view(), selected.deep_view(), all),
{
    if selected.len() == 0 {
        return true;
    }
    let mut i: usize = 0;
    while i < selected.len()
        invariant
            i <= selected.len(),
            selected.len() > 0,
            forall|k: int|
                0 <= k < i ==> tags.deep_view().contains(#[trigger] selected.deep_view()[k]) == all,
        decreases selected.len() - i,
    {
        assert(selected.deep_view()[i as int] == selected[i as int]@);
        let has = holds(tags, &selected[i]);
        if has != all {
            return has;
        }
        i += 1;
    }
    all
}

impl FilterOptions {
    /// Whether a task is shown. See [`is_shown`].
    pub fn shows(&self, task: &Task) -> (r: bool)
        ensures
            r == is_shown(task@, self@),
    {
        if let Some(href) = &self.active_cal_href {
            if task.calendar_href != *href {
                return false;
            }
        }
        if holds(&self.hidden_calendars, &task.calendar_href) {
            return false;
        }
        if self.hide_completed_global && task.status.is_done() {
            return false;
        }
        if !fits_tags(&task.categories, &self.selected_categories, self.match_all_categories) {
            return false;
        }
        let fits = match task.estimated_duration {
            Some(d) => (match self.min_duration {
                Some(min) => min <= d,
                None => true,
            }) && (match self.max_duration {
                Some(max) => d <= max,
                None => true,
            }),
            None => (self.min_duration.is_none() && self.max_duration.is_none())
                || self.include_unset_duration,
        };
        if !fits {
            return false;
        }
        if self.search_term.as_str().is_empty() {
            return true;
        }
        let summary = to_upper(&chars_of(task.summary.as_str()));
        let term = to_upper(&chars_of(self.search_term.as_str()));
        contains(&summary, &term)
    }

    /// The tasks that are shown, in the order in which they are given.
    pub fn filter(&self, tasks: &Vec<Task>) -> (r: Vec<Task>)
        ensures
            r.deep_view() == shown_of(tasks.deep_view(), self@),
    {
        let mut out: Vec<Task> = Vec::new();
        let mut i: usize = 0;
        assert(tasks.deep_view().take(0) =~= Seq::<TaskView>::empty());
        assert(out.deep_view() =~= Seq::<TaskView>::empty());
        while i < tasks.len()
            invariant
                i <= tasks.len(),
                out.deep_view() == shown_of(tasks.deep_view().take(i as int), self@),
            decreases tasks.len() - i,
        {
            let ghost prefix = tasks.deep_view().take(i + 1);
            let ghost before = out.deep_view();
            assert(prefix.drop_last() =~= tasks.deep_view().take(i as int));
            assert(prefix.last() == tasks[i as int]@);
            if self.shows(&tasks[i]) {
                out.push(tasks[i].clone());
                assert(out.deep_view() =~= before.push(tasks[i as int]@));
            }
            i += 1;
        }
        assert(tasks.deep_view().take(i as int) =~= tasks.deep_view());
        out
    }

    /// Whether a task is ordered by its due date. See [`is_dated`].
    pub fn orders_by_date(&self, task: &Task) -> (r: bool)
        ensures
            r == is_dated(task@, self@.cutoff_date),
    {
        match task.due {
            None => false,
            Some(due) => match self.cutoff_date {
                None => true,
                Some(limit) => due <= limit,
            },
        }
    }
}

/// Every shown task is one of the tasks given and is shown by the rule; the
/// filter makes up no task and lets none through that the rule hides.
pub proof fn lemma_shown_are_shown(tasks: Seq<TaskView>, o: FilterView)
    ensures
        shown_of(tasks, o).len() <= tasks.len(),
        forall|k: int|
            0 <= k < shown_of(tasks, o).len() ==> is_shown(#[trigger] shown_of(tasks, o)[k], o)
                && tasks.contains(shown_of(tasks, o)[k]),
    decreases tasks.len(),
{
    if tasks.len() > 0 {
        let rest = tasks.drop_last();
        lemma_shown_are_shown(rest, o);
        let out = shown_of(tasks, o);
        assert forall|k: int| 0 <= k < out.len() implies is_shown(#[trigger] out[k], o)
            && tasks.contains(out[k]) by {
            if k < shown_of(rest, o).len() {
                let t = shown_of(rest, o)[k];
                assert(out[k] == t);
                let j = choose|j: int| 0 <= j < rest.len() && rest[j] == t;
                assert(tasks[j] == t);
            } else {
                assert(out[k] == tasks[tasks.len() - 1]);
            }
        }
    }
}

} // verus!
