//! The settings of the program, as the engine and the front ends read them.

use crate::model::{clone_opt_text, clone_texts};
use vstd::prelude::*;

verus! {

/// The settings.
#[derive(Debug)]
pub struct Config {
    pub url: String,
    pub username: String,
    pub password: String,
    pub default_calendar: Option<String>,
    pub hide_completed: bool,
    pub hide_fully_completed_tags: bool,
    pub allow_insecure_certs: bool,
    pub hidden_calendars: Vec<String>,
    pub disabled_calendars: Vec<String>,
    /// Each alias with the tags that it stands for.
    pub tag_aliases: Vec<(String, Vec<String>)>,
    pub sort_cutoff_months: Option<u32>,
}

/// What a [`Config`] holds.
pub ghost struct ConfigView {
    pub url: Seq<char>,
    pub username: Seq<char>,
    pub password: Seq<char>,
    pub default_calendar: Option<Seq<char>>,
    pub hide_completed: bool,
    pub hide_fully_completed_tags: bool,
    pub allow_insecure_certs: bool,
    pub hidden_calendars: Seq<Seq<char>>,
    pub disabled_calendars: Seq<Seq<char>>,
    pub tag_aliases: Seq<(Seq<char>, Seq<Seq<char>>)>,
    pub sort_cutoff_months: Option<u32>,
}

impl DeepView for Config {
    type V = ConfigView;

    open spec fn deep_view(&self) -> ConfigView {
        ConfigView {
            url: self.url@,
            username: self.username@,
            password: self.password@,
            default_calendar: self.default_calendar.deep_view(),
            hide_completed: self.hide_completed,
            hide_fully_completed_tags: self.hide_fully_completed_tags,
            allow_insecure_certs: self.allow_insecure_certs,
            hidden_calendars: self.hidden_calendars.deep_view(),
            disabled_calendars: self.disabled_calendars.deep_view(),
            tag_aliases: self.tag_aliases.deep_view(),
            sort_cutoff_months: self.sort_cutoff_months,
        }
    }
}

impl View for Config {
    type V = ConfigView;

    open spec fn view(&self) -> ConfigView {
        self.deep_view()
    }
}

impl Default for Config {
    /// Settings with nothing set: no server, nothing hidden.
    fn default() -> (r: Self)
        ensures
            r@.url.len() == 0,
            r@.username.len() == 0,
            r@.password.len() == 0,
            r@.default_calendar is None,
            !r@.hide_completed,
            !r@.hide_fully_completed_tags,
            !r@.allow_insecure_certs,
            r@.hidden_calendars.len() == 0,
            r@.disabled_calendars.len() == 0,
            r@.tag_aliases.len() == 0,
            r@.sort_cutoff_months is None,
    {
        Config {
            url: String::new(),
            username: String::new(),
            password: String::new(),
            default_calendar: None,
            hide_completed: false,
            hide_fully_completed_tags: false,
            allow_insecure_certs: false,
            hidden_calendars: Vec::new(),
            disabled_calendars: Vec::new(),
            tag_aliases: Vec::new(),
            sort_cutoff_months: None,
        }
    }
}

impl Clone for Config {
    fn clone(&self) -> (r: Self)
        ensures
            r@ == self@,
    {
        let mut tag_aliases: Vec<(String, Vec<String>)> = Vec::new();
        let mut i: usize = 0;
        while i < self.tag_aliases.len()
            invariant
                i <= self.tag_aliases.len(),
                tag_aliases.len() == i,
                forall|k: int|
                    0 <= k < i ==> tag_aliases[k].deep_view() == self.tag_aliases[k].deep_view(),
            decreases self.tag_aliases.len() - i,
        {
            let pair = &self.tag_aliases[i];
            tag_aliases.push((pair.0.clone(), clone_texts(&pair.1)));
            i += 1;
        }
        assert(tag_aliases.deep_view() =~= self.tag_aliases.deep_view());
        Config {
            url: self.url.clone(),
            username: self.username.clone(),
            password: self.password.clone(),
            default_calendar: clone_opt_text(&self.default_calendar),
            hide_completed: self.hide_completed,
            hide_fully_completed_tags: self.hide_fully_completed_tags,
            allow_insecure_certs: self.allow_insecure_certs,
            hidden_calendars: clone_texts(&self.hidden_calendars),
            disabled_calendars: clone_texts(&self.disabled_calendars),
            tag_aliases,
            sort_cutoff_months: self.sort_cutoff_months,
        }
    }
}

/// Whether a list of texts holds `item`.
pub fn holds(list: &Vec<String>, item: &String) -> (r: bool)
    ensures
        r == list.deep_view().contains(item@),
{
    let mut i: usize = 0;
    while i < list.len()
        invariant
            i <= list.len(),
            forall|k: int| 0 <= k < i ==> list[k]@ != item@,
        decreases list.len() - i,
    {
        if list[i] == *item {
            assert(list.deep_view()[i as int] == item@);
            return true;
        }
        i += 1;
    }
    assert forall|k: int| 0 <= k < list.deep_view().len() implies list.deep_view()[k] != item@ by {
        assert(list.deep_view()[k] == list[k]@);
    }
    false
}

impl Config {
    /// Whether a calendar is shown: it is unless it is among the hidden
    /// calendars.
    pub fn shows(&self, href: &String) -> (r: bool)
        ensures
            r == !self@.hidden_calendars.contains(href@),
    {
        !holds(&self.hidden_calendars, href)
    }
}

} // verus!
