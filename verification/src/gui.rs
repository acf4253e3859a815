//! What the graphical front end keeps of its own state.

use vstd::prelude::*;

verus! {

/// The screen that the application shows.
#[derive(PartialEq, Eq, Structural, Clone, Copy, Debug)]
pub enum AppState {
    Loading,
    Onboarding,
    Active,
    Settings,
}

impl Default for AppState {
    fn default() -> (r: Self)
        ensures
            r == AppState::Loading,
    {
        AppState::Loading
    }
}

/// What the sidebar lists.
#[derive(PartialEq, Eq, Structural, Clone, Copy, Debug)]
pub enum SidebarMode {
    Calendars,
    Categories,
}

impl Default for SidebarMode {
    fn default() -> (r: Self)
        ensures
            r == SidebarMode::Calendars,
    {
        SidebarMode::Calendars
    }
}

impl AppState {
    /// Whether the tab key moves between the fields of a form: it does on
    /// the screens that hold one, onboarding and settings.
    pub fn tab_moves_focus(self) -> (r: bool)
        ensures
            r == (self == AppState::Onboarding || self == AppState::Settings),
    {
        match self {
            AppState::Onboarding => true,
            AppState::Settings => true,
            _ => false,
        }
    }
}

/// The seconds of a month of thirty days.
pub const SECONDS_PER_MONTH: i64 = 2592000;

/// The instant up to which tasks are sorted by date: so many months of
/// thirty days after `now`. There is none where no number of months is set
/// or the instant cannot be represented.
pub open spec fn cutoff_of(now: i64, months: Option<u32>) -> Option<i64> {
    match months {
        Some(m) => if now + m * SECONDS_PER_MONTH <= i64::MAX {
            Some((now + m * SECONDS_PER_MONTH) as i64)
        } else {
            None
        },
        None => None,
    }
}

/// The instant up to which tasks are sorted by date.
pub fn cutoff_instant(now: i64, months: Option<u32>) -> (r: Option<i64>)
    ensures
        r == cutoff_of(now, months),
{
    match months {
        Some(m) => {
            let span: i64 = (m as i64) * SECONDS_PER_MONTH;
            now.checked_add(span)
        },
        None => None,
    }
}

} // verus!
