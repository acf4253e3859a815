//! What the terminal front end and its worker tell each other.

use crate::adapter::byte_len;
use crate::model::{CalendarListEntry, Task, TaskStatus};
use crate::text::{append_chars, chars_of, decimal_text, push_decimal, text_of};
use vstd::prelude::*;

verus! {

/// What the sidebar lists.
#[derive(PartialEq, Eq, Structural, Clone, Copy, Debug)]
pub enum SidebarMode {
    Calendars,
    Categories,
}

/// What the front end asks of the worker.
#[derive(Debug)]
pub enum Action {
    /// Show another calendar.
    SwitchCalendar(String),
    /// Create a task from a line of input in a calendar.
    CreateTask(String, String),
    UpdateTask(Task),
    ToggleTask(Task),
    DeleteTask(Task),
    /// End the program.
    Quit,
}

/// What the worker reports to the front end.
#[derive(Debug)]
pub enum AppEvent {
    CalendarsLoaded(Vec<CalendarListEntry>),
    /// The tasks of each calendar, by its href.
    TasksLoaded(Vec<(String, Vec<Task>)>),
    Error(String),
    Status(String),
}

impl Action {
    /// Whether the action ends the program.
    pub fn is_quit(&self) -> (r: bool)
        ensures
            r == (self is Quit),
    {
        match self {
            Action::Quit => true,
            _ => false,
        }
    }
}

/// The box that shows the status of a task in a list.
pub open spec fn mark_of(status: TaskStatus) -> Seq<char> {
    match status {
        TaskStatus::Completed => "[x]"@,
        TaskStatus::Cancelled => "[-]"@,
        TaskStatus::InProcess => "[>]"@,
        TaskStatus::NeedsAction => "[ ]"@,
    }
}

/// The box that shows the status of a task in a list.
pub fn status_mark(status: TaskStatus) -> (r: &'static str)
    ensures
        r@ == mark_of(status),
{
    match status {
        TaskStatus::Completed => "[x]",
        TaskStatus::Cancelled => "[-]",
        TaskStatus::InProcess => "[>]",
        TaskStatus::NeedsAction => "[ ]",
    }
}

/// How the row of a task is coloured.
#[derive(PartialEq, Eq, Structural, Clone, Copy, Debug)]
pub enum Tone {
    /// A blocked task.
    Muted,
    /// Priority 1 to 4.
    Urgent,
    /// Priority 5.
    Medium,
    /// Any other priority.
    Plain,
}

/// How the row of a task is coloured: a blocked task is muted whatever its
/// priority.
pub fn row_tone(priority: u8, blocked: bool) -> (r: Tone)
    ensures
        r == if blocked {
            Tone::Muted
        } else if 1 <= priority <= 4 {
            Tone::Urgent
        } else if priority == 5 {
            Tone::Medium
        } else {
            Tone::Plain
        },
{
    if blocked {
        Tone::Muted
    } else if priority >= 1 && priority <= 4 {
        Tone::Urgent
    } else if priority == 5 {
        Tone::Medium
    } else {
        Tone::Plain
    }
}

/// The label of an estimated duration in a list: the minutes in the largest
/// unit that they fill at least once, in whole units. A year has 525600
/// minutes, a month 43200, a week 10080, a day 1440, an hour 60.
pub open spec fn duration_label_of(minutes: Option<u32>) -> Seq<char> {
    match minutes {
        None => Seq::empty(),
        Some(m) => if m >= 525600 {
            " [~"@ + decimal_text(m as int / 525600) + "y]"@
        } else if m >= 43200 {
            " [~"@ + decimal_text(m as int / 43200) + "mo]"@
        } else if m >= 10080 {
            " [~"@ + decimal_text(m as int / 10080) + "w]"@
        } else if m >= 1440 {
            " [~"@ + decimal_text(m as int / 1440) + "d]"@
        } else if m >= 60 {
            " [~"@ + decimal_text(m as int / 60) + "h]"@
        } else {
            " [~"@ + decimal_text(m as int) + "m]"@
        },
    }
}

/// The label of an estimated duration in a list.
pub fn duration_label(minutes: Option<u32>) -> (r: String)
    ensures
        r@ == duration_label_of(minutes),
{
    let m = match minutes {
        None => {
            return String::new();
        },
        Some(m) => m,
    };
    let mut out = chars_of(" [~");
    if m >= 525600 {
        push_decimal(&mut out, (m / 525600) as u64);
        append_chars(&mut out, &chars_of("y]"));
    } else if m >= 43200 {
        push_decimal(&mut out, (m / 43200) as u64);
        append_chars(&mut out, &chars_of("mo]"));
    } else if m >= 10080 {
        push_decimal(&mut out, (m / 10080) as u64);
        append_chars(&mut out, &chars_of("w]"));
    } else if m >= 1440 {
        push_decimal(&mut out, (m / 1440) as u64);
        append_chars(&mut out, &chars_of("d]"));
    } else if m >= 60 {
        push_decimal(&mut out, (m / 60) as u64);
        append_chars(&mut out, &chars_of("h]"));
    } else {
        push_decimal(&mut out, m as u64);
        append_chars(&mut out, &chars_of("m]"));
    }
    text_of(&out)
}

/// The width that the tags of a task take in a list: the bytes of each tag
/// and two more for the blank and the hash before it.
pub open spec fn tags_width(tags: Seq<Seq<char>>) -> int
    decreases tags.len(),
{
    if tags.len() == 0 {
        0
    } else {
        tags_width(tags.drop_last()) + byte_len(tags.last()) + 2
    }
}

/// The blanks between the left part of a row and its tags, which stand at
/// the right edge: what is left of the width of the list after the left
/// part, the tags and the mark of a blocked task, which takes four.
pub open spec fn padding_of(width: usize, left: usize, tags: Seq<Seq<char>>, blocked: bool) -> int {
    let used = left + tags_width(tags) + if blocked {
        4int
    } else {
        0int
    };
    if used >= width {
        0
    } else {
        width - used
    }
}

/// The number of blanks between the left part of a row and its tags.
pub fn padding_width(width: usize, left: usize, tags: &Vec<String>, blocked: bool) -> (r: usize)
    ensures
        r == padding_of(width, left, tags.deep_view(), blocked),
{
    let mut used: usize = left;
    let mut i: usize = 0;
    assert(tags.deep_view().take(0) =~= Seq::<Seq<char>>::empty());
    while i < tags.len()
        invariant
            i <= tags.len(),
            tags_width(tags.deep_view().take(i as int)) >= 0,
            used == if left + tags_width(tags.deep_view().take(i as int)) > usize::MAX {
                usize::MAX as int
            } else {
                left + tags_width(tags.deep_view().take(i as int))
            },
        decreases tags.len() - i,
    {
        let ghost prefix = tags.deep_view().take(i + 1);
        assert(prefix.drop_last() =~= tags.deep_view().take(i as int));
        assert(prefix.last() == tags[i as int]@);
        let bytes = tags[i].as_str().as_bytes().len();
        used = used.saturating_add(bytes).saturating_add(2);
        i += 1;
    }
    assert(tags.deep_view().take(i as int) =~= tags.deep_view());
    if blocked {
        used = used.saturating_add(4);
    }
    width.saturating_sub(used)
}

/// Where the cursor stands after the first `n` characters of a text that
/// is wrapped at `width` columns: its column and its line, counted from 0.
/// A line break begins a new line, and so does a character that fills the
/// last column.
pub open spec fn cursor_after(text: Seq<char>, n: int, width: usize) -> (int, int)
    decreases n,
{
    if n <= 0 {
        (0, 0)
    } else {
        let (x, y) = cursor_after(text, n - 1, width);
        if text[n - 1] == '\n' || x + 1 >= width {
            (0, y + 1)
        } else {
            (x + 1, y)
        }
    }
}

/// Where the cursor stands before the character at `target`, or at the end
/// of the text where it is shorter.
pub fn cursor_cell(text: &Vec<char>, target: usize, width: usize) -> (r: (usize, usize))
    ensures
        (r.0 as int, r.1 as int) == cursor_after(
            text@,
            if target <= text.len() {
                target as int
            } else {
                text.len() as int
            },
            width,
        ),
{
    let mut x: usize = 0;
    let mut y: usize = 0;
    let mut i: usize = 0;
    while i < text.len() && i != target
        invariant
            i <= text.len(),
            i <= target,
            x <= i,
            y <= i,
            (x as int, y as int) == cursor_after(text@, i as int, width),
        decreases text.len() - i,
    {
        if text[i] == '\n' {
            y += 1;
            x = 0;
        } else {
            x += 1;
            if x >= width {
                y += 1;
                x = 0;
            }
        }
        i += 1;
    }
    (x, y)
}

/// The line of hints for the task list: what a linked task allows while
/// one is yanked, the yank itself while none is, and the export in the
/// local calendar alone.
pub open spec fn main_help_of(yanked: bool, local: bool) -> Seq<char> {
    "a:Add e:Edit Spc:Done d:Del /:Find"@ + (if yanked {
        " b:Block c:Child"@
    } else {
        " y:Yank"@
    }) + " C:NewChild"@ + (if local {
        " X:Export"@
    } else {
        Seq::empty()
    }) + " ?:Help"@
}

/// The line of hints for the task list.
pub fn main_help(yanked: bool, local: bool) -> (r: String)
    ensures
        r@ == main_help_of(yanked, local),
{
    let mut out = chars_of("a:Add e:Edit Spc:Done d:Del /:Find");
    if yanked {
        append_chars(&mut out, &chars_of(" b:Block c:Child"));
    } else {
        append_chars(&mut out, &chars_of(" y:Yank"));
    }
    append_chars(&mut out, &chars_of(" C:NewChild"));
    if local {
        append_chars(&mut out, &chars_of(" X:Export"));
    }
    let ghost before = out@;
    append_chars(&mut out, &chars_of(" ?:Help"));
    assert(before + Seq::<char>::empty() =~= before);
    text_of(&out)
}

} // verus!
