//! Tasks as calendar documents: reading a task from a document, writing one,
//! and the next occurrence of a recurring task.

use crate::clock::{
    date_instant, date_pattern, datetime_instant, expand_recurrence, format_instant, fresh_uid,
    instant_text, now_stamp, parse_date, parse_datetime, plain_pattern, utc_pattern,
};
use crate::ical::{
    calendar_text, document_text, entry_models, first_entry, nests_little, parse_components,
    parsed_todo, plain,
    status_keyword,
    todo_add_property, todo_append, todo_append_with, todo_model, todo_new, todo_priority,
    todo_status, todo_value, with_param, property_folds, TodoModel,
};
use crate::model::{Task, TaskStatus, TaskView};
use crate::text::{
    append_chars, can_fold, count_occurrences, folds, is_plain_name, lemma_ascii_concat,
    lemma_decimal_is_ascii, char_is_numeric, chars_of, contains, contains_text, decimal_text, ends_with,
    ends_with_text, find_char, find_last, first_index, holds_text, insert_sorted, is_numeric,
    is_text, last_occurrence, lemma_first_index, parse_unsigned, parse_unsigned_text,
    push_decimal, remove_all, remove_every, same_chars, slice_chars, split_on, split_text,
    starts_with,
    starts_with_text, strictly_sorted, strings_of, text_of, texts_of, to_upper, trim, trim_text,
    uppercase_text,
};
use vstd::prelude::*;
use vstd::string::StringExecFns;

verus! {

/// The status that a keyword stands for; an unknown keyword stands for a task
/// that needs action.
pub open spec fn status_of_keyword(keyword: Seq<char>) -> TaskStatus {
    if keyword == "COMPLETED"@ {
        TaskStatus::Completed
    } else if keyword == "IN-PROCESS"@ {
        TaskStatus::InProcess
    } else if keyword == "CANCELLED"@ {
        TaskStatus::Cancelled
    } else {
        TaskStatus::NeedsAction
    }
}

/// The status that a document's entry gives: that of its keyword, taken
/// without surrounding white space and in upper case.
pub open spec fn status_of(value: Option<Seq<char>>) -> TaskStatus {
    match value {
        Some(v) => status_of_keyword(uppercase_text(trim_text(v))),
        None => TaskStatus::NeedsAction,
    }
}

/// Reads the status from the value of the status property.
pub fn read_status(value: &Option<String>) -> (r: TaskStatus)
    ensures
        r == status_of(value.deep_view()),
{
    match value {
        None => TaskStatus::NeedsAction,
        Some(v) => {
            let keyword = to_upper(&trim(&chars_of(v.as_str())));
            if is_text(&keyword, "COMPLETED") {
                TaskStatus::Completed
            } else if is_text(&keyword, "IN-PROCESS") {
                TaskStatus::InProcess
            } else if is_text(&keyword, "CANCELLED") {
                TaskStatus::Cancelled
            } else {
                TaskStatus::NeedsAction
            }
        },
    }
}

/// The priority that a document's entry gives: the number written there, or
/// 0 where there is none that fits.
pub open spec fn priority_of(value: Option<Seq<char>>) -> u8 {
    match value {
        Some(v) => match parse_unsigned_text(v, 255) {
            Some(n) => n as u8,
            None => 0,
        },
        None => 0,
    }
}

/// Reads the priority from the value of the priority property.
pub fn read_priority(value: &Option<String>) -> (r: u8)
    ensures
        r == priority_of(value.deep_view()),
{
    match value {
        None => 0,
        Some(v) => match parse_unsigned(&chars_of(v.as_str()), 255) {
            Some(n) => n as u8,
            None => 0,
        },
    }
}

/// The number of bytes that a text takes in UTF-8.
pub open spec fn byte_len(s: Seq<char>) -> nat {
    vstd::utf8::encode_utf8(s).len()
}

/// The instant that a date property gives. A value of eight bytes is a date
/// and stands for the start of that day; any other is a date with a time,
/// with or without a closing `Z`.
pub open spec fn instant_of(v: Seq<char>) -> Option<i64> {
    if byte_len(v) == 8 {
        date_instant(v, date_pattern(), 0, 0, 0)
    } else if ends_with_text(v, "Z"@) {
        datetime_instant(v, utc_pattern())
    } else {
        datetime_instant(v, plain_pattern())
    }
}

/// The instant that a due property gives: as for any date property, but a
/// value that is a date stands for the end of that day.
pub open spec fn due_instant_of(v: Seq<char>) -> Option<i64> {
    if byte_len(v) == 8 {
        date_instant(v, date_pattern(), 23, 59, 59)
    } else {
        instant_of(v)
    }
}

/// Reads the instant of a date property.
pub fn read_instant(value: &str) -> (r: Option<i64>)
    ensures
        r == instant_of(value@),
{
    if value.as_bytes().len() == 8 {
        parse_date(value, "%Y%m%d", 0, 0, 0)
    } else if ends_with(&chars_of(value), &chars_of("Z")) {
        parse_datetime(value, "%Y%m%dT%H%M%SZ")
    } else {
        parse_datetime(value, "%Y%m%dT%H%M%S")
    }
}

/// Reads the instant of a due property.
pub fn read_due(value: &str) -> (r: Option<i64>)
    ensures
        r == due_instant_of(value@),
{
    if value.as_bytes().len() == 8 {
        parse_date(value, "%Y%m%d", 23, 59, 59)
    } else {
        read_instant(value)
    }
}

/// Where the reading of a duration stands: the minutes counted so far, the
/// digits not yet used, and whether the time part has begun.
pub ghost struct DurationScan {
    pub minutes: int,
    pub digits: Seq<char>,
    pub in_time: bool,
}

/// The minutes that a number counts for under a designator. Hours and
/// minutes count only in the time part.
pub open spec fn designated_minutes(n: int, designator: char, in_time: bool) -> int {
    if designator == 'D' {
        n * 1440
    } else if designator == 'W' {
        n * 10080
    } else if designator == 'H' && in_time {
        n * 60
    } else if designator == 'M' && in_time {
        n
    } else {
        0
    }
}

/// Reading one more character of a duration. `T` opens the time part, a
/// numeric character joins the pending digits, and any other character uses
/// the pending digits up as a number under that designator; digits that are
/// no number count as 0.
pub open spec fn duration_step(st: DurationScan, c: char) -> DurationScan {
    if c == 'T' {
        DurationScan { in_time: true, ..st }
    } else if is_numeric(c) {
        DurationScan { digits: st.digits.push(c), ..st }
    } else if st.digits.len() > 0 {
        let n = match parse_unsigned_text(st.digits, u32::MAX as int) {
            Some(n) => n,
            None => 0,
        };
        DurationScan {
            minutes: st.minutes + designated_minutes(n, c, st.in_time),
            digits: Seq::empty(),
            in_time: st.in_time,
        }
    } else {
        st
    }
}

/// Reading a whole duration from the left.
pub open spec fn duration_scan(s: Seq<char>) -> DurationScan
    decreases s.len(),
{
    if s.len() == 0 {
        DurationScan { minutes: 0, digits: Seq::empty(), in_time: false }
    } else {
        duration_step(duration_scan(s.drop_last()), s.last())
    }
}

/// The minutes that a duration stands for, at most `u32::MAX`; nothing where
/// it stands for none.
pub open spec fn duration_of(s: Seq<char>) -> Option<u32> {
    let m = duration_scan(s).minutes;
    if m <= 0 {
        None
    } else if m > u32::MAX {
        Some(u32::MAX)
    } else {
        Some(m as u32)
    }
}

/// Reads a duration in minutes.
pub fn read_duration(value: &Vec<char>) -> (r: Option<u32>)
    ensures
        r == duration_of(value@),
{
    let mut minutes: u64 = 0;
    let mut digits: Vec<char> = Vec::new();
    let mut in_time = false;
    let mut i: usize = 0;
    assert(value@.take(0) =~= Seq::<char>::empty());
    while i < value.len()
        invariant
            i <= value.len(),
            duration_scan(value@.take(i as int)).minutes >= 0,
            minutes == if duration_scan(value@.take(i as int)).minutes > u32::MAX {
                u32::MAX as int
            } else {
                duration_scan(value@.take(i as int)).minutes
            },
            digits@ == duration_scan(value@.take(i as int)).digits,
            in_time == duration_scan(value@.take(i as int)).in_time,
        decreases value.len() - i,
    {
        let c = value[i];
        proof {
            assert(value@.take(i + 1).drop_last() =~= value@.take(i as int));
            assert(value@.take(i + 1).last() == c);
        }
        if c == 'T' {
            in_time = true;
        } else if char_is_numeric(c) {
            digits.push(c);
        } else if digits.len() > 0 {
            let n: u64 = match parse_unsigned(&digits, 0xffff_ffff) {
                Some(n) => n,
                None => 0,
            };
            let add: u64 = if c == 'D' {
                n * 1440
            } else if c == 'W' {
                n * 10080
            } else if c == 'H' && in_time {
                n * 60
            } else if c == 'M' && in_time {
                n
            } else {
                0
            };
            minutes = if minutes + add > 0xffff_ffff {
                0xffff_ffff
            } else {
                minutes + add
            };
            digits = Vec::new();
        }
        i += 1;
    }
    assert(value@.take(i as int) =~= value@);
    if minutes > 0 {
        Some(minutes as u32)
    } else {
        None
    }
}

/// The estimated duration that a document's entry gives: that of the
/// estimate property where it stands for one, else that of the duration
/// property.
pub open spec fn estimate_of(estimate: Option<Seq<char>>, duration: Option<Seq<char>>) -> Option<
    u32,
> {
    let first = match estimate {
        Some(v) => duration_of(v),
        None => None,
    };
    if first is Some {
        first
    } else {
        match duration {
            Some(v) => duration_of(v),
            None => None,
        }
    }
}

/// Where the reading of a line of tags stands: the tags that are complete,
/// and the characters of the tag that is being read.
pub ghost struct TagScan {
    pub done: Seq<Seq<char>>,
    pub current: Seq<char>,
}

/// Reading a line of tags from the left. A comma that a backslash precedes
/// belongs to the tag and takes the place of that backslash; any other comma
/// ends the tag; any other character belongs to the tag.
pub open spec fn tag_scan(s: Seq<char>) -> TagScan
    decreases s.len(),
{
    if s.len() == 0 {
        TagScan { done: Seq::empty(), current: Seq::empty() }
    } else {
        let st = tag_scan(s.drop_last());
        if s.last() != ',' {
            TagScan { current: st.current.push(s.last()), ..st }
        } else if s.len() > 1 && s[s.len() - 2] == '\\' {
            TagScan { current: st.current.drop_last().push(','), ..st }
        } else {
            TagScan { done: st.done.push(st.current), current: Seq::empty() }
        }
    }
}

/// The pieces of a line of tags: what stands between the commas that no
/// backslash precedes, with each escaped comma as a plain one.
pub open spec fn tag_pieces(s: Seq<char>) -> Seq<Seq<char>> {
    tag_scan(s).done.push(tag_scan(s).current)
}

/// The tags that a list of pieces gives: each piece without surrounding
/// white space, unless nothing is left of it.
pub open spec fn piece_set(parts: Seq<Seq<char>>) -> Set<Seq<char>>
    decreases parts.len(),
{
    if parts.len() == 0 {
        Set::empty()
    } else {
        let rest = piece_set(parts.drop_last());
        let piece = trim_text(parts.last());
        if piece.len() > 0 {
            rest.insert(piece)
        } else {
            rest
        }
    }
}

/// The tags that a list of category values gives: the pieces of each value.
pub open spec fn category_set(values: Seq<Seq<char>>) -> Set<Seq<char>>
    decreases values.len(),
{
    if values.len() == 0 {
        Set::empty()
    } else {
        category_set(values.drop_last()).union(piece_set(tag_pieces(values.last())))
    }
}

/// While a character other than a comma was read last, the tag that is
/// being read ends with it.
pub proof fn lemma_tag_scan_last(s: Seq<char>)
    requires
        s.len() > 0,
        s.last() != ',',
    ensures
        tag_scan(s).current.len() > 0,
        tag_scan(s).current.last() == s.last(),
{
}

/// Splits a line of tags into its pieces.
pub fn split_tags(value: &Vec<char>) -> (parts: Vec<Vec<char>>)
    ensures
        texts_of(parts@) == tag_pieces(value@),
{
    let mut done: Vec<Vec<char>> = Vec::new();
    let mut current: Vec<char> = Vec::new();
    let mut i: usize = 0;
    assert(value@.take(0) =~= Seq::<char>::empty());
    assert(texts_of(done@) =~= Seq::<Seq<char>>::empty());
    while i < value.len()
        invariant
            i <= value.len(),
            texts_of(done@) == tag_scan(value@.take(i as int)).done,
            current@ == tag_scan(value@.take(i as int)).current,
        decreases value.len() - i,
    {
        let c = value[i];
        let ghost prefix = value@.take(i + 1);
        let ghost before = texts_of(done@);
        proof {
            assert(prefix.drop_last() =~= value@.take(i as int));
            assert(prefix.last() == c);
        }
        if c != ',' {
            current.push(c);
        } else if i > 0 && value[i - 1] == '\\' {
            proof {
                assert(prefix[prefix.len() - 2] == value[i - 1]);
                assert(value@.take(i as int).last() == value[i - 1]);
                lemma_tag_scan_last(value@.take(i as int));
            }
            let _ = current.pop();
            current.push(',');
        } else {
            proof {
                if i > 0 {
                    assert(prefix[prefix.len() - 2] == value[i - 1]);
                }
            }
            done.push(current);
            current = Vec::new();
            assert(texts_of(done@) =~= before.push(tag_scan(value@.take(i as int)).current));
        }
        i += 1;
    }
    assert(value@.take(i as int) =~= value@);
    let ghost before = texts_of(done@);
    done.push(current);
    assert(texts_of(done@) =~= before.push(current@));
    done
}

/// Adds the tags of one category value to a sorted list without repetitions.
pub fn add_categories(list: &mut Vec<Vec<char>>, value: &Vec<char>)
    requires
        strictly_sorted(texts_of(old(list)@)),
    ensures
        strictly_sorted(texts_of(final(list)@)),
        texts_of(final(list)@).to_set() == texts_of(old(list)@).to_set().union(
            piece_set(tag_pieces(value@)),
        ),
{
    let parts = split_tags(value);
    let ghost start = texts_of(list@).to_set();
    let mut i: usize = 0;
    assert(texts_of(parts@).take(0) =~= Seq::<Seq<char>>::empty());
    assert(start.union(Set::<Seq<char>>::empty()) =~= start);
    while i < parts.len()
        invariant
            i <= parts.len(),
            texts_of(parts@) == tag_pieces(value@),
            strictly_sorted(texts_of(list@)),
            texts_of(list@).to_set() == start.union(piece_set(texts_of(parts@).take(i as int))),
        decreases parts.len() - i,
    {
        let piece = trim(&parts[i]);
        proof {
            assert(texts_of(parts@).take(i + 1).drop_last() =~= texts_of(parts@).take(i as int));
            assert(texts_of(parts@).take(i + 1).last() == parts[i as int]@);
        }
        if piece.len() > 0 {
            let ghost before = texts_of(list@).to_set();
            insert_sorted(list, piece);
            proof {
                assert(before.insert(piece@) =~= start.union(
                    piece_set(texts_of(parts@).take(i + 1)),
                ));
            }
        }
        i += 1;
    }
    assert(texts_of(parts@).take(i as int) =~= texts_of(parts@));
}

/// The category value that a line of a document holds. A line counts where
/// it holds a colon and what stands before the first colon is the name of
/// the category property, alone or followed by parameters; what follows
/// that colon is the value.
pub open spec fn category_value(line: Seq<char>) -> Option<Seq<char>> {
    let colon = first_index(line, ':');
    let key = line.take(colon);
    if colon < line.len() && (key == "CATEGORIES"@ || starts_with_text(key, "CATEGORIES;"@)) {
        Some(line.skip(colon + 1))
    } else {
        None
    }
}

/// The category values that a list of lines holds, in order.
pub open spec fn category_values_in(lines: Seq<Seq<char>>) -> Seq<Seq<char>>
    decreases lines.len(),
{
    if lines.len() == 0 {
        Seq::empty()
    } else {
        match category_value(lines.last()) {
            Some(v) => category_values_in(lines.drop_last()).push(v),
            None => category_values_in(lines.drop_last()),
        }
    }
}

/// The lines of a document, with its folded lines joined.
pub open spec fn lines_of(raw: Seq<char>) -> Seq<Seq<char>> {
    split_text(unfolded(raw), '\n')
}

/// Where the search for the first to-do entry of a document stands.
#[derive(Clone, Copy, Debug, PartialEq, Eq, Structural)]
pub enum EntryPhase {
    /// No to-do entry has begun.
    Before,
    /// The first to-do entry has begun and not ended.
    Inside,
    /// The first to-do entry has ended.
    After,
}

/// The search for the first to-do entry: where it stands, how many nested
/// components are open inside the entry, and the lines of the entry itself
/// so far.
pub ghost struct EntryScan {
    pub phase: EntryPhase,
    pub depth: int,
    pub lines: Seq<Seq<char>>,
}

/// The line begins with `word`, in whatever case.
pub open spec fn begins_with_word(line: Seq<char>, word: Seq<char>) -> bool {
    line.len() >= word.len() && uppercase_text(line.take(word.len() as int)) == word
}

/// Reading one more line in search of the first to-do entry. A line opens a
/// component where it begins with `BEGIN:` and closes one where it begins
/// with `END:`, each in whatever case. The entry begins with the first line
/// that opens a component named `VTODO` and ends with the line that closes a
/// component while none is open inside it. A line between the two belongs
/// to the entry itself unless a nested component is open.
pub open spec fn entry_step(st: EntryScan, line: Seq<char>) -> EntryScan {
    match st.phase {
        EntryPhase::Before => if begins_with_word(line, "BEGIN:"@) && trim_text(
            line.skip("BEGIN:"@.len() as int),
        ) == "VTODO"@ {
            EntryScan { phase: EntryPhase::Inside, ..st }
        } else {
            st
        },
        EntryPhase::Inside => if begins_with_word(line, "BEGIN:"@) {
            EntryScan { depth: st.depth + 1, ..st }
        } else if begins_with_word(line, "END:"@) {
            if st.depth <= 0 {
                EntryScan { phase: EntryPhase::After, ..st }
            } else {
                EntryScan { depth: st.depth - 1, ..st }
            }
        } else if st.depth <= 0 {
            EntryScan { lines: st.lines.push(line), ..st }
        } else {
            st
        },
        EntryPhase::After => st,
    }
}

/// Reading a list of lines in search of the first to-do entry.
pub open spec fn entry_scan(lines: Seq<Seq<char>>) -> EntryScan
    decreases lines.len(),
{
    if lines.len() == 0 {
        EntryScan { phase: EntryPhase::Before, depth: 0, lines: Seq::empty() }
    } else {
        entry_step(entry_scan(lines.drop_last()), lines.last())
    }
}

/// A document with all its folded lines joined: every line break that a
/// blank or a tab follows is taken out together with that character.
pub open spec fn unfolded_fully(raw: Seq<char>) -> Seq<char> {
    remove_all(remove_all(unfolded(raw), "\r\n\t"@), "\n\t"@)
}

/// The lines of the first to-do entry of a document, without those of the
/// components nested in it.
pub open spec fn entry_lines(raw: Seq<char>) -> Seq<Seq<char>> {
    entry_scan(split_text(unfolded_fully(raw), '\n')).lines
}

/// The category values that the first to-do entry of a document holds.
pub open spec fn category_values(raw: Seq<char>) -> Seq<Seq<char>> {
    category_values_in(entry_lines(raw))
}

/// The parent and the blocking tasks that a document names.
pub ghost struct Links {
    pub parent: Option<Seq<char>>,
    pub dependencies: Seq<Seq<char>>,
}

/// Reading one more line of a document for links. A line counts where it
/// begins with the name of the link property and holds a colon: what stands
/// before the first colon is the key, what follows it, without surrounding
/// white space, the linked task. A key that marks a dependency adds the task
/// to the blocking tasks unless it is among them; a key without a relation
/// type, or with that of a parent, makes the task the parent.
pub open spec fn link_step(st: Links, line: Seq<char>) -> Links {
    let colon = first_index(line, ':');
    if starts_with_text(line, "RELATED-TO"@) && colon < line.len() {
        let key = uppercase_text(line.take(colon));
        let target = trim_text(line.skip(colon + 1));
        if contains_text(key, "RELTYPE=DEPENDS-ON"@) {
            if st.dependencies.contains(target) {
                st
            } else {
                Links { dependencies: st.dependencies.push(target), ..st }
            }
        } else if !contains_text(key, "RELTYPE="@) || contains_text(key, "RELTYPE=PARENT"@) {
            Links { parent: Some(target), ..st }
        } else {
            st
        }
    } else {
        st
    }
}

/// Reading a list of lines for links, from the first line on.
pub open spec fn links_in(lines: Seq<Seq<char>>) -> Links
    decreases lines.len(),
{
    if lines.len() == 0 {
        Links { parent: None, dependencies: Seq::empty() }
    } else {
        link_step(links_in(lines.drop_last()), lines.last())
    }
}

/// A document with its folded lines joined: every line break that a blank
/// follows is taken out together with that blank.
pub open spec fn unfolded(raw: Seq<char>) -> Seq<char> {
    remove_all(remove_all(raw, "\r\n "@), "\n "@)
}

/// The links that a document names.
pub open spec fn links_of(raw: Seq<char>) -> Links {
    links_in(lines_of(raw))
}

/// Splits a document into its lines, with its folded lines joined.
pub fn document_lines(raw: &str) -> (lines: Vec<Vec<char>>)
    ensures
        texts_of(lines@) == lines_of(raw@),
{
    let joined = remove_every(&remove_every(&chars_of(raw), &chars_of("\r\n ")), &chars_of("\n "));
    split_on(&joined, '\n')
}

/// Whether a line begins with `word`, in whatever case.
pub fn begins_with(line: &Vec<char>, word: &Vec<char>) -> (r: bool)
    ensures
        r == begins_with_word(line@, word@),
{
    if line.len() < word.len() {
        return false;
    }
    let head = to_upper(&slice_chars(line, 0, word.len()));
    assert(line@.subrange(0, word@.len() as int) =~= line@.take(word@.len() as int));
    same_chars(&head, word)
}

/// The lines of the first to-do entry of a document.
pub fn first_entry_lines(raw: &str) -> (lines: Vec<Vec<char>>)
    ensures
        texts_of(lines@) == entry_lines(raw@),
{
    let spaces = remove_every(&remove_every(&chars_of(raw), &chars_of("\r\n ")), &chars_of("\n "));
    let joined = remove_every(&remove_every(&spaces, &chars_of("\r\n\t")), &chars_of("\n\t"));
    let all = split_on(&joined, '\n');
    let begin = chars_of("BEGIN:");
    let end = chars_of("END:");
    let mut phase = EntryPhase::Before;
    let mut depth: usize = 0;
    let mut lines: Vec<Vec<char>> = Vec::new();
    let mut i: usize = 0;
    assert(texts_of(all@).take(0) =~= Seq::<Seq<char>>::empty());
    assert(texts_of(lines@) =~= Seq::<Seq<char>>::empty());
    while i < all.len()
        invariant
            i <= all.len(),
            begin@ == "BEGIN:"@,
            end@ == "END:"@,
            depth <= i,
            phase == entry_scan(texts_of(all@).take(i as int)).phase,
            depth == entry_scan(texts_of(all@).take(i as int)).depth,
            texts_of(lines@) == entry_scan(texts_of(all@).take(i as int)).lines,
        decreases all.len() - i,
    {
        let line = &all[i];
        let ghost before = texts_of(lines@);
        proof {
            assert(texts_of(all@).take(i + 1).drop_last() =~= texts_of(all@).take(i as int));
            assert(texts_of(all@).take(i + 1).last() == line@);
        }
        let opens = begins_with(line, &begin);
        match phase {
            EntryPhase::Before => {
                if opens {
                    let name = trim(&slice_chars(line, begin.len(), line.len()));
                    assert(line@.subrange(begin@.len() as int, line@.len() as int) =~= line@.skip(
                        begin@.len() as int,
                    ));
                    if is_text(&name, "VTODO") {
                        phase = EntryPhase::Inside;
                    }
                }
            },
            EntryPhase::Inside => {
                if opens {
                    depth += 1;
                } else if begins_with(line, &end) {
                    if depth == 0 {
                        phase = EntryPhase::After;
                    } else {
                        depth -= 1;
                    }
                } else if depth == 0 {
                    lines.push(slice_chars(line, 0, line.len()));
                    assert(line@.subrange(0, line@.len() as int) =~= line@);
                    assert(texts_of(lines@) =~= before.push(line@));
                }
            },
            EntryPhase::After => {},
        }
        i += 1;
    }
    assert(texts_of(all@).take(i as int) =~= texts_of(all@));
    lines
}

/// Reads the links of a document: the parent and the blocking tasks.
pub fn read_links(raw: &str) -> (r: (Option<String>, Vec<String>))
    ensures
        r.0.deep_view() == links_of(raw@).parent,
        r.1.deep_view() == links_of(raw@).dependencies,
{
    let lines = document_lines(raw);
    let name = chars_of("RELATED-TO");
    let depends = chars_of("RELTYPE=DEPENDS-ON");
    let reltype = chars_of("RELTYPE=");
    let parent_type = chars_of("RELTYPE=PARENT");
    let mut parent: Option<String> = None;
    let mut dependencies: Vec<String> = Vec::new();
    let mut i: usize = 0;
    assert(texts_of(lines@).take(0) =~= Seq::<Seq<char>>::empty());
    assert(dependencies.deep_view() =~= Seq::<Seq<char>>::empty());
    while i < lines.len()
        invariant
            i <= lines.len(),
            name@ == "RELATED-TO"@,
            depends@ == "RELTYPE=DEPENDS-ON"@,
            reltype@ == "RELTYPE="@,
            parent_type@ == "RELTYPE=PARENT"@,
            parent.deep_view() == links_in(texts_of(lines@).take(i as int)).parent,
            dependencies.deep_view() == links_in(texts_of(lines@).take(i as int)).dependencies,
        decreases lines.len() - i,
    {
        let line = &lines[i];
        proof {
            assert(texts_of(lines@).take(i + 1).drop_last() =~= texts_of(lines@).take(i as int));
            assert(texts_of(lines@).take(i + 1).last() == line@);
            assert(line@.skip(0) =~= line@);
            lemma_first_index(line@, ':');
        }
        let colon = find_char(line, ':', 0);
        if starts_with(line, &name) && colon < line.len() {
            let key = to_upper(&slice_chars(line, 0, colon));
            let target = trim(&slice_chars(line, colon + 1, line.len()));
            proof {
                assert(line@.subrange(0, colon as int) =~= line@.take(colon as int));
                assert(line@.subrange(colon + 1, line@.len() as int) =~= line@.skip(colon + 1));
            }
            if contains(&key, &depends) {
                if !holds_text(&dependencies, &target) {
                    let ghost before = dependencies.deep_view();
                    dependencies.push(text_of(&target));
                    assert(dependencies.deep_view() =~= before.push(target@));
                }
            } else if !contains(&key, &reltype) || contains(&key, &parent_type) {
                parent = Some(text_of(&target));
            }
        }
        i += 1;
    }
    assert(texts_of(lines@).take(i as int) =~= texts_of(lines@));
    (parent, dependencies)
}

/// The text of an optional value, or a default where there is none.
pub open spec fn value_or(value: Option<Seq<char>>, default: Seq<char>) -> Seq<char> {
    match value {
        Some(v) => v,
        None => default,
    }
}

/// Why a document gives no task, where it gives none: after `Parse: ` the
/// reader's complaint or that the document opens too many components; or
/// that the document holds no to-do entry.
pub open spec fn document_error(raw: Seq<char>) -> Option<Seq<char>> {
    match parsed_todo(raw) {
        Err(e) => Some("Parse: "@ + e),
        Ok(None) => Some("No VTODO"@),
        Ok(Some(_)) => None,
    }
}

/// `t` is the task that the entry `m` of the document `raw` describes, found
/// at `href` with version `etag` in the calendar `calendar_href`.
pub open spec fn is_task_of(
    t: TaskView,
    m: TodoModel,
    raw: Seq<char>,
    etag: Seq<char>,
    href: Seq<char>,
    calendar_href: Seq<char>,
) -> bool {
    &&& t.uid == value_or(m.value("UID"@), ""@)
    &&& t.summary == value_or(m.value("SUMMARY"@), "No Title"@)
    &&& t.description == value_or(m.value("DESCRIPTION"@), ""@)
    &&& t.status == status_of(m.value("STATUS"@))
    &&& t.priority == priority_of(m.value("PRIORITY"@))
    &&& t.due == match m.value("DUE"@) {
        Some(v) => due_instant_of(v),
        None => None,
    }
    &&& t.dtstart == match m.value("DTSTART"@) {
        Some(v) => instant_of(v),
        None => None,
    }
    &&& t.rrule == m.value("RRULE"@)
    &&& t.estimated_duration == estimate_of(
        m.value("X-ESTIMATED-DURATION"@),
        m.value("DURATION"@),
    )
    &&& strictly_sorted(t.categories)
    &&& t.categories.to_set() == category_set(category_values(raw))
    &&& t.parent_uid == links_of(raw).parent
    &&& t.dependencies == links_of(raw).dependencies
    &&& t.etag == etag
    &&& t.href == href
    &&& t.calendar_href == calendar_href
    &&& t.depth == 0
}

/// Reads the duration that an optional property value stands for.
fn read_optional_duration(value: &Option<String>) -> (r: Option<u32>)
    ensures
        r == match value.deep_view() {
            Some(v) => duration_of(v),
            None => None,
        },
{
    match value {
        Some(v) => read_duration(&chars_of(v.as_str())),
        None => None,
    }
}

/// Reads the tags of a document from the lines of its first to-do entry,
/// sorted and each once.
pub fn read_categories(raw: &str) -> (r: Vec<String>)
    ensures
        strictly_sorted(r.deep_view()),
        r.deep_view().to_set() == category_set(category_values(raw@)),
{
    let lines = first_entry_lines(raw);
    let name = chars_of("CATEGORIES");
    let with_parameters = chars_of("CATEGORIES;");
    let mut list: Vec<Vec<char>> = Vec::new();
    let mut i: usize = 0;
    assert(texts_of(lines@).take(0) =~= Seq::<Seq<char>>::empty());
    assert(texts_of(list@).to_set() =~= Set::<Seq<char>>::empty());
    while i < lines.len()
        invariant
            i <= lines.len(),
            name@ == "CATEGORIES"@,
            with_parameters@ == "CATEGORIES;"@,
            strictly_sorted(texts_of(list@)),
            texts_of(list@).to_set() == category_set(
                category_values_in(texts_of(lines@).take(i as int)),
            ),
        decreases lines.len() - i,
    {
        let line = &lines[i];
        let ghost before = category_values_in(texts_of(lines@).take(i as int));
        proof {
            assert(texts_of(lines@).take(i + 1).drop_last() =~= texts_of(lines@).take(i as int));
            assert(texts_of(lines@).take(i + 1).last() == line@);
            assert(line@.skip(0) =~= line@);
            lemma_first_index(line@, ':');
        }
        let colon = find_char(line, ':', 0);
        if colon < line.len() {
            let key = slice_chars(line, 0, colon);
            assert(key@ =~= line@.take(colon as int));
            if same_chars(&key, &name) || starts_with(&key, &with_parameters) {
                let value = slice_chars(line, colon + 1, line.len());
                proof {
                    assert(value@ =~= line@.skip(colon + 1));
                    assert(before.push(value@).drop_last() =~= before);
                }
                add_categories(&mut list, &value);
            }
        }
        i += 1;
    }
    assert(texts_of(lines@).take(i as int) =~= texts_of(lines@));
    strings_of(&list)
}

/// Whether a document opens few enough components to be handed to the
/// reader.
pub fn opens_few_components(raw: &str) -> (r: bool)
    ensures
        r == nests_little(raw@),
{
    count_occurrences(&to_upper(&chars_of(raw)), &chars_of("BEGIN:")) <= crate::ical::MAX_COMPONENTS
}

/// The place of the first to-do entry among the components of a document.
fn first_todo(components: &Vec<Option<icalendar::Todo>>) -> (r: Option<usize>)
    ensures
        match r {
            Some(at) => at < components.len() && components[at as int] is Some && first_entry(
                entry_models(components@),
            ) == Some(todo_model(components[at as int]->0)),
            None => first_entry(entry_models(components@)) is None,
        },
{
    let ghost models = entry_models(components@);
    let mut i: usize = 0;
    assert(models.skip(0) =~= models);
    while i < components.len()
        invariant
            i <= components.len(),
            models == entry_models(components@),
            first_entry(models) == first_entry(models.skip(i as int)),
        decreases components.len() - i,
    {
        assert(models.skip(i as int)[0] == models[i as int]);
        if components[i].is_some() {
            return Some(i);
        }
        assert(models.skip(i as int).skip(1) =~= models.skip(i + 1));
        i += 1;
    }
    None
}

impl Task {
    /// Reads a task from a calendar document. The task takes its identifier,
    /// texts, status, priority, dates, recurrence rule and duration from the
    /// document's first to-do entry as the document reader gives it, its tags
    /// from the lines of that entry, where an escaped comma can still be told
    /// from a separating one, its links from the document's lines, and its
    /// place and version from the arguments. A document that
    /// cannot be read, or that holds no to-do entry, gives an error.
    pub fn from_ics(raw_ics: &str, etag: String, href: String, calendar_href: String) -> (r:
        Result<Task, String>)
        ensures
            match r {
                Ok(t) => parsed_todo(raw_ics@) matches Ok(Some(m)) && is_task_of(
                    t@,
                    m,
                    raw_ics@,
                    etag@,
                    href@,
                    calendar_href@,
                ),
                Err(e) => document_error(raw_ics@) == Some(e@),
            },
    {
        if !opens_few_components(raw_ics) {
            return Err("Parse: ".to_owned().concat("too many components"));
        }
        let components = match parse_components(raw_ics) {
            Err(e) => {
                return Err("Parse: ".to_owned().concat(e.as_str()));
            },
            Ok(components) => components,
        };
        let todo = match first_todo(&components) {
            None => {
                return Err("No VTODO".to_owned());
            },
            Some(at) => components[at].as_ref().unwrap(),
        };
        let summary = match todo_value(todo, "SUMMARY") {
            Some(v) => v,
            None => "No Title".to_owned(),
        };
        let description = match todo_value(todo, "DESCRIPTION") {
            Some(v) => v,
            None => "".to_owned(),
        };
        let uid = match todo_value(todo, "UID") {
            Some(v) => v,
            None => "".to_owned(),
        };
        let status = read_status(&todo_value(todo, "STATUS"));
        let priority = read_priority(&todo_value(todo, "PRIORITY"));
        let due = match todo_value(todo, "DUE") {
            Some(v) => read_due(v.as_str()),
            None => None,
        };
        let dtstart = match todo_value(todo, "DTSTART") {
            Some(v) => read_instant(v.as_str()),
            None => None,
        };
        let rrule = todo_value(todo, "RRULE");
        let estimate = read_optional_duration(&todo_value(todo, "X-ESTIMATED-DURATION"));
        let estimated_duration = if estimate.is_some() {
            estimate
        } else {
            read_optional_duration(&todo_value(todo, "DURATION"))
        };
        let categories = read_categories(raw_ics);
        let (parent_uid, dependencies) = read_links(raw_ics);
        Ok(
            Task {
                uid,
                summary,
                description,
                status,
                estimated_duration,
                due,
                dtstart,
                priority,
                parent_uid,
                dependencies,
                etag,
                href,
                calendar_href,
                categories,
                depth: 0,
                rrule,
            },
        )
    }
}

/// A duration in minutes as a document writes it: in whole days where the
/// minutes make whole days, else in whole hours where they make whole hours,
/// else in minutes.
pub open spec fn duration_text(minutes: u32) -> Seq<char> {
    if minutes % 1440 == 0 {
        "P"@ + decimal_text(minutes as int / 1440) + "D"@
    } else if minutes % 60 == 0 {
        "PT"@ + decimal_text(minutes as int / 60) + "H"@
    } else {
        "PT"@ + decimal_text(minutes as int) + "M"@
    }
}

/// Writes a duration in minutes.
pub fn format_iso_duration(minutes: u32) -> (r: String)
    ensures
        r@ == duration_text(minutes),
{
    let mut out: Vec<char> = Vec::new();
    if minutes % 1440 == 0 {
        append_chars(&mut out, &chars_of("P"));
        push_decimal(&mut out, (minutes / 1440) as u64);
        append_chars(&mut out, &chars_of("D"));
        assert(out@ =~= duration_text(minutes));
    } else if minutes % 60 == 0 {
        append_chars(&mut out, &chars_of("PT"));
        push_decimal(&mut out, (minutes / 60) as u64);
        append_chars(&mut out, &chars_of("H"));
        assert(out@ =~= duration_text(minutes));
    } else {
        append_chars(&mut out, &chars_of("PT"));
        push_decimal(&mut out, minutes as u64);
        append_chars(&mut out, &chars_of("M"));
        assert(out@ =~= duration_text(minutes));
    }
    text_of(&out)
}

/// A tag with a backslash put before each of its commas.
pub open spec fn escaped_tag(tag: Seq<char>) -> Seq<char>
    decreases tag.len(),
{
    if tag.len() == 0 {
        Seq::empty()
    } else if tag.last() == ',' {
        escaped_tag(tag.drop_last()) + "\\,"@
    } else {
        escaped_tag(tag.drop_last()).push(tag.last())
    }
}

/// The tags, each escaped, with a comma between neighbours.
pub open spec fn joined_tags(tags: Seq<Seq<char>>) -> Seq<char>
    decreases tags.len(),
{
    if tags.len() == 0 {
        Seq::empty()
    } else if tags.len() == 1 {
        escaped_tag(tags[0])
    } else {
        joined_tags(tags.drop_last()) + ","@ + escaped_tag(tags.last())
    }
}

/// A document with the line of tags put before the last closing line of a
/// to-do entry. A task without tags, or a document without such a line, is
/// left as it is.
pub open spec fn with_categories(doc: Seq<char>, tags: Seq<Seq<char>>) -> Seq<char> {
    if tags.len() == 0 {
        doc
    } else {
        match last_occurrence(doc, "END:VTODO"@) {
            Some(at) => doc.take(at) + "CATEGORIES:"@ + joined_tags(tags) + "\r\n"@ + doc.skip(at),
            None => doc,
        }
    }
}

/// A tag that is not empty ends, escaped, as it ends plain.
pub proof fn lemma_escaped_last(tag: Seq<char>)
    requires
        tag.len() > 0,
    ensures
        escaped_tag(tag).len() > 0,
        escaped_tag(tag).last() == tag.last(),
{
    reveal_strlit("\\,");
}

/// Reading an escaped tag gives the tag: behind any text, the characters of
/// an escaped tag complete no tag and join the tag that is being read as the
/// characters of the tag itself.
pub proof fn lemma_scan_escaped(before: Seq<char>, tag: Seq<char>)
    ensures
        tag_scan(before + escaped_tag(tag)) == (TagScan {
            done: tag_scan(before).done,
            current: tag_scan(before).current + tag,
        }),
    decreases tag.len(),
{
    reveal_strlit("\\,");
    if tag.len() == 0 {
        assert(before + escaped_tag(tag) =~= before);
        assert(tag_scan(before).current + tag =~= tag_scan(before).current);
    } else {
        let rest = tag.drop_last();
        let read = before + escaped_tag(rest);
        lemma_scan_escaped(before, rest);
        if tag.last() == ',' {
            let slashed = read.push('\\');
            let all = slashed.push(',');
            assert(before + escaped_tag(tag) =~= all);
            assert(all.drop_last() =~= slashed);
            assert(slashed.drop_last() =~= read);
            assert(tag_scan(slashed).current == tag_scan(read).current.push('\\'));
            assert(all[all.len() - 2] == '\\');
            assert(tag_scan(slashed).current.drop_last() =~= tag_scan(read).current);
            assert((tag_scan(before).current + rest).push(',') =~= tag_scan(before).current + tag);
        } else {
            let all = read.push(tag.last());
            assert(before + escaped_tag(tag) =~= all);
            assert(all.drop_last() =~= read);
            assert((tag_scan(before).current + rest).push(tag.last()) =~= tag_scan(
                before,
            ).current + tag);
        }
    }
}

/// The tags can be written and read back: none is empty, none ends with a
/// backslash, and none has white space around it.
pub open spec fn tags_are_plain(tags: Seq<Seq<char>>) -> bool {
    forall|i: int|
        0 <= i < tags.len() ==> (#[trigger] tags[i]).len() > 0 && tags[i].last() != '\\'
            && trim_text(tags[i]) == tags[i]
}

/// A line of tags ends as its last tag ends.
pub proof fn lemma_joined_last(tags: Seq<Seq<char>>)
    requires
        tags.len() > 0,
        tags.last().len() > 0,
    ensures
        joined_tags(tags).len() > 0,
        joined_tags(tags).last() == tags.last().last(),
{
    lemma_escaped_last(tags.last());
    if tags.len() == 1 {
        assert(tags[0] == tags.last());
    }
}

/// Reading the line of some tags gives the tags in order: all but the last
/// are complete, and the last is being read.
pub proof fn lemma_scan_joined(tags: Seq<Seq<char>>)
    requires
        tags.len() > 0,
        tags_are_plain(tags),
    ensures
        tag_scan(joined_tags(tags)) == (TagScan { done: tags.drop_last(), current: tags.last() }),
    decreases tags.len(),
{
    reveal_strlit(",");
    let empty = Seq::<char>::empty();
    if tags.len() == 1 {
        lemma_scan_escaped(empty, tags[0]);
        assert(empty + escaped_tag(tags[0]) =~= escaped_tag(tags[0]));
        assert(empty + tags[0] =~= tags[0]);
        assert(tags.drop_last() =~= Seq::<Seq<char>>::empty());
    } else {
        let first = tags.drop_last();
        assert forall|i: int| 0 <= i < first.len() implies (#[trigger] first[i]).len() > 0
            && first[i].last() != '\\' && trim_text(first[i]) == first[i] by {
            assert(first[i] == tags[i]);
        }
        lemma_scan_joined(first);
        lemma_joined_last(first);
        let line = joined_tags(first);
        let closed = line.push(',');
        assert(line + ","@ =~= closed);
        assert(closed.drop_last() =~= line);
        assert(closed[closed.len() - 2] == line.last());
        assert(first.last() == tags[tags.len() - 2]);
        assert(tag_scan(closed) == (TagScan {
            done: first.drop_last().push(first.last()),
            current: empty,
        }));
        assert(first.drop_last().push(first.last()) =~= first);
        lemma_scan_escaped(closed, tags.last());
        assert(empty + tags.last() =~= tags.last());
    }
}

/// Pieces that are tags as they stand give themselves as tags.
pub proof fn lemma_piece_set_of_plain(tags: Seq<Seq<char>>)
    requires
        tags_are_plain(tags),
    ensures
        piece_set(tags) == tags.to_set(),
    decreases tags.len(),
{
    if tags.len() == 0 {
        assert(tags.to_set() =~= Set::<Seq<char>>::empty());
    } else {
        let first = tags.drop_last();
        assert forall|i: int| 0 <= i < first.len() implies (#[trigger] first[i]).len() > 0
            && first[i].last() != '\\' && trim_text(first[i]) == first[i] by {
            assert(first[i] == tags[i]);
        }
        lemma_piece_set_of_plain(first);
        assert(tags.last() == tags[tags.len() - 1]);
        assert forall|x: Seq<char>| tags.to_set().contains(x) == first.to_set().insert(
            tags.last(),
        ).contains(x) by {
            if tags.contains(x) {
                let k = choose|k: int| 0 <= k < tags.len() && tags[k] == x;
                if k < first.len() {
                    assert(first[k] == x);
                }
            }
            if first.contains(x) {
                let k = choose|k: int| 0 <= k < first.len() && first[k] == x;
                assert(tags[k] == x);
            }
        }
        assert(tags.to_set() =~= first.to_set().insert(tags.last()));
    }
}

/// Tags survive writing and reading: the line written for some tags, read
/// back, gives those tags as a set. This holds of tags that hold commas and
/// backslashes too, as long as no tag is empty, ends with a backslash or has
/// white space around it.
pub proof fn lemma_tags_round_trip(tags: Seq<Seq<char>>)
    requires
        tags_are_plain(tags),
    ensures
        piece_set(tag_pieces(joined_tags(tags))) == tags.to_set(),
        category_set(seq![joined_tags(tags)]) == tags.to_set(),
{
    let line = joined_tags(tags);
    if tags.len() == 0 {
        let pieces = tag_pieces(line);
        assert(pieces =~= seq![Seq::<char>::empty()]);
        assert(pieces.drop_last() =~= Seq::<Seq<char>>::empty());
        let none = Seq::<char>::empty();
        assert(crate::text::trim_start_text(none) == none);
        assert(crate::text::trim_end_text(none) == none);
        assert(pieces.last() == none);
        assert(piece_set(pieces.drop_last()) == Set::<Seq<char>>::empty());
        assert(piece_set(pieces) =~= Set::<Seq<char>>::empty());
        assert(tags.to_set() =~= Set::<Seq<char>>::empty());
    } else {
        lemma_scan_joined(tags);
        assert(tags.drop_last().push(tags.last()) =~= tags);
        lemma_piece_set_of_plain(tags);
    }
    let values = seq![line];
    assert(values.drop_last() =~= Seq::<Seq<char>>::empty());
    assert(values.last() == line);
    assert(category_set(values.drop_last()) == Set::<Seq<char>>::empty());
    assert(category_set(values) =~= piece_set(tag_pieces(line)));
}

/// The line that holds the tags of a written document is read as a category
/// line, and its value is what was written behind the name and the colon.
pub proof fn lemma_category_line(value: Seq<char>)
    ensures
        category_value("CATEGORIES:"@ + value) == Some(value),
{
    reveal_strlit("CATEGORIES:");
    reveal_strlit("CATEGORIES");
    let name = "CATEGORIES:"@;
    let line = name + value;
    lemma_first_index(line, ':');
    let colon = first_index(line, ':');
    assert(line[10] == ':');
    assert(colon == 10) by {
        if colon < 10 {
            assert(line[colon] == name[colon]);
        }
    }
    assert(line.take(10) =~= "CATEGORIES"@);
    assert(line.skip(11) =~= value);
}

/// Appends a tag, escaped, to `out`.
fn push_escaped_tag(out: &mut Vec<char>, tag: &Vec<char>)
    ensures
        final(out)@ == old(out)@ + escaped_tag(tag@),
{
    let comma = chars_of("\\,");
    let mut i: usize = 0;
    assert(tag@.take(0) =~= Seq::<char>::empty());
    assert(out@ =~= old(out)@ + escaped_tag(tag@.take(0)));
    while i < tag.len()
        invariant
            i <= tag.len(),
            comma@ == "\\,"@,
            out@ == old(out)@ + escaped_tag(tag@.take(i as int)),
        decreases tag.len() - i,
    {
        let ghost before = out@;
        proof {
            assert(tag@.take(i + 1).drop_last() =~= tag@.take(i as int));
            assert(tag@.take(i + 1).last() == tag[i as int]);
        }
        if tag[i] == ',' {
            append_chars(out, &comma);
            assert(out@ =~= old(out)@ + escaped_tag(tag@.take(i + 1)));
        } else {
            out.push(tag[i]);
            assert(out@ =~= old(out)@ + escaped_tag(tag@.take(i + 1)));
        }
        i += 1;
    }
    assert(tag@.take(i as int) =~= tag@);
}

/// Puts the line of tags into a document.
pub fn insert_categories(doc: &str, tags: &Vec<String>) -> (r: String)
    ensures
        r@ == with_categories(doc@, tags.deep_view()),
{
    let text = chars_of(doc);
    if tags.len() == 0 {
        return text_of(&text);
    }
    let mut line = chars_of("CATEGORIES:");
    let mut i: usize = 0;
    assert(tags.deep_view().take(0) =~= Seq::<Seq<char>>::empty());
    assert(line@ =~= "CATEGORIES:"@ + joined_tags(tags.deep_view().take(0)));
    while i < tags.len()
        invariant
            i <= tags.len(),
            line@ == "CATEGORIES:"@ + joined_tags(tags.deep_view().take(i as int)),
        decreases tags.len() - i,
    {
        let ghost prefix = tags.deep_view().take(i + 1);
        proof {
            assert(prefix.drop_last() =~= tags.deep_view().take(i as int));
            assert(prefix.last() == tags[i as int]@);
        }
        if i > 0 {
            append_chars(&mut line, &chars_of(","));
        }
        push_escaped_tag(&mut line, &chars_of(tags[i].as_str()));
        proof {
            if i == 0 {
                assert(prefix[0] == tags[0]@);
                assert(joined_tags(prefix.drop_last()) =~= Seq::<char>::empty());
            }
            assert(line@ =~= "CATEGORIES:"@ + joined_tags(prefix));
        }
        i += 1;
    }
    assert(tags.deep_view().take(i as int) =~= tags.deep_view());
    match find_last(&text, &chars_of("END:VTODO")) {
        None => text_of(&text),
        Some(at) => {
            let mut out = slice_chars(&text, 0, at);
            append_chars(&mut out, &line);
            append_chars(&mut out, &chars_of("\r\n"));
            append_chars(&mut out, &slice_chars(&text, at, text.len()));
            proof {
                assert(text@.subrange(0, at as int) =~= text@.take(at as int));
                assert(text@.subrange(at as int, text@.len() as int) =~= text@.skip(at as int));
                assert(out@ =~= with_categories(doc@, tags.deep_view()));
            }
            text_of(&out)
        },
    }
}

/// The entry with the single property `key` set where there is a value.
pub open spec fn set_optional(m: TodoModel, key: Seq<char>, value: Option<Seq<char>>) -> TodoModel {
    match value {
        Some(v) => m.set(key, v),
        None => m,
    }
}

/// An optional instant as a document writes it.
pub open spec fn optional_instant_text(instant: Option<i64>) -> Option<Seq<char>> {
    match instant {
        Some(secs) => instant_text(secs),
        None => None,
    }
}

/// The entry with one link to each blocking task added, in order.
pub open spec fn with_dependencies(m: TodoModel, dependencies: Seq<Seq<char>>) -> TodoModel
    decreases dependencies.len(),
{
    if dependencies.len() == 0 {
        m
    } else {
        with_dependencies(m, dependencies.drop_last()).append(
            "RELATED-TO"@,
            with_param(dependencies.last(), "RELTYPE"@, "DEPENDS-ON"@),
        )
    }
}

/// The priority as the entry stores it.
pub open spec fn stored_priority(priority: u8) -> int {
    if priority <= 10 {
        priority as int
    } else {
        10
    }
}

/// Reading back the priority that an entry stores gives the priority, or 10
/// where it is larger.
pub proof fn lemma_priority_round_trip(priority: u8)
    ensures
        priority_of(Some(decimal_text(stored_priority(priority)))) == stored_priority(priority),
{
    crate::text::lemma_decimal_round_trip(stored_priority(priority));
    let t = decimal_text(stored_priority(priority));
    assert(crate::text::unsigned_digits(t) == t);
}

/// The single properties of the entry that describes a task, written at the
/// time `stamp`: identifier, summary, description unless empty, time stamp,
/// status, start and due dates where the task has them, the estimated
/// duration (as an estimate beside a due date, as the duration without one),
/// the priority unless 0, and the recurrence rule.
pub open spec fn entry_properties(t: TaskView, stamp: Seq<char>) -> TodoModel {
    let m = TodoModel::empty().set("UID"@, t.uid).set("SUMMARY"@, t.summary);
    let m = if t.description.len() > 0 {
        m.set("DESCRIPTION"@, t.description)
    } else {
        m
    };
    let m = m.set("DTSTAMP"@, stamp).set("STATUS"@, status_keyword(t.status));
    let m = set_optional(m, "DTSTART"@, optional_instant_text(t.dtstart));
    let m = set_optional(m, "DUE"@, optional_instant_text(t.due));
    let m = match t.estimated_duration {
        Some(minutes) => if t.due is Some {
            m.set("X-ESTIMATED-DURATION"@, duration_text(minutes))
        } else {
            m.set("DURATION"@, duration_text(minutes))
        },
        None => m,
    };
    let m = if t.priority > 0 {
        m.set("PRIORITY"@, decimal_text(stored_priority(t.priority)))
    } else {
        m
    };
    set_optional(m, "RRULE"@, t.rrule)
}

/// The entry that describes a task: its single properties, a link to the
/// parent where it has one, and a link to each blocking task.
pub open spec fn entry_of(t: TaskView, stamp: Seq<char>) -> TodoModel {
    let m = entry_properties(t, stamp);
    let m = match t.parent_uid {
        Some(parent) => m.append("RELATED-TO"@, plain(parent)),
        None => m,
    };
    with_dependencies(m, t.dependencies)
}

/// The document that describes a task, written at the time `stamp`.
pub open spec fn ics_document(t: TaskView, stamp: Seq<char>) -> Seq<char> {
    with_categories(document_text(entry_of(t, stamp)), t.categories)
}

/// Appending links keeps the single properties and the nested components.
pub proof fn lemma_with_dependencies_keeps(m: TodoModel, dependencies: Seq<Seq<char>>)
    ensures
        with_dependencies(m, dependencies).properties == m.properties,
        with_dependencies(m, dependencies).children == m.children,
    decreases dependencies.len(),
{
    if dependencies.len() > 0 {
        lemma_with_dependencies_keeps(m, dependencies.drop_last());
    }
}

/// The task can be written as a document: each of its texts, and the time
/// stamp, can stand in a folded line.
pub open spec fn can_be_written(t: TaskView, stamp: Seq<char>) -> bool {
    &&& folds(t.uid)
    &&& folds(t.summary)
    &&& folds(t.description)
    &&& folds(stamp)
    &&& optional_instant_text(t.dtstart) matches Some(text) ==> folds(text)
    &&& optional_instant_text(t.due) matches Some(text) ==> folds(text)
    &&& t.rrule matches Some(rule) ==> folds(rule)
    &&& t.parent_uid matches Some(parent) ==> folds(parent)
    &&& forall|i: int| 0 <= i < t.dependencies.len() ==> folds(#[trigger] t.dependencies[i])
}

/// The text of the failure to write a task that cannot be written.
pub open spec fn unwritable() -> Seq<char> {
    "Cannot write the task: a text holds too much white space"@
}

/// The names that the entry of a task uses are plain.
pub proof fn lemma_names_are_plain()
    ensures
        is_plain_name("UID"@),
        is_plain_name("SUMMARY"@),
        is_plain_name("DESCRIPTION"@),
        is_plain_name("DTSTAMP"@),
        is_plain_name("STATUS"@),
        is_plain_name("DTSTART"@),
        is_plain_name("DUE"@),
        is_plain_name("X-ESTIMATED-DURATION"@),
        is_plain_name("DURATION"@),
        is_plain_name("PRIORITY"@),
        is_plain_name("RRULE"@),
        is_plain_name("RELATED-TO"@),
        is_plain_name("RELTYPE"@),
        is_plain_name("DEPENDS-ON"@),
{
    reveal_strlit("UID");
    reveal_strlit("SUMMARY");
    reveal_strlit("DESCRIPTION");
    reveal_strlit("DTSTAMP");
    reveal_strlit("STATUS");
    reveal_strlit("DTSTART");
    reveal_strlit("DUE");
    reveal_strlit("X-ESTIMATED-DURATION");
    reveal_strlit("DURATION");
    reveal_strlit("PRIORITY");
    reveal_strlit("RRULE");
    reveal_strlit("RELATED-TO");
    reveal_strlit("RELTYPE");
    reveal_strlit("DEPENDS-ON");
}

/// The keyword of a status and the text of a duration are ASCII.
pub proof fn lemma_written_values_fold(status: TaskStatus, minutes: u32, priority: u8)
    ensures
        folds(status_keyword(status)),
        folds(duration_text(minutes)),
        folds(decimal_text(stored_priority(priority))),
{
    reveal_strlit("NEEDS-ACTION");
    reveal_strlit("IN-PROCESS");
    reveal_strlit("COMPLETED");
    reveal_strlit("CANCELLED");
    reveal_strlit("P");
    reveal_strlit("PT");
    reveal_strlit("D");
    reveal_strlit("H");
    reveal_strlit("M");
    lemma_decimal_is_ascii(stored_priority(priority));
    lemma_decimal_is_ascii(minutes as int / 1440);
    lemma_decimal_is_ascii(minutes as int / 60);
    lemma_decimal_is_ascii(minutes as int);
    lemma_ascii_concat("P"@, decimal_text(minutes as int / 1440));
    lemma_ascii_concat("P"@ + decimal_text(minutes as int / 1440), "D"@);
    lemma_ascii_concat("PT"@, decimal_text(minutes as int / 60));
    lemma_ascii_concat("PT"@ + decimal_text(minutes as int / 60), "H"@);
    lemma_ascii_concat("PT"@, decimal_text(minutes as int));
    lemma_ascii_concat("PT"@ + decimal_text(minutes as int), "M"@);
}

/// Setting a property that folds keeps an entry foldable.
pub proof fn lemma_set_folds(m: TodoModel, key: Seq<char>, value: Seq<char>)
    requires
        m.foldable(),
        is_plain_name(key),
        folds(value),
    ensures
        m.set(key, value).foldable(),
        set_optional(m, key, Some(value)).foldable(),
{
    assert(property_folds(key, plain(value)));
}

/// Adding a repeated property that folds keeps an entry foldable.
pub proof fn lemma_append_folds(m: TodoModel, key: Seq<char>, property: crate::ical::PropertyModel)
    requires
        m.foldable(),
        property_folds(key, property),
    ensures
        m.append(key, property).foldable(),
{
    let after = m.append(key, property);
    assert forall|k: Seq<char>, i: int|
        after.multi_properties.contains_key(k) && 0 <= i < after.multi_properties[k].len()
        implies property_folds(k, #[trigger] after.multi_properties[k][i]) by {
        if k == key {
            if i < m.repeated(key).len() {
                assert(after.multi_properties[k][i] == m.multi_properties[key][i]);
            }
        } else {
            assert(after.multi_properties[k][i] == m.multi_properties[k][i]);
        }
    }
}

/// Adding links to tasks whose identifiers fold keeps an entry foldable.
pub proof fn lemma_dependencies_fold(m: TodoModel, dependencies: Seq<Seq<char>>)
    requires
        m.foldable(),
        forall|i: int| 0 <= i < dependencies.len() ==> folds(#[trigger] dependencies[i]),
    ensures
        with_dependencies(m, dependencies).foldable(),
    decreases dependencies.len(),
{
    if dependencies.len() > 0 {
        let first = dependencies.drop_last();
        assert forall|i: int| 0 <= i < first.len() implies folds(#[trigger] first[i]) by {
            assert(first[i] == dependencies[i]);
        }
        lemma_dependencies_fold(m, first);
        lemma_names_are_plain();
        let link = with_param(dependencies.last(), "RELTYPE"@, "DEPENDS-ON"@);
        assert(dependencies.last() == dependencies[dependencies.len() - 1]);
        assert(property_folds("RELATED-TO"@, link));
        lemma_append_folds(with_dependencies(m, first), "RELATED-TO"@, link);
    }
}

/// A task that can be written has an entry that can be written: every line
/// of the entry can be folded, and the entry has its time stamp and its
/// identifier.
pub proof fn lemma_entry_is_writable(t: TaskView, stamp: Seq<char>)
    requires
        can_be_written(t, stamp),
    ensures
        entry_of(t, stamp).writable(),
{
    lemma_names_are_plain();
    lemma_written_values_fold(t.status, 0, t.priority);
    let m = TodoModel::empty();
    assert(m.foldable());
    lemma_set_folds(m, "UID"@, t.uid);
    let m = m.set("UID"@, t.uid);
    lemma_set_folds(m, "SUMMARY"@, t.summary);
    let m = m.set("SUMMARY"@, t.summary);
    lemma_set_folds(m, "DESCRIPTION"@, t.description);
    let m = if t.description.len() > 0 {
        m.set("DESCRIPTION"@, t.description)
    } else {
        m
    };
    lemma_set_folds(m, "DTSTAMP"@, stamp);
    let m = m.set("DTSTAMP"@, stamp);
    lemma_set_folds(m, "STATUS"@, status_keyword(t.status));
    let m = m.set("STATUS"@, status_keyword(t.status));
    if let Some(text) = optional_instant_text(t.dtstart) {
        lemma_set_folds(m, "DTSTART"@, text);
    }
    let m = set_optional(m, "DTSTART"@, optional_instant_text(t.dtstart));
    if let Some(text) = optional_instant_text(t.due) {
        lemma_set_folds(m, "DUE"@, text);
    }
    let m = set_optional(m, "DUE"@, optional_instant_text(t.due));
    if let Some(minutes) = t.estimated_duration {
        lemma_written_values_fold(t.status, minutes, t.priority);
        lemma_set_folds(m, "X-ESTIMATED-DURATION"@, duration_text(minutes));
        lemma_set_folds(m, "DURATION"@, duration_text(minutes));
    }
    let m = match t.estimated_duration {
        Some(minutes) => if t.due is Some {
            m.set("X-ESTIMATED-DURATION"@, duration_text(minutes))
        } else {
            m.set("DURATION"@, duration_text(minutes))
        },
        None => m,
    };
    lemma_set_folds(m, "PRIORITY"@, decimal_text(stored_priority(t.priority)));
    let m = if t.priority > 0 {
        m.set("PRIORITY"@, decimal_text(stored_priority(t.priority)))
    } else {
        m
    };
    if let Some(rule) = t.rrule {
        lemma_set_folds(m, "RRULE"@, rule);
    }
    let m = set_optional(m, "RRULE"@, t.rrule);
    assert(m == entry_properties(t, stamp));
    assert(m.properties.contains_key("DTSTAMP"@) && m.properties.contains_key("UID"@));
    if let Some(parent) = t.parent_uid {
        assert(property_folds("RELATED-TO"@, plain(parent)));
        lemma_append_folds(m, "RELATED-TO"@, plain(parent));
    }
    let m = match t.parent_uid {
        Some(parent) => m.append("RELATED-TO"@, plain(parent)),
        None => m,
    };
    lemma_dependencies_fold(m, t.dependencies);
    lemma_with_dependencies_keeps(m, t.dependencies);
}

fn all_fold(texts: &Vec<String>) -> (r: bool)
    ensures
        r == forall|i: int| 0 <= i < texts.len() ==> folds(#[trigger] texts.deep_view()[i]),
{
    let mut i: usize = 0;
    while i < texts.len()
        invariant
            i <= texts.len(),
            forall|k: int| 0 <= k < i ==> folds(#[trigger] texts.deep_view()[k]),
        decreases texts.len() - i,
    {
        assert(texts.deep_view()[i as int] == texts[i as int]@);
        if !can_fold(texts[i].as_str()) {
            return false;
        }
        i += 1;
    }
    true
}

fn instant_folds(instant: Option<i64>) -> (r: bool)
    ensures
        r == (optional_instant_text(instant) matches Some(text) ==> folds(text)),
{
    match instant {
        None => true,
        Some(secs) => match format_instant(secs, "%Y%m%dT%H%M%SZ") {
            None => true,
            Some(text) => can_fold(text.as_str()),
        },
    }
}

fn optional_folds(text: &Option<String>) -> (r: bool)
    ensures
        r == (text.deep_view() matches Some(t) ==> folds(t)),
{
    match text {
        None => true,
        Some(t) => can_fold(t.as_str()),
    }
}

impl Task {
    /// Whether the task can be written as a document with the time stamp
    /// `stamp`. See [`can_be_written`].
    pub fn is_writable(&self, stamp: &str) -> (r: bool)
        ensures
            r == can_be_written(self@, stamp@),
    {
        let texts = can_fold(self.uid.as_str()) && can_fold(self.summary.as_str()) && can_fold(
            self.description.as_str(),
        ) && can_fold(stamp);
        let dates = instant_folds(self.dtstart) && instant_folds(self.due);
        let others = optional_folds(&self.rrule) && optional_folds(&self.parent_uid);
        let links = all_fold(&self.dependencies);
        assert(self@.dependencies == self.dependencies.deep_view());
        assert(self@.rrule == self.rrule.deep_view());
        assert(self@.parent_uid == self.parent_uid.deep_view());
        texts && dates && others && links
    }

    /// Writes the task as a calendar document that carries the time stamp
    /// `stamp`. A task that cannot be written gives an error.
    pub fn to_ics_at(&self, stamp: &str) -> (r: Result<String, String>)
        ensures
            match r {
                Ok(document) => can_be_written(self@, stamp@) && document@ == ics_document(
                    self@,
                    stamp@,
                ),
                Err(e) => !can_be_written(self@, stamp@) && e@ == unwritable(),
            },
    {
        if !self.is_writable(stamp) {
            return Err("Cannot write the task: a text holds too much white space".to_owned());
        }
        let mut todo = todo_new();
        todo_add_property(&mut todo, "UID", self.uid.as_str());
        todo_add_property(&mut todo, "SUMMARY", self.summary.as_str());
        if !self.description.as_str().is_empty() {
            todo_add_property(&mut todo, "DESCRIPTION", self.description.as_str());
        }
        todo_add_property(&mut todo, "DTSTAMP", stamp);
        todo_status(&mut todo, self.status);
        if let Some(secs) = self.dtstart {
            if let Some(text) = format_instant(secs, "%Y%m%dT%H%M%SZ") {
                todo_add_property(&mut todo, "DTSTART", text.as_str());
            }
        }
        if let Some(secs) = self.due {
            if let Some(text) = format_instant(secs, "%Y%m%dT%H%M%SZ") {
                todo_add_property(&mut todo, "DUE", text.as_str());
            }
            if let Some(minutes) = self.estimated_duration {
                todo_add_property(
                    &mut todo,
                    "X-ESTIMATED-DURATION",
                    format_iso_duration(minutes).as_str(),
                );
            }
        } else {
            if let Some(minutes) = self.estimated_duration {
                todo_add_property(&mut todo, "DURATION", format_iso_duration(minutes).as_str());
            }
        }
        if self.priority > 0 {
            todo_priority(&mut todo, self.priority as u32);
        }
        if let Some(rule) = &self.rrule {
            todo_add_property(&mut todo, "RRULE", rule.as_str());
        }
        assert(todo_model(todo) == entry_properties(self@, stamp@));
        if let Some(parent) = &self.parent_uid {
            todo_append(&mut todo, "RELATED-TO", parent.as_str());
        }
        let ghost linked = todo_model(todo);
        let mut i: usize = 0;
        assert(self.dependencies.deep_view().take(0) =~= Seq::<Seq<char>>::empty());
        while i < self.dependencies.len()
            invariant
                i <= self.dependencies.len(),
                todo_model(todo) == with_dependencies(
                    linked,
                    self.dependencies.deep_view().take(i as int),
                ),
            decreases self.dependencies.len() - i,
        {
            proof {
                let prefix = self.dependencies.deep_view().take(i + 1);
                assert(prefix.drop_last() =~= self.dependencies.deep_view().take(i as int));
                assert(prefix.last() == self.dependencies[i as int]@);
            }
            todo_append_with(
                &mut todo,
                "RELATED-TO",
                self.dependencies[i].as_str(),
                "RELTYPE",
                "DEPENDS-ON",
            );
            i += 1;
        }
        proof {
            assert(self.dependencies.deep_view().take(i as int) =~= self.dependencies.deep_view());
            assert(todo_model(todo) == entry_of(self@, stamp@));
            lemma_entry_is_writable(self@, stamp@);
        }
        let text = calendar_text(todo);
        Ok(insert_categories(text.as_str(), &self.categories))
    }

    /// Writes the task as a calendar document that carries the current time
    /// as its time stamp. A task that cannot be written gives an error.
    pub fn to_ics(&self) -> (r: Result<String, String>)
        ensures
            exists|stamp: Seq<char>| #[trigger]
                can_be_written(self@, stamp) == (r is Ok) && match r {
                    Ok(document) => document@ == ics_document(self@, stamp),
                    Err(e) => e@ == unwritable(),
                },
    {
        let stamp = now_stamp();
        self.to_ics_at(stamp.as_str())
    }
}

/// The instant that a task's recurrence counts from: its start, or its due
/// date where it has no start.
pub open spec fn anchor_of(t: TaskView) -> Option<i64> {
    if t.dtstart is Some {
        t.dtstart
    } else {
        t.due
    }
}

/// The recurrence of a rule that counts from the instant written as `stamp`.
pub open spec fn recurrence_text(stamp: Seq<char>, rule: Seq<char>) -> Seq<char> {
    "DTSTART:"@ + stamp + "\nRRULE:"@ + rule
}

/// The task can recur: it has a rule, and an anchor that a document can
/// hold.
pub open spec fn can_recur(t: TaskView) -> bool {
    &&& t.rrule is Some
    &&& anchor_of(t) matches Some(anchor)
    &&& instant_text(anchor) is Some
}

/// When the next occurrence of a task is due: as long after its start as the
/// task is due after its anchor.
pub open spec fn next_due_of(t: TaskView, next_start: i64) -> Option<int> {
    match (t.due, anchor_of(t)) {
        (Some(due), Some(anchor)) => Some(next_start + (due - anchor)),
        _ => None,
    }
}

/// The task has an anchor, and the due date of an occurrence that starts at
/// `next_start` can be represented.
pub open spec fn respawnable(t: TaskView, next_start: i64) -> bool {
    &&& anchor_of(t) is Some
    &&& match next_due_of(t, next_start) {
        Some(due) => i64::MIN <= due <= i64::MAX,
        None => true,
    }
}

/// The occurrence of a task that starts at `next_start` and is known as
/// `uid`: a copy that needs action, is blocked by nothing and has no remote
/// resource yet, with the start moved where the task has one and the due
/// date moved by as much.
pub open spec fn respawned(t: TaskView, next_start: i64, uid: Seq<char>) -> TaskView {
    TaskView {
        uid,
        href: Seq::empty(),
        etag: Seq::empty(),
        status: TaskStatus::NeedsAction,
        dependencies: Seq::empty(),
        dtstart: if t.dtstart is Some {
            Some(next_start)
        } else {
            None
        },
        due: match next_due_of(t, next_start) {
            Some(due) => Some(due as i64),
            None => None,
        },
        ..t
    }
}

/// An occurrence is well routed, whatever the task: it has neither a locator
/// nor a version.
pub proof fn lemma_respawned_is_well_routed(t: TaskView, next_start: i64, uid: Seq<char>)
    ensures
        respawned(t, next_start, uid).well_routed(),
{
}

/// `next` is an occurrence of `t`: the occurrence that starts at some
/// instant, under the identifier that it has.
pub open spec fn is_respawn_of(t: TaskView, next: TaskView) -> bool {
    exists|start: i64| #[trigger] respawnable(t, start) && next == respawned(t, start, next.uid)
}

impl Task {
    /// The occurrence of the task that starts at `next_start`, under the
    /// identifier `uid`. There is none for a task without a start and a due
    /// date, nor where the new due date cannot be represented.
    pub fn respawn_at(&self, next_start: i64, uid: String) -> (r: Option<Task>)
        ensures
            r is Some <==> respawnable(self@, next_start),
            r matches Some(next) ==> next@ == respawned(self@, next_start, uid@),
            r matches Some(next) ==> {
                &&& next@.status == TaskStatus::NeedsAction
                &&& next@.dependencies.len() == 0
                &&& next@.href.len() == 0 && next@.etag.len() == 0
                &&& self@.dtstart is Some ==> next@.dtstart == Some(next_start)
                &&& (self@.due matches Some(due) ==> next@.due matches Some(next_due) && next_due
                    - next_start == due - anchor_of(self@)->0)
            },
    {
        let anchor: i64 = match self.dtstart {
            Some(start) => start,
            None => match self.due {
                Some(due) => due,
                None => {
                    return None;
                },
            },
        };
        let due: Option<i64> = match self.due {
            Some(old_due) => {
                let shifted: i128 = (next_start as i128) + ((old_due as i128) - (anchor as i128));
                if shifted < (i64::MIN as i128) || shifted > (i64::MAX as i128) {
                    return None;
                }
                Some(shifted as i64)
            },
            None => None,
        };
        let mut next = self.clone();
        next.uid = uid;
        next.href = String::new();
        next.etag = String::new();
        next.status = TaskStatus::NeedsAction;
        next.dependencies = Vec::new();
        if self.dtstart.is_some() {
            next.dtstart = Some(next_start);
        }
        next.due = due;
        assert(next.dependencies.deep_view() =~= Seq::<Seq<char>>::empty());
        Some(next)
    }

    /// The recurrence that is expanded for a task that can recur: its rule,
    /// counted from its anchor.
    pub fn recurrence_source(&self) -> (r: Option<String>)
        ensures
            r is Some <==> can_recur(self@),
            r matches Some(text) ==> text@ == recurrence_text(
                instant_text(anchor_of(self@)->0)->0,
                self@.rrule->0,
            ),
    {
        let rule = match &self.rrule {
            Some(rule) => rule,
            None => {
                return None;
            },
        };
        let anchor: i64 = match self.dtstart {
            Some(start) => start,
            None => match self.due {
                Some(due) => due,
                None => {
                    return None;
                },
            },
        };
        match format_instant(anchor, "%Y%m%dT%H%M%SZ") {
            Some(stamp) => Some(
                "DTSTART:".to_owned().concat(stamp.as_str()).concat("\nRRULE:").concat(
                    rule.as_str(),
                ),
            ),
            None => None,
        }
    }

    /// The next occurrence of a task whose recurrence begins with the
    /// occurrences `dates`, under the identifier `uid`: the occurrence that
    /// starts at the second of them. There is none where there are fewer
    /// than two, nor where [`Task::respawn_at`] gives none.
    pub fn respawn_from(&self, dates: &Vec<i64>, uid: String) -> (r: Option<Task>)
        ensures
            r is Some <==> (dates.len() > 1 && respawnable(self@, dates[1])),
            r matches Some(next) ==> next@ == respawned(self@, dates[1], uid@),
    {
        if dates.len() > 1 {
            self.respawn_at(dates[1], uid)
        } else {
            None
        }
    }

    /// The next occurrence of a recurring task, under a new random
    /// identifier of 36 characters. The rule of the task, counted from its
    /// anchor, decides whether there is a next occurrence and when it
    /// starts. A task that cannot recur has none.
    pub fn respawn(&self) -> (r: Option<Task>)
        ensures
            r is Some ==> can_recur(self@),
            r matches Some(next) ==> is_respawn_of(self@, next@),
            r matches Some(next) ==> next@.uid.len() == 36,
    {
        let text = match self.recurrence_source() {
            Some(text) => text,
            None => {
                return None;
            },
        };
        match expand_recurrence(text.as_str(), 2) {
            Some(dates) => {
                let next = self.respawn_from(&dates, fresh_uid());
                proof {
                    if next is Some {
                        assert(respawnable(self@, dates[1]) && next->0@ == respawned(
                            self@,
                            dates[1],
                            next->0@.uid,
                        ));
                    }
                }
                next
            },
            None => None,
        }
    }
}

} // verus!
