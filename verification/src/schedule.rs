//! The schedule format: one reminder per line, written as a text, a colon,
//! and a duration of one to three colon-separated numbers (seconds; minutes
//! and seconds; hours, minutes and seconds). A line that ends in `N` gives a
//! reminder that does not repeat. Empty lines and lines that begin with `/`
//! are skipped.

use vstd::prelude::*;
use crate::number::{checked_sanitise_to_u32, number_of, ParseError};
use crate::reminder::{reminder_views, Reminder, ReminderView};
use crate::text::{
    chars_of, lemma_split_pieces_lack_separator, lines_of, split_lines, split_on, split_ranges,
    views_of,
};

verus! {

/// A line that cannot be read, and why.
#[derive(Clone, Copy, Debug, PartialEq, Eq, Structural)]
pub struct ScheduleError {
    /// The line's index among the lines of the schedule, from 0.
    pub line: usize,
    /// What is wrong with it.
    pub kind: ParseError,
}

/// Whether a line holds no entry: it is empty, a comment, or has no colon.
pub open spec fn is_skipped(line: Seq<char>) -> bool {
    line.len() == 0 || line[0] == '/' || split_on(line, ':').len() < 2
}

/// The interval in seconds that the fields of a line give. The first field
/// is the text; one to three duration fields follow. More than three give
/// no interval at all, which counts as 0.
pub open spec fn interval_of(fields: Seq<Seq<char>>) -> Result<nat, ParseError> {
    if fields.len() == 2 {
        match number_of(fields[1]) {
            Err(e) => Err(e),
            Ok(seconds) => Ok(seconds as nat),
        }
    } else if fields.len() == 3 {
        match number_of(fields[1]) {
            Err(e) => Err(e),
            Ok(minutes) => match number_of(fields[2]) {
                Err(e) => Err(e),
                Ok(seconds) => Ok((seconds + minutes * 60) as nat),
            },
        }
    } else if fields.len() == 4 {
        match number_of(fields[1]) {
            Err(e) => Err(e),
            Ok(hours) => match number_of(fields[2]) {
                Err(e) => Err(e),
                Ok(minutes) => match number_of(fields[3]) {
                    Err(e) => Err(e),
                    Ok(seconds) => Ok((seconds + minutes * 60 + hours * 3600) as nat),
                },
            },
        }
    } else {
        Ok(0)
    }
}

/// What a line of the schedule says: nothing, a reminder, or an error.
pub open spec fn line_outcome(line: Seq<char>) -> Result<Option<ReminderView>, ParseError> {
    if is_skipped(line) {
        Ok(None)
    } else {
        let fields = split_on(line, ':');
        match interval_of(fields) {
            Err(e) => Err(e),
            Ok(every) => if every > u32::MAX {
                Err(ParseError::IntervalTooLarge)
            } else if every == 0 {
                Ok(None)
            } else {
                Ok(Some(ReminderView::fresh(fields[0], line.last() != 'N', every)))
            },
        }
    }
}

/// The reminder of a line, where it has one.
pub open spec fn entry_of(line: Seq<char>) -> Option<ReminderView> {
    match line_outcome(line) {
        Ok(Some(r)) => Some(r),
        _ => None,
    }
}

/// The reminders that the lines of a schedule give, in order.
pub open spec fn reminders_of(lines: Seq<Seq<char>>) -> Seq<ReminderView> {
    lines.filter_map(|line: Seq<char>| entry_of(line))
}

/// The view of what reading a line returned.
pub open spec fn outcome_view(r: Result<Option<Reminder>, ParseError>) -> Result<
    Option<ReminderView>,
    ParseError,
> {
    match r {
        Ok(Some(reminder)) => Ok(Some(reminder@)),
        Ok(None) => Ok(None),
        Err(e) => Err(e),
    }
}

/// The number in the part of `line` from `from` to `to`.
fn number_at(line: &str, from: usize, to: usize) -> (r: Result<u32, ParseError>)
    requires
        from <= to <= line@.len(),
    ensures
        r == number_of(line@.subrange(from as int, to as int)),
{
    checked_sanitise_to_u32(line.substring_char(from, to))
}

/// Reads one line of a schedule.
pub fn parse_line(line: &str) -> (r: Result<Option<Reminder>, ParseError>)
    ensures
        outcome_view(r) == line_outcome(line@),
        r matches Ok(Some(reminder)) ==> reminder.wf(),
{
    let chars = chars_of(line);
    if chars.len() == 0 || chars[0] == '/' {
        return Ok(None);
    }
    let ranges = split_ranges(&chars, ':');
    let count: usize = ranges.len();
    let ghost fields = split_on(line@, ':');
    if count < 2 || count > 4 {
        return Ok(None);
    }
    let repeating: bool = chars[chars.len() - 1] != 'N';
    let mut seconds: u32 = 0;
    let mut minutes: u32 = 0;
    let mut hours: u32 = 0;
    if count == 2 {
        match number_at(line, ranges[1].0, ranges[1].1) {
            Err(e) => { return Err(e); },
            Ok(n) => { seconds = n; },
        }
    } else if count == 3 {
        match number_at(line, ranges[1].0, ranges[1].1) {
            Err(e) => { return Err(e); },
            Ok(n) => { minutes = n; },
        }
        match number_at(line, ranges[2].0, ranges[2].1) {
            Err(e) => { return Err(e); },
            Ok(n) => { seconds = n; },
        }
    } else {
        match number_at(line, ranges[1].0, ranges[1].1) {
            Err(e) => { return Err(e); },
            Ok(n) => { hours = n; },
        }
        match number_at(line, ranges[2].0, ranges[2].1) {
            Err(e) => { return Err(e); },
            Ok(n) => { minutes = n; },
        }
        match number_at(line, ranges[3].0, ranges[3].1) {
            Err(e) => { return Err(e); },
            Ok(n) => { seconds = n; },
        }
    }
    let total: u64 = seconds as u64 + minutes as u64 * 60 + hours as u64 * 3600;
    assert(interval_of(fields) == Ok::<nat, ParseError>(total as nat));
    if total > u32::MAX as u64 {
        return Err(ParseError::IntervalTooLarge);
    }
    let every: u32 = total as u32;
    let text = line.substring_char(ranges[0].0, ranges[0].1).to_string();
    match Reminder::new(text, repeating, every) {
        None => Ok(None),
        Some(reminder) => Ok(Some(reminder)),
    }
}

/// Reads a schedule: the reminders of its lines, in order, or the first line
/// that cannot be read.
pub fn parse_schedule(text: &str) -> (r: Result<Vec<Reminder>, ScheduleError>)
    ensures
        match r {
            Ok(reminders) => {
                &&& forall|i: int|
                    0 <= i < lines_of(text@).len() ==> (#[trigger] line_outcome(
                        lines_of(text@)[i],
                    )) is Ok
                &&& reminder_views(reminders@) == reminders_of(lines_of(text@))
                &&& forall|i: int| 0 <= i < reminders@.len() ==> (#[trigger] reminders@[i]).wf()
            },
            Err(e) => {
                &&& e.line < lines_of(text@).len()
                &&& line_outcome(lines_of(text@)[e.line as int]) == Err::<
                    Option<ReminderView>,
                    ParseError,
                >(e.kind)
                &&& forall|i: int|
                    0 <= i < e.line ==> (#[trigger] line_outcome(lines_of(text@)[i])) is Ok
            },
        },
{
    let lines = split_lines(text);
    let ghost all = lines_of(text@);
    let mut reminders: Vec<Reminder> = Vec::new();
    let n: usize = lines.len();
    let mut i: usize = 0;
    assert(all.take(0) =~= Seq::<Seq<char>>::empty());
    assert(reminder_views(reminders@) =~= reminders_of(all.take(0)));
    while i < n
        invariant
            i <= n,
            n == lines@.len(),
            all == lines_of(text@),
            views_of(lines@) == all,
            forall|j: int| 0 <= j < i ==> (#[trigger] line_outcome(all[j])) is Ok,
            reminder_views(reminders@) == reminders_of(all.take(i as int)),
            forall|j: int| 0 <= j < reminders@.len() ==> (#[trigger] reminders@[j]).wf(),
        decreases n - i,
    {
        let line: &str = lines[i];
        assert(line@ == views_of(lines@)[i as int]);
        assert(all.take(i + 1).drop_last() =~= all.take(i as int));
        assert(all.take(i + 1).last() == all[i as int]);
        let ghost seen = reminder_views(reminders@);
        match parse_line(line) {
            Err(kind) => {
                return Err(ScheduleError { line: i, kind });
            },
            Ok(None) => {},
            Ok(Some(reminder)) => {
                reminders.push(reminder);
                assert(reminder_views(reminders@) =~= seen + seq![reminder@]);
            },
        }
        i = i + 1;
    }
    assert(all.take(n as int) =~= all);
    Ok(reminders)
}

/// Empty lines, lines that begin with `/` and lines without a colon give no
/// reminder and no error, whatever else they hold.
pub proof fn lemma_skipped_lines_give_nothing(line: Seq<char>)
    requires
        is_skipped(line),
    ensures
        line_outcome(line) == Ok::<Option<ReminderView>, ParseError>(None),
        entry_of(line) is None,
{
}

/// A reminder read from a line is registered: its interval is positive and
/// fits 32 bits, it is not spent, and it is first due after one interval.
/// Its text is what stands before the first colon, so it holds no colon.
pub proof fn lemma_entries_are_fresh(line: Seq<char>)
    ensures
        line_outcome(line) matches Ok(Some(r)) ==> {
            &&& r.wf()
            &&& 0 < r.every <= u32::MAX
            &&& !r.triggered
            &&& r.duration_until == r.every
            &&& r.repeating == (line.last() != 'N')
            &&& r.string == split_on(line, ':')[0]
            &&& forall|j: int| 0 <= j < r.string.len() ==> r.string[j] != ':'
        },
{
    lemma_split_pieces_lack_separator(line, ':');
}

/// Reading a schedule with one more line: the reminders of the lines before,
/// then the reminder of the last line, where it has one.
pub proof fn lemma_reminders_of_push(lines: Seq<Seq<char>>, line: Seq<char>)
    ensures
        reminders_of(lines.push(line)) == match entry_of(line) {
            Some(r) => reminders_of(lines).push(r),
            None => reminders_of(lines),
        },
        reminders_of(lines.push(line)).len() <= reminders_of(lines).len() + 1,
{
    assert(lines.push(line).drop_last() =~= lines);
    match entry_of(line) {
        Some(r) => {
            assert(reminders_of(lines) + seq![r] =~= reminders_of(lines).push(r));
        },
        None => {},
    }
}

} // verus!
