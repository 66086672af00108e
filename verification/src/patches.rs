//! Applying unified diffs to texts.

use vstd::prelude::*;

use crate::text::{byte_count, byte_len, opt_text};

verus! {

/// How far a reader of a unified diff has come in a line.
#[derive(Clone, Copy)]
pub enum HeaderScan {
    /// Before the first character.
    LineStart,
    /// After the first `@` of a hunk header.
    FirstMark,
    /// After the second `@` of a hunk header.
    SecondMark,
    /// In a first line number of a hunk header, where the digits just before
    /// come to `value`.
    Number { value: u128 },
    /// In the number of lines that follows the first line number `start`, where
    /// the digits just before come to `value`.
    Count { start: u128, value: u128 },
    /// After a space among the line ranges.
    Space,
    /// After the first `@` that may end the line ranges.
    EndMark,
    /// Where no line number stands.
    Other,
}

/// How far a reader of a unified diff has come: its place in the line, whether
/// the hunks so far name line numbers that are too large for another hunk to
/// follow, and whether another one does.
#[derive(Clone, Copy)]
pub struct PatchScan {
    pub at: HeaderScan,
    pub large: bool,
    pub out_of_range: bool,
}

/// Whether a number of lines cannot be added to a first line number. One that
/// goes past a `usize` by itself is no line number at all, and no hunk has more
/// lines than `room`: a diff that names such numbers cannot be read.
pub open spec fn too_large(start: u128, lines: u128, room: nat) -> bool {
    start <= usize::MAX && lines <= room && start + lines > usize::MAX
}

/// Whether a line range ends with a character, and its numbers are too large. A
/// range that names no number of lines has one.
pub open spec fn names_too_large(at: HeaderScan, c: char, room: nat) -> bool {
    match at {
        HeaderScan::Number { value } => c == ' ' && too_large(value, 1, room),
        HeaderScan::Count { start, value } => c == ' ' && too_large(start, value, room),
        _ => false,
    }
}

/// A number with one more digit. A number that goes past a `usize` is left as
/// it is.
pub open spec fn with_digit(value: u128, c: char) -> u128 {
    if value > usize::MAX {
        value
    } else {
        (value * 10 + (c as int - '0' as int)) as u128
    }
}

/// Where a reader stands after the first character of a line range.
pub open spec fn range_start(c: char) -> HeaderScan {
    if '0' <= c <= '9' {
        HeaderScan::Number { value: with_digit(0, c) }
    } else {
        HeaderScan::Number { value: 0 }
    }
}

/// Where a reader stands in the line after one more character.
pub open spec fn header_step(at: HeaderScan, c: char) -> HeaderScan {
    if c == '\n' {
        HeaderScan::LineStart
    } else {
        match at {
            HeaderScan::LineStart if c == '@' => HeaderScan::FirstMark,
            HeaderScan::FirstMark if c == '@' => HeaderScan::SecondMark,
            HeaderScan::SecondMark if c == ' ' => HeaderScan::Space,
            HeaderScan::Number { value } => if '0' <= c <= '9' {
                HeaderScan::Number { value: with_digit(value, c) }
            } else if c == ' ' {
                HeaderScan::Space
            } else if c == ',' {
                HeaderScan::Count { start: value, value: 0 }
            } else {
                HeaderScan::Number { value: 0 }
            },
            HeaderScan::Count { start, value } => if '0' <= c <= '9' {
                HeaderScan::Count { start, value: with_digit(value, c) }
            } else if c == ' ' {
                HeaderScan::Space
            } else {
                HeaderScan::Count { start, value: 0 }
            },
            HeaderScan::Space => if c == ' ' {
                HeaderScan::Space
            } else if c == '@' {
                HeaderScan::EndMark
            } else {
                range_start(c)
            },
            HeaderScan::EndMark => if c == ' ' {
                HeaderScan::Space
            } else if c == '@' {
                HeaderScan::Other
            } else {
                range_start(c)
            },
            _ => HeaderScan::Other,
        }
    }
}

/// Where a reader stands after one more character.
pub open spec fn scan_step(scan: PatchScan, c: char, room: nat) -> PatchScan {
    PatchScan {
        at: header_step(scan.at, c),
        large: scan.large || names_too_large(scan.at, c, room),
        out_of_range: scan.out_of_range || (scan.large && scan.at is SecondMark && c == ' '),
    }
}

/// Where a reader stands after all of `diff`.
pub open spec fn scanned(diff: Seq<char>, room: nat) -> PatchScan
    decreases diff.len(),
{
    if diff.len() == 0 {
        PatchScan { at: HeaderScan::LineStart, large: false, out_of_range: false }
    } else {
        scan_step(scanned(diff.drop_last(), room), diff.last(), room)
    }
}

/// Whether the numbers of lines that a hunk names can be added to its first line
/// numbers, in every hunk of `diff` that another one follows. No hunk has more
/// lines than `diff` has bytes.
pub open spec fn line_numbers_fit(diff: Seq<char>) -> bool {
    !scanned(diff, byte_len(diff)).out_of_range
}

/// A number with one more digit.
fn add_digit(value: u128, c: char) -> (next: u128)
    requires
        '0' <= c <= '9',
    ensures
        next == with_digit(value, c),
{
    if value > usize::MAX as u128 {
        value
    } else {
        value * 10 + (c as u32 - '0' as u32) as u128
    }
}

/// Where a reader stands after the first character of a line range.
fn start_range(c: char) -> (next: HeaderScan)
    ensures
        next == range_start(c),
{
    if '0' <= c && c <= '9' {
        HeaderScan::Number { value: add_digit(0, c) }
    } else {
        HeaderScan::Number { value: 0 }
    }
}

/// Where a reader stands in the line after one more character.
fn step_header(at: HeaderScan, c: char) -> (next: HeaderScan)
    ensures
        next == header_step(at, c),
{
    if c == '\n' {
        return HeaderScan::LineStart;
    }
    match at {
        HeaderScan::LineStart if c == '@' => HeaderScan::FirstMark,
        HeaderScan::FirstMark if c == '@' => HeaderScan::SecondMark,
        HeaderScan::SecondMark if c == ' ' => HeaderScan::Space,
        HeaderScan::Number { value } => if '0' <= c && c <= '9' {
            HeaderScan::Number { value: add_digit(value, c) }
        } else if c == ' ' {
            HeaderScan::Space
        } else if c == ',' {
            HeaderScan::Count { start: value, value: 0 }
        } else {
            HeaderScan::Number { value: 0 }
        },
        HeaderScan::Count { start, value } => if '0' <= c && c <= '9' {
            HeaderScan::Count { start, value: add_digit(value, c) }
        } else if c == ' ' {
            HeaderScan::Space
        } else {
            HeaderScan::Count { start, value: 0 }
        },
        HeaderScan::Space => if c == ' ' {
            HeaderScan::Space
        } else if c == '@' {
            HeaderScan::EndMark
        } else {
            start_range(c)
        },
        HeaderScan::EndMark => if c == ' ' {
            HeaderScan::Space
        } else if c == '@' {
            HeaderScan::Other
        } else {
            start_range(c)
        },
        _ => HeaderScan::Other,
    }
}

/// Whether a number of lines cannot be added to a first line number.
fn check_too_large(start: u128, lines: u128, room: usize) -> (yes: bool)
    ensures
        yes == too_large(start, lines, room as nat),
{
    let limit: u128 = usize::MAX as u128;
    start <= limit && lines <= room as u128 && start + lines > limit
}

/// Where a reader stands after one more character.
fn step(scan: PatchScan, c: char, room: usize) -> (next: PatchScan)
    ensures
        next == scan_step(scan, c, room as nat),
{
    let named_large = match scan.at {
        HeaderScan::Number { value } => c == ' ' && check_too_large(value, 1, room),
        HeaderScan::Count { start, value } => c == ' ' && check_too_large(start, value, room),
        _ => false,
    };
    let header = match scan.at {
        HeaderScan::SecondMark => c == ' ',
        _ => false,
    };
    PatchScan {
        at: step_header(scan.at, c),
        large: scan.large || named_large,
        out_of_range: scan.out_of_range || (scan.large && header),
    }
}

/// Whether the numbers of lines that a hunk names can be added to its first line
/// numbers, in every hunk of a diff that another one follows.
pub fn check_line_numbers(diff: &str) -> (fit: bool)
    ensures
        fit == line_numbers_fit(diff@),
{
    let room: usize = byte_count(diff);
    let mut scan = PatchScan { at: HeaderScan::LineStart, large: false, out_of_range: false };
    for c in it: diff.chars()
        invariant
            it.seq() == diff@,
            scan == scanned(diff@.take(it.index() as int), room as nat),
    {
        scan = step(scan, c, room);
        assert(diff@.take(it.index() + 1).drop_last() =~= diff@.take(it.index() as int));
    }
    assert(diff@.take(diff@.len() as int) =~= diff@);
    !scan.out_of_range
}

/// What a text becomes under a unified diff, where the diff can be read and
/// each of its hunks finds its place.
pub uninterp spec fn patched(base: Seq<char>, diff: Seq<char>) -> Option<Seq<char>>;

/// What a text was before a unified diff, where the diff can be read and each
/// of its hunks, turned round, finds its place.
pub uninterp spec fn unpatched(base: Seq<char>, diff: Seq<char>) -> Option<Seq<char>>;

/// Calls `diffy::apply` with the patch that `diffy::Patch::from_str` reads. The
/// claim is that the outcome depends on the two texts alone; it is `patched`,
/// and an error of either function is `None`. To see that the hunks are in order,
/// `Patch::from_str` adds the number of lines that a hunk has to its first line
/// number where another hunk follows, hence the limit on the numbers.
#[verifier::external_body]
pub(crate) fn apply_patch(base: &str, diff: &str) -> (content: Option<String>)
    requires
        line_numbers_fit(diff@),
    ensures
        opt_text(content) == patched(base@, diff@),
{
    diffy::apply(base, &diffy::Patch::from_str(diff).ok()?).ok()
}

/// Calls `diffy::apply` with the patch that `diffy::Patch::from_str` reads,
/// turned round by `Patch::reverse`. The claim is that the outcome depends on
/// the two texts alone; it is `unpatched`, and an error of either function is
/// `None`. The limit on the numbers is that of `apply_patch`.
#[verifier::external_body]
pub(crate) fn revert_patch(base: &str, diff: &str) -> (content: Option<String>)
    requires
        line_numbers_fit(diff@),
    ensures
        opt_text(content) == unpatched(base@, diff@),
{
    diffy::apply(base, &diffy::Patch::from_str(diff).ok()?.reverse()).ok()
}

} // verus!
