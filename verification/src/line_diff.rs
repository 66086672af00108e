//! Line diffs between two texts.

use vstd::prelude::*;

verus! {

/// The edit operations that turn the lines of one text into those of another:
/// a `similar::TextDiff`, kept with the two texts that it was made from and with
/// how long making it was allowed to take.
#[verifier::external_body]
pub struct LineDiff<'a> {
    diff: similar::TextDiff<'a, 'a, 'a, str>,
    time_limit_ms: u64,
}

/// The text that a diff starts from.
pub uninterp spec fn old_side(diff: LineDiff<'_>) -> Seq<char>;

/// The text that a diff leads to.
pub uninterp spec fn new_side(diff: LineDiff<'_>) -> Seq<char>;

/// How long making a diff was allowed to take, in milliseconds.
pub uninterp spec fn time_limit(diff: LineDiff<'_>) -> nat;

/// A diff in unified format, with `radius` lines of context round each change.
pub uninterp spec fn unified_text(diff: LineDiff<'_>, radius: nat) -> Seq<char>;

/// How many characters of `s` end a line, with a carriage return before a
/// line feed counted as well.
pub open spec fn break_count(s: Seq<char>) -> nat
    decreases s.len(),
{
    if s.len() == 0 {
        0
    } else if crate::text::is_line_break(s.last()) {
        break_count(s.drop_last()) + 1
    } else {
        break_count(s.drop_last())
    }
}

/// Whether the lines of two texts can be told apart by thirty-two bit numbers.
pub open spec fn lines_fit(old_text: Seq<char>, new_text: Seq<char>) -> bool {
    break_count(old_text) + break_count(new_text) + 2 <= u32::MAX
}

/// Calls `similar::TextDiffConfig::diff_lines` with a timeout. The claim is
/// that the diff keeps the two texts, that it was made within that timeout, and
/// that it shows nothing, whatever the radius, exactly where the texts are
/// equal. Which operations it picks depends on how far it gets in the time it
/// has, so nothing more is said of them. It numbers the
/// distinct lines in thirty-two bits, hence the limit on how many there are.
#[verifier::external_body]
pub(crate) fn diff_lines<'a>(old_text: &'a str, new_text: &'a str, timeout_ms: u64) -> (diff:
    LineDiff<'a>)
    requires
        lines_fit(old_text@, new_text@),
    ensures
        old_side(diff) == old_text@,
        new_side(diff) == new_text@,
        time_limit(diff) == timeout_ms,
        forall|radius: nat|
            (#[trigger] unified_text(diff, radius)).len() == 0 <==> old_text@ == new_text@,
{
    let timeout = std::time::Duration::from_millis(timeout_ms);
    LineDiff {
        diff: similar::TextDiff::configure().timeout(timeout).diff_lines(old_text, new_text),
        time_limit_ms: timeout_ms,
    }
}

/// Calls `similar::UnifiedDiff::to_string` at a context radius. The claim is
/// that the text depends on the diff and the radius alone; that text is
/// `unified_text`. It doubles the radius, hence the limit on it.
#[verifier::external_body]
pub(crate) fn unified_diff<'a>(diff: &'a LineDiff<'a>, radius: usize) -> (text: String)
    requires
        2 * radius <= usize::MAX,
    ensures
        text@ == unified_text(*diff, radius as nat),
{
    diff.diff.unified_diff().context_radius(radius).to_string()
}

/// How many characters of a text end a line.
pub fn count_breaks(text: &str) -> (count: usize)
    ensures
        count == break_count(text@),
{
    let chars = crate::text::chars_of(text);
    let mut count: usize = 0;
    let mut i: usize = 0;
    while i < chars.len()
        invariant
            chars@ == text@,
            0 <= i <= chars.len(),
            count <= i,
            count == break_count(text@.take(i as int)),
        decreases chars.len() - i,
    {
        assert(text@.take(i + 1).drop_last() =~= text@.take(i as int));
        if chars[i] == '\r' || chars[i] == '\n' {
            count += 1;
        }
        i += 1;
    }
    assert(text@.take(text@.len() as int) =~= text@);
    count
}

} // verus!
