//! What holds of unified diffs, whatever line numbers their hunks name.

use vstd::prelude::*;

use crate::patches::{line_numbers_fit, scan_step, scanned, HeaderScan};
use crate::text::{all_digits, byte_len, decimal_nat, digit_char};

verus! {

/// Whether a hunk starts at a place of a diff: a line that starts with `@@` and a
/// space.
pub open spec fn starts_hunk(diff: Seq<char>, i: int) -> bool {
    &&& 0 <= i
    &&& i + 3 <= diff.len()
    &&& diff[i] == '@'
    &&& diff[i + 1] == '@'
    &&& diff[i + 2] == ' '
    &&& i == 0 || diff[i - 1] == '\n'
}

/// One more character is one more step.
proof fn lemma_scan_push(s: Seq<char>, c: char, room: nat)
    ensures
        scanned(s.push(c), room) == scan_step(scanned(s, room), c, room),
{
    assert(s.push(c).drop_last() =~= s);
}

/// Where a reader stands is told by the characters just before.
proof fn lemma_marks(diff: Seq<char>, room: nat)
    ensures
        ({
            let n = diff.len() as int;
            let at = scanned(diff, room).at;
            &&& at is LineStart <==> n == 0 || diff[n - 1] == '\n'
            &&& at is FirstMark <==> n >= 1 && diff[n - 1] == '@' && (n == 1 || diff[n - 2] == '\n')
            &&& at is SecondMark <==> n >= 2 && diff[n - 1] == '@' && diff[n - 2] == '@' && (n == 2
                || diff[n - 3] == '\n')
        }),
    decreases diff.len(),
{
    if diff.len() > 0 {
        let shorter = diff.drop_last();
        lemma_marks(shorter, room);
        assert(forall|i: int| 0 <= i < shorter.len() ==> #[trigger] shorter[i] == diff[i]);
    }
}

/// Line numbers are named in hunks alone, and only a second hunk makes them
/// matter.
proof fn lemma_numbers_stand_in_hunks(diff: Seq<char>, room: nat)
    ensures
        ({
            let scan = scanned(diff, room);
            let named = scan.large || scan.at is Space || scan.at is Number || scan.at is Count
                || scan.at is EndMark;
            &&& named ==> exists|i: int| #[trigger] starts_hunk(diff, i)
            &&& scan.out_of_range ==> exists|i: int, j: int|
                i < j && #[trigger] starts_hunk(diff, i) && #[trigger] starts_hunk(diff, j)
        }),
    decreases diff.len(),
{
    if diff.len() > 0 {
        let shorter = diff.drop_last();
        let before = scanned(shorter, room);
        let scan = scanned(diff, room);
        lemma_marks(shorter, room);
        lemma_numbers_stand_in_hunks(shorter, room);
        assert(forall|i: int| 0 <= i < shorter.len() ==> #[trigger] shorter[i] == diff[i]);
        assert forall|i: int| #[trigger] starts_hunk(shorter, i) implies starts_hunk(diff, i) by {}
        let named = before.large || before.at is Space || before.at is Number || before.at is Count
            || before.at is EndMark;
        let here = diff.len() - 3;
        if before.at is SecondMark && diff.last() == ' ' {
            assert(starts_hunk(diff, here));
        }
        if named {
            let i = choose|i: int| #[trigger] starts_hunk(shorter, i);
            assert(starts_hunk(diff, i));
        }
        if before.out_of_range {
            let (i, j) = choose|i: int, j: int|
                i < j && #[trigger] starts_hunk(shorter, i) && #[trigger] starts_hunk(shorter, j);
            assert(starts_hunk(diff, i) && starts_hunk(diff, j));
        } else if scan.out_of_range {
            let i = choose|i: int| #[trigger] starts_hunk(shorter, i);
            assert(i < here && starts_hunk(diff, i) && starts_hunk(diff, here));
        }
    }
}

/// A diff with at most one hunk fits, whatever numbers the hunk names.
pub proof fn law_a_single_hunk_fits(diff: Seq<char>)
    requires
        forall|i: int, j: int| #[trigger]
            starts_hunk(diff, i) && #[trigger] starts_hunk(diff, j) ==> i == j,
    ensures
        line_numbers_fit(diff),
{
    lemma_numbers_stand_in_hunks(diff, byte_len(diff));
}

/// What was found to be too large stays so.
proof fn lemma_scan_keeps(s: Seq<char>, more: Seq<char>, room: nat)
    ensures
        scanned(s, room).large ==> scanned(s + more, room).large,
        scanned(s, room).out_of_range ==> scanned(s + more, room).out_of_range,
    decreases more.len(),
{
    if more.len() == 0 {
        assert(s + more =~= s);
    } else {
        lemma_scan_keeps(s, more.drop_last(), room);
        assert((s + more).drop_last() =~= s + more.drop_last());
    }
}

/// Digits after nothing else come to the number that they are written for.
proof fn lemma_scan_number(s: Seq<char>, n: nat, room: nat)
    requires
        n <= usize::MAX,
    ensures
        scanned(s, room).at == (HeaderScan::Number { value: 0 }) ==> scanned(
            s + decimal_nat(n),
            room,
        ).at == (HeaderScan::Number { value: n as u128 }),
        forall|start: u128|
            scanned(s, room).at == (#[trigger] count_at(start, 0)) ==> scanned(
                s + decimal_nat(n),
                room,
            ).at == count_at(start, n as u128),
    decreases n,
{
    if n < 10 {
        let c = digit_char(n as int);
        assert(c as int == '0' as int + n);
        assert(s + decimal_nat(n) =~= s.push(c));
        lemma_scan_push(s, c, room);
    } else {
        let c = digit_char((n % 10) as int);
        assert(c as int == '0' as int + n % 10);
        let head = s + decimal_nat(n / 10);
        lemma_scan_number(s, n / 10, room);
        assert(s + decimal_nat(n) =~= head.push(c));
        lemma_scan_push(head, c, room);
    }
}

/// A reader among the digits of a number of lines.
spec fn count_at(start: u128, value: u128) -> HeaderScan {
    HeaderScan::Count { start, value }
}

/// A hunk whose number of lines cannot be added to its first line number does not
/// fit where another hunk follows, whatever stands before, between and after the
/// two.
pub proof fn law_large_numbers_before_a_hunk_do_not_fit(
    before: Seq<char>,
    start: nat,
    lines: nat,
    between: Seq<char>,
    after: Seq<char>,
)
    requires
        before.len() == 0 || before.last() == '\n',
        start <= usize::MAX,
        start + lines > usize::MAX,
        lines <= byte_len(
            before + seq!['@', '@', ' ', '-'] + decimal_nat(start) + seq![','] + decimal_nat(lines)
                + seq![' '] + between + seq!['\n', '@', '@', ' '] + after,
        ),
        lines <= usize::MAX,
    ensures
        !line_numbers_fit(
            before + seq!['@', '@', ' ', '-'] + decimal_nat(start) + seq![','] + decimal_nat(lines)
                + seq![' '] + between + seq!['\n', '@', '@', ' '] + after,
        ),
{
    let mark = seq!['@', '@', ' ', '-'];
    let next = seq!['\n', '@', '@', ' '];
    let head = before + mark;
    let numbered = head + decimal_nat(start);
    let counted = numbered + seq![','] + decimal_nat(lines);
    let ranged = counted + seq![' '];
    let upto = ranged + between;
    let followed = upto + next;
    let diff = followed + after;
    let room = byte_len(diff);
    lemma_marks(before, room);
    assert(head =~= before.push('@').push('@').push(' ').push('-'));
    lemma_scan_push(before, '@', room);
    lemma_scan_push(before.push('@'), '@', room);
    lemma_scan_push(before.push('@').push('@'), ' ', room);
    lemma_scan_push(before.push('@').push('@').push(' '), '-', room);
    assert(scanned(head, room).at == (HeaderScan::Number { value: 0 }));
    lemma_scan_number(head, start, room);
    assert(numbered + seq![','] =~= numbered.push(','));
    lemma_scan_push(numbered, ',', room);
    assert(scanned(numbered + seq![','], room).at == count_at(start as u128, 0));
    lemma_scan_number(numbered + seq![','], lines, room);
    assert(scanned(counted, room).at == count_at(start as u128, lines as u128));
    assert(ranged =~= counted.push(' '));
    lemma_scan_push(counted, ' ', room);
    assert(scanned(ranged, room).large);
    lemma_scan_keeps(ranged, between, room);
    assert(followed =~= upto.push('\n').push('@').push('@').push(' '));
    lemma_scan_push(upto, '\n', room);
    lemma_scan_push(upto.push('\n'), '@', room);
    lemma_scan_push(upto.push('\n').push('@'), '@', room);
    lemma_scan_push(upto.push('\n').push('@').push('@'), ' ', room);
    assert(scanned(followed, room).out_of_range);
    lemma_scan_keeps(followed, after, room);
    assert(diff =~= before + mark + decimal_nat(start) + seq![','] + decimal_nat(lines) + seq![' ']
        + between + next + after);
}

/// How many digits a text ends with.
spec fn final_digits(s: Seq<char>) -> nat
    decreases s.len(),
{
    if s.len() > 0 && '0' <= s.last() <= '9' {
        final_digits(s.drop_last()) + 1
    } else {
        0
    }
}

/// A one with so many zeros.
spec fn tens(k: nat) -> nat
    decreases k,
{
    if k == 0 {
        1
    } else {
        10 * tens((k - 1) as nat)
    }
}

/// More zeros make no smaller number.
proof fn lemma_tens_grow(j: nat, k: nat)
    requires
        j <= k,
    ensures
        1 <= tens(j) <= tens(k),
    decreases k,
{
    if k > 0 {
        if j < k {
            lemma_tens_grow(j, (k - 1) as nat);
        } else {
            lemma_tens_grow((j - 1) as nat, (k - 1) as nat);
        }
    }
}

/// The digits that a text ends with are digits.
proof fn lemma_final_digits(s: Seq<char>)
    ensures
        final_digits(s) <= s.len(),
        forall|i: int| s.len() - final_digits(s) <= i < s.len() ==> '0' <= #[trigger] s[i] <= '9',
    decreases s.len(),
{
    if s.len() > 0 && '0' <= s.last() <= '9' {
        let shorter = s.drop_last();
        lemma_final_digits(shorter);
        assert forall|i: int| s.len() - final_digits(s) <= i < s.len() implies '0'
            <= #[trigger] s[i] <= '9' by {
            if i < shorter.len() {
                assert(shorter[i] == s[i]);
            }
        }
    }
}

/// Numbers of at most nine digits stay below a billion.
proof fn lemma_small_numbers(diff: Seq<char>, room: nat)
    requires
        forall|i: int|
            0 <= i && i + 10 <= diff.len() ==> !all_digits(#[trigger] diff.subrange(i, i + 10)),
    ensures
        ({
            let scan = scanned(diff, room);
            &&& !scan.large
            &&& !scan.out_of_range
            &&& final_digits(diff) <= 9
            &&& scan.at matches HeaderScan::Number { value } ==> value < tens(final_digits(diff))
            &&& scan.at matches HeaderScan::Count { start, value } ==> start < 1_000_000_000
                && value < tens(final_digits(diff))
        }),
    decreases diff.len(),
{
    lemma_final_digits(diff);
    if final_digits(diff) > 9 {
        let i = diff.len() - 10;
        let run = diff.subrange(i, i + 10);
        assert forall|k: int| 0 <= k < run.len() implies '0' <= #[trigger] run[k] <= '9' by {
            assert(run[k] == diff[i + k]);
        }
        assert(all_digits(run));
    }
    if diff.len() > 0 {
        let shorter = diff.drop_last();
        assert forall|i: int| 0 <= i && i + 10 <= shorter.len() implies !all_digits(
            #[trigger] shorter.subrange(i, i + 10),
        ) by {
            assert(shorter.subrange(i, i + 10) =~= diff.subrange(i, i + 10));
        }
        lemma_small_numbers(shorter, room);
        lemma_tens_grow(final_digits(shorter), 9);
        lemma_tens_grow(0, final_digits(shorter));
        assert(tens(9) == 1_000_000_000) by {
            reveal_with_fuel(tens, 10);
        }
        assert(usize::MAX >= 4_294_967_295);
    }
}

/// A diff in which no ten digits stand in a row fits, however many hunks it has.
pub proof fn law_ordinary_numbers_fit(diff: Seq<char>)
    requires
        forall|i: int|
            0 <= i && i + 10 <= diff.len() ==> !all_digits(#[trigger] diff.subrange(i, i + 10)),
    ensures
        line_numbers_fit(diff),
{
    lemma_small_numbers(diff, byte_len(diff));
}

} // verus!
