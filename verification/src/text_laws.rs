//! What holds of texts that are trimmed, cut, joined, written and read.

use vstd::prelude::*;
use vstd::utf8::*;

use crate::text::{
    all_digits, byte_len, decimal_int, decimal_nat, digit_char, digits_value, is_line_break,
    is_white_space, joined, lemma_encode_concat, lemma_longest_prefix_fits,
    lemma_longest_suffix_fits, longest_prefix, longest_suffix, opt_str, opt_text, parsed_u32,
    result_text, texts, trimmed, trimmed_end, trimmed_start, without_final_breaks,
};

verus! {

/// Trimming takes white space away from both ends, all of it, and nothing else.
pub proof fn law_trimming_takes_all_white_space_and_no_more(s: Seq<char>)
    ensures
        exists|from: int, to: int|
            {
                &&& 0 <= from <= to <= s.len()
                &&& trimmed(s) == #[trigger] s.subrange(from, to)
                &&& forall|i: int| 0 <= i < from ==> is_white_space(#[trigger] s[i])
                &&& forall|i: int| to <= i < s.len() ==> is_white_space(#[trigger] s[i])
                &&& from < to ==> !is_white_space(s[from]) && !is_white_space(s[to - 1])
            },
        trimmed(trimmed(s)) == trimmed(s),
{
    let from = lemma_trimmed_start(s);
    let rest = s.skip(from);
    let kept = lemma_trimmed_end(rest);
    let to = from + kept;
    assert(trimmed(s) =~= s.subrange(from, to));
    assert forall|i: int| to <= i < s.len() implies is_white_space(#[trigger] s[i]) by {
        assert(rest[i - from] == s[i]);
    }
    if from < to {
        assert(rest[0] == s[from]);
        assert(rest[kept - 1] == s[to - 1]);
        assert(trimmed(s)[0] == s[from]);
        assert(trimmed(s).last() == s[to - 1]);
    }
    assert(trimmed_start(trimmed(s)) == trimmed(s));
    assert(trimmed_end(trimmed(s)) == trimmed(s));
}

/// How much white space a text starts with.
proof fn lemma_trimmed_start(s: Seq<char>) -> (from: int)
    ensures
        0 <= from <= s.len(),
        trimmed_start(s) == s.skip(from),
        forall|i: int| 0 <= i < from ==> is_white_space(#[trigger] s[i]),
        from < s.len() ==> !is_white_space(s[from]),
    decreases s.len(),
{
    if s.len() > 0 && is_white_space(s[0]) {
        let rest = s.drop_first();
        let from = lemma_trimmed_start(rest);
        assert(rest.skip(from) =~= s.skip(from + 1));
        assert forall|i: int| 0 <= i < from + 1 implies is_white_space(#[trigger] s[i]) by {
            if i > 0 {
                assert(rest[i - 1] == s[i]);
            }
        }
        if from + 1 < s.len() {
            assert(rest[from] == s[from + 1]);
        }
        from + 1
    } else {
        assert(s.skip(0) =~= s);
        0
    }
}

/// How much is left of a text without the white space that it ends with.
proof fn lemma_trimmed_end(s: Seq<char>) -> (to: int)
    ensures
        0 <= to <= s.len(),
        trimmed_end(s) == s.take(to),
        forall|i: int| to <= i < s.len() ==> is_white_space(#[trigger] s[i]),
        to > 0 ==> !is_white_space(s[to - 1]),
    decreases s.len(),
{
    if s.len() > 0 && is_white_space(s.last()) {
        let rest = s.drop_last();
        let to = lemma_trimmed_end(rest);
        assert(rest.take(to) =~= s.take(to));
        assert forall|i: int| to <= i < s.len() implies is_white_space(#[trigger] s[i]) by {
            if i < rest.len() {
                assert(rest[i] == s[i]);
            }
        }
        to
    } else {
        assert(s.take(s.len() as int) =~= s);
        s.len() as int
    }
}

/// What goes at the end of an output is all of its final line breaks, and
/// nothing else.
pub proof fn law_only_final_breaks_go(s: Seq<char>)
    ensures
        without_final_breaks(s).len() <= s.len(),
        without_final_breaks(s) == s.take(without_final_breaks(s).len() as int),
        forall|i: int|
            without_final_breaks(s).len() <= i < s.len() ==> (#[trigger] s[i] == '\r' || s[i]
                == '\n'),
        without_final_breaks(s).len() > 0 ==> without_final_breaks(s).last() != '\r'
            && without_final_breaks(s).last() != '\n',
    decreases s.len(),
{
    if s.len() > 0 && is_line_break(s.last()) {
        let rest = s.drop_last();
        law_only_final_breaks_go(rest);
        let n = without_final_breaks(s).len() as int;
        assert(rest.take(n) =~= s.take(n));
        assert forall|i: int| n <= i < s.len() implies (#[trigger] s[i] == '\r' || s[i] == '\n') by {
            if i < rest.len() {
                assert(rest[i] == s[i]);
            }
        }
    } else {
        assert(s.take(s.len() as int) =~= s);
    }
}

/// The start that is kept of a text fits, and one more character would not.
pub proof fn law_no_longer_start_fits(s: Seq<char>, max: nat)
    ensures
        longest_prefix(s, max).is_prefix_of(s),
        encode_utf8(longest_prefix(s, max)).len() <= max,
        forall|k: int|
            longest_prefix(s, max).len() < k <= s.len() ==> encode_utf8(#[trigger] s.take(k)).len()
                > max,
    decreases s.len(),
{
    lemma_longest_prefix_fits(s, max);
    if s.len() > 0 && byte_len(s) > max {
        let rest = s.drop_last();
        law_no_longer_start_fits(rest, max);
        assert forall|k: int| longest_prefix(s, max).len() < k <= s.len() implies encode_utf8(
            #[trigger] s.take(k),
        ).len() > max by {
            if k == s.len() {
                assert(s.take(k) =~= s);
            } else {
                assert(rest.take(k) =~= s.take(k));
                assert(encode_utf8(rest.take(k)).len() > max);
            }
        }
    }
}

/// The end that is kept of a text fits, and one more character would not.
pub proof fn law_no_longer_end_fits(s: Seq<char>, max: nat)
    ensures
        longest_suffix(s, max).is_suffix_of(s),
        encode_utf8(longest_suffix(s, max)).len() <= max,
        forall|k: int|
            0 <= k < s.len() - longest_suffix(s, max).len() ==> encode_utf8(
                #[trigger] s.skip(k),
            ).len() > max,
    decreases s.len(),
{
    lemma_longest_suffix_fits(s, max);
    if s.len() > 0 && byte_len(s) > max {
        let rest = s.drop_first();
        law_no_longer_end_fits(rest, max);
        assert forall|k: int| 0 <= k < s.len() - longest_suffix(s, max).len() implies encode_utf8(
            #[trigger] s.skip(k),
        ).len() > max by {
            if k == 0 {
                assert(s.skip(0) =~= s);
            } else {
                assert(rest.skip(k - 1) =~= s.skip(k));
                assert(encode_utf8(rest.skip(k - 1)).len() > max);
            }
        }
    }
}

/// Joining two runs of texts is joining each and putting the separator between
/// them; one text by itself is left as it is, and no text gives nothing.
pub proof fn law_joining_keeps_every_text(
    first: Seq<Seq<char>>,
    second: Seq<Seq<char>>,
    one: Seq<char>,
    separator: Seq<char>,
)
    ensures
        joined(Seq::<Seq<char>>::empty(), separator) == Seq::<char>::empty(),
        joined(seq![one], separator) == one,
        first.len() > 0 && second.len() > 0 ==> joined(first + second, separator) == joined(
            first,
            separator,
        ) + separator + joined(second, separator),
    decreases second.len(),
{
    if first.len() > 0 && second.len() > 0 {
        let all = first + second;
        let rest = second.drop_last();
        assert(all.drop_last() =~= first + rest);
        assert(all.last() == second.last());
        if second.len() == 1 {
            assert(first + rest =~= first);
        } else {
            law_joining_keeps_every_text(first, rest, one, separator);
            assert(joined(all, separator) =~= joined(first, separator) + separator + joined(
                second,
                separator,
            ));
        }
    }
}

/// A number that is written in decimal reads as itself. It is written in digits
/// alone, without a zero at its start, and after a minus where it is negative.
pub proof fn law_numbers_are_read_as_written(n: nat)
    ensures
        all_digits(decimal_nat(n)),
        digits_value(decimal_nat(n)) == n,
        n > 0 ==> decimal_nat(n)[0] != '0',
        decimal_int(n as int) == decimal_nat(n),
        n > 0 ==> decimal_int(-(n as int)) == seq!['-'] + decimal_nat(n),
        n <= u32::MAX ==> parsed_u32(decimal_nat(n)) == Some(n as u32),
    decreases n,
{
    let text = decimal_nat(n);
    if n < 10 {
        assert(text.drop_last() =~= Seq::empty());
        reveal_with_fuel(digits_value, 2);
        assert(digit_char(n as int) as int == '0' as int + n);
    } else {
        law_numbers_are_read_as_written(n / 10);
        assert(text.drop_last() =~= decimal_nat(n / 10));
        assert(digit_char((n % 10) as int) as int == '0' as int + n % 10);
        assert forall|i: int| 0 <= i < text.len() implies '0' <= #[trigger] text[i] <= '9' by {
            if i < text.len() - 1 {
                assert(text[i] == decimal_nat(n / 10)[i]);
            }
        }
    }
    assert('0' <= text[0] <= '9');
}

/// One more digit makes a number ten times as large, and adds the digit.
pub proof fn law_digits_count_by_tens(s: Seq<char>, digit: char)
    requires
        '0' <= digit <= '9',
    ensures
        digits_value(Seq::<char>::empty()) == 0,
        digits_value(s.push(digit)) == 10 * digits_value(s) + (digit as int - '0' as int),
{
    assert(s.push(digit).drop_last() =~= s);
}

/// A number is read from digits, with a plus before them or not; nothing else is
/// a number, nor is one that takes more than thirty-two bits.
pub proof fn law_only_digits_are_numbers(s: Seq<char>)
    ensures
        parsed_u32(s) is Some ==> s.len() > 0 && (s[0] == '+' || '0' <= s[0] <= '9') && forall|
            i: int,
        |
            1 <= i < s.len() ==> '0' <= #[trigger] s[i] <= '9',
        parsed_u32(s) is Some && s[0] == '+' ==> s.len() > 1,
        s.len() > 0 && s[0] != '+' ==> parsed_u32(seq!['+'] + s) == parsed_u32(s),
        all_digits(s) && digits_value(s) <= u32::MAX ==> parsed_u32(s) == Some(
            digits_value(s) as u32,
        ),
        all_digits(s) && digits_value(s) > u32::MAX ==> parsed_u32(s) is None,
        !all_digits(s) && s.len() > 0 && s[0] != '+' ==> parsed_u32(s) is None,
{
    if s.len() > 0 && s[0] == '+' {
        let digits = s.drop_first();
        if parsed_u32(s) is Some {
            assert forall|i: int| 1 <= i < s.len() implies '0' <= #[trigger] s[i] <= '9' by {
                assert(digits[i - 1] == s[i]);
            }
        }
    } else {
        assert((seq!['+'] + s).drop_first() =~= s);
    }
}

/// What is said of an optional text, of a result or of several texts tells them
/// apart.
pub proof fn law_texts_are_told_apart(
    text: String,
    borrowed: &str,
    parts: Seq<String>,
    i: int,
)
    requires
        0 <= i < parts.len(),
    ensures
        opt_text(Some(text)) == Some(text@),
        opt_text(None) is None,
        opt_str(Some(borrowed)) == Some(borrowed@),
        opt_str(None) is None,
        result_text(Ok(text)) == Ok::<Seq<char>, Seq<char>>(text@),
        result_text(Err(text)) == Err::<Seq<char>, Seq<char>>(text@),
        texts(parts).len() == parts.len(),
        texts(parts)[i] == parts[i]@,
{
}

/// A text takes as many bytes as its UTF-8, and two texts take as many as both.
pub proof fn law_bytes_add_up(a: Seq<char>, b: Seq<char>)
    ensures
        byte_len(a) == encode_utf8(a).len(),
        byte_len(a + b) == byte_len(a) + byte_len(b),
{
    lemma_encode_concat(a, b);
}

/// White space are the characters that Unicode counts as such, by their code
/// points.
pub proof fn law_white_space_is_that_of_unicode(c: char)
    ensures
        is_white_space(c) <==> ({
            let point = c as int;
            ||| 9 <= point <= 13
            ||| point == 32
            ||| point == 133
            ||| point == 160
            ||| point == 5760
            ||| 8192 <= point <= 8202
            ||| point == 8232
            ||| point == 8233
            ||| point == 8239
            ||| point == 8287
            ||| point == 12288
        }),
{
}

} // verus!
