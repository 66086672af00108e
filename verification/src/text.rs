//! Text as the rest of the library reads it: characters in contracts, bytes
//! where a limit counts bytes.

use vstd::prelude::*;
use vstd::string::*;
use vstd::utf8::*;

verus! {

/// The characters with the Unicode `White_Space` property.
pub open spec fn is_white_space(c: char) -> bool {
    ||| '\u{9}' <= c <= '\u{d}'
    ||| c == ' '
    ||| c == '\u{85}'
    ||| c == '\u{a0}'
    ||| c == '\u{1680}'
    ||| '\u{2000}' <= c <= '\u{200a}'
    ||| c == '\u{2028}'
    ||| c == '\u{2029}'
    ||| c == '\u{202f}'
    ||| c == '\u{205f}'
    ||| c == '\u{3000}'
}

/// The two characters that end a line of output.
pub open spec fn is_line_break(c: char) -> bool {
    c == '\r' || c == '\n'
}

/// `s` without the white space at its start.
pub open spec fn trimmed_start(s: Seq<char>) -> Seq<char>
    decreases s.len(),
{
    if s.len() > 0 && is_white_space(s[0]) {
        trimmed_start(s.drop_first())
    } else {
        s
    }
}

/// `s` without the white space at its end.
pub open spec fn trimmed_end(s: Seq<char>) -> Seq<char>
    decreases s.len(),
{
    if s.len() > 0 && is_white_space(s.last()) {
        trimmed_end(s.drop_last())
    } else {
        s
    }
}

/// `s` without the white space around it.
pub open spec fn trimmed(s: Seq<char>) -> Seq<char> {
    trimmed_end(trimmed_start(s))
}

/// `s` without the line breaks at its end.
pub open spec fn without_final_breaks(s: Seq<char>) -> Seq<char>
    decreases s.len(),
{
    if s.len() > 0 && is_line_break(s.last()) {
        without_final_breaks(s.drop_last())
    } else {
        s
    }
}

/// How many bytes `s` takes in UTF-8.
pub open spec fn byte_len(s: Seq<char>) -> nat {
    encode_utf8(s).len()
}

/// The longest prefix of `s` that takes at most `max` bytes.
pub open spec fn longest_prefix(s: Seq<char>, max: nat) -> Seq<char>
    decreases s.len(),
{
    if s.len() == 0 || byte_len(s) <= max {
        s
    } else {
        longest_prefix(s.drop_last(), max)
    }
}

/// The longest suffix of `s` that takes at most `max` bytes.
pub open spec fn longest_suffix(s: Seq<char>, max: nat) -> Seq<char>
    decreases s.len(),
{
    if s.len() == 0 || byte_len(s) <= max {
        s
    } else {
        longest_suffix(s.drop_first(), max)
    }
}

/// The texts of `parts` in order, with `separator` between neighbours.
pub open spec fn joined(parts: Seq<Seq<char>>, separator: Seq<char>) -> Seq<char>
    decreases parts.len(),
{
    if parts.len() == 0 {
        Seq::empty()
    } else if parts.len() == 1 {
        parts[0]
    } else {
        joined(parts.drop_last(), separator) + separator + parts.last()
    }
}

/// The decimal digit of a number below ten.
pub open spec fn digit_char(d: int) -> char {
    ('0' as int + d) as char
}

/// A natural number in decimal, without leading zeros.
pub open spec fn decimal_nat(n: nat) -> Seq<char>
    decreases n,
{
    if n < 10 {
        seq![digit_char(n as int)]
    } else {
        decimal_nat(n / 10).push(digit_char((n % 10) as int))
    }
}

/// An integer in decimal, with a leading minus where it is negative.
pub open spec fn decimal_int(n: int) -> Seq<char> {
    if n < 0 {
        seq!['-'] + decimal_nat((-n) as nat)
    } else {
        decimal_nat(n as nat)
    }
}

/// The texts that a vector of strings holds.
pub open spec fn texts(parts: Seq<String>) -> Seq<Seq<char>> {
    parts.map_values(|part: String| part@)
}

/// The text that an optional string holds.
pub open spec fn opt_text(text: Option<String>) -> Option<Seq<char>> {
    match text {
        Some(text) => Some(text@),
        None => None,
    }
}

/// The texts on either side of a string result.
pub open spec fn result_text(result: Result<String, String>) -> Result<Seq<char>, Seq<char>> {
    match result {
        Ok(text) => Ok(text@),
        Err(text) => Err(text@),
    }
}

/// The text of an optional borrowed string.
pub open spec fn opt_str(text: Option<&str>) -> Option<Seq<char>> {
    match text {
        Some(text) => Some(text@),
        None => None,
    }
}

/// Encoding a concatenation is concatenating the encodings.
pub proof fn lemma_encode_concat(a: Seq<char>, b: Seq<char>)
    ensures
        encode_utf8(a + b) == encode_utf8(a) + encode_utf8(b),
        byte_len(a + b) == byte_len(a) + byte_len(b),
    decreases a.len(),
{
    if a.len() == 0 {
        assert(a + b =~= b);
        assert(encode_utf8(a) =~= Seq::<u8>::empty());
        assert(Seq::<u8>::empty() + encode_utf8(b) =~= encode_utf8(b));
    } else {
        lemma_encode_concat(a.drop_first(), b);
        assert((a + b).drop_first() =~= a.drop_first() + b);
        assert(encode_utf8(a + b) =~= encode_utf8(a) + encode_utf8(b));
    }
}

/// A character takes at least one and at most four bytes.
pub proof fn lemma_byte_len_bounds(s: Seq<char>)
    ensures
        s.len() <= byte_len(s) <= 4 * s.len(),
    decreases s.len(),
{
    if s.len() > 0 {
        lemma_byte_len_bounds(s.drop_first());
    }
}

/// Text is determined by its bytes.
pub proof fn lemma_same_bytes(a: Seq<char>, b: Seq<char>)
    requires
        encode_utf8(a) == encode_utf8(b),
    ensures
        a == b,
{
    encode_utf8_decode_utf8(a);
    encode_utf8_decode_utf8(b);
}

/// Characters cut the bytes at character boundaries.
proof fn lemma_take_is_boundary(s: Seq<char>, k: int)
    requires
        0 <= k <= s.len(),
    ensures
        is_char_boundary(encode_utf8(s), byte_len(s.take(k)) as int),
        byte_len(s.take(k)) <= byte_len(s),
    decreases s.len(),
{
    encode_utf8_valid_utf8(s);
    if k == 0 {
        assert(s.take(0) =~= Seq::empty());
    } else {
        let bytes = encode_utf8(s);
        encode_utf8_first_scalar(s);
        assert(pop_first_scalar(bytes) =~= encode_utf8(s.drop_first()));
        lemma_take_is_boundary(s.drop_first(), k - 1);
        assert(s.take(k).drop_first() =~= s.drop_first().take(k - 1));
    }
}

/// Every character boundary is the end of some run of leading characters.
proof fn lemma_boundary_is_take(s: Seq<char>, index: int) -> (k: int)
    requires
        is_char_boundary(encode_utf8(s), index),
    ensures
        0 <= k <= s.len(),
        index == byte_len(s.take(k)),
    decreases s.len(),
{
    encode_utf8_valid_utf8(s);
    if index == 0 {
        assert(s.take(0) =~= Seq::empty());
        0
    } else {
        if s.len() == 0 {
            assert(encode_utf8(s).len() == 0);
            assert(false);
        }
        let bytes = encode_utf8(s);
        encode_utf8_first_scalar(s);
        assert(pop_first_scalar(bytes) =~= encode_utf8(s.drop_first()));
        let k = lemma_boundary_is_take(s.drop_first(), index - length_of_first_scalar(bytes));
        assert(s.take(k + 1).drop_first() =~= s.drop_first().take(k));
        k + 1
    }
}

/// The byte length grows with every character taken.
proof fn lemma_take_grows(s: Seq<char>, j: int, k: int)
    requires
        0 <= j < k <= s.len(),
    ensures
        byte_len(s.take(j)) < byte_len(s.take(k)),
        byte_len(s.skip(k)) < byte_len(s.skip(j)),
{
    assert(s.take(k) =~= s.take(j) + s.subrange(j, k));
    lemma_encode_concat(s.take(j), s.subrange(j, k));
    lemma_byte_len_bounds(s.subrange(j, k));
    assert(s.skip(j) =~= s.subrange(j, k) + s.skip(k));
    lemma_encode_concat(s.subrange(j, k), s.skip(k));
}

/// What the longest prefix is, told by its neighbours.
proof fn lemma_longest_prefix(s: Seq<char>, max: nat, k: int)
    requires
        0 <= k <= s.len(),
        byte_len(s.take(k)) <= max,
        k < s.len() ==> byte_len(s.take(k + 1)) > max,
    ensures
        longest_prefix(s, max) == s.take(k),
    decreases s.len(),
{
    assert(s.take(s.len() as int) =~= s);
    if k < s.len() {
        if k + 1 < s.len() {
            lemma_take_grows(s, k + 1, s.len() as int);
        }
        let shorter = s.drop_last();
        assert(shorter.take(k) =~= s.take(k));
        if k < shorter.len() {
            assert(shorter.take(k + 1) =~= s.take(k + 1));
        }
        lemma_longest_prefix(shorter, max, k);
    }
}

/// What the longest suffix is, told by its neighbours.
proof fn lemma_longest_suffix(s: Seq<char>, max: nat, k: int)
    requires
        0 <= k <= s.len(),
        byte_len(s.skip(k)) <= max,
        k > 0 ==> byte_len(s.skip(k - 1)) > max,
    ensures
        longest_suffix(s, max) == s.skip(k),
    decreases s.len(),
{
    assert(s.skip(0) =~= s);
    if k > 0 {
        if k > 1 {
            lemma_take_grows(s, 0, k - 1);
        }
        let shorter = s.drop_first();
        assert(shorter.skip(k - 1) =~= s.skip(k));
        if k > 1 {
            assert(shorter.skip(k - 2) =~= s.skip(k - 1));
        }
        lemma_longest_suffix(shorter, max, k - 1);
    }
}

/// The longest prefix is a prefix, and fits.
pub proof fn lemma_longest_prefix_fits(s: Seq<char>, max: nat)
    ensures
        byte_len(longest_prefix(s, max)) <= max,
        longest_prefix(s, max).len() <= s.len(),
        longest_prefix(s, max) == s.take(longest_prefix(s, max).len() as int),
    decreases s.len(),
{
    if s.len() == 0 || byte_len(s) <= max {
        assert(s.take(s.len() as int) =~= s);
    } else {
        lemma_longest_prefix_fits(s.drop_last(), max);
        let n = longest_prefix(s, max).len() as int;
        assert(s.drop_last().take(n) =~= s.take(n));
    }
}

/// The longest suffix is a suffix, and fits.
pub proof fn lemma_longest_suffix_fits(s: Seq<char>, max: nat)
    ensures
        byte_len(longest_suffix(s, max)) <= max,
        longest_suffix(s, max).len() <= s.len(),
        longest_suffix(s, max) == s.skip(s.len() - longest_suffix(s, max).len()),
    decreases s.len(),
{
    if s.len() == 0 || byte_len(s) <= max {
        assert(s.skip(0) =~= s);
    } else {
        lemma_longest_suffix_fits(s.drop_first(), max);
        let n = longest_suffix(s, max).len() as int;
        assert(s.drop_first().skip(s.len() - 1 - n) =~= s.skip(s.len() - n));
    }
}

/// How many bytes a text takes.
pub fn byte_count(text: &str) -> (n: usize)
    ensures
        n == byte_len(text@),
{
    text.as_bytes().len()
}

/// The characters of a text.
pub fn chars_of(text: &str) -> (chars: Vec<char>)
    ensures
        chars@ == text@,
{
    let mut chars: Vec<char> = Vec::new();
    for c in it: text.chars()
        invariant
            it.seq() == text@,
            chars@ == text@.take(it.index() as int),
    {
        chars.push(c);
    }
    assert(text@.take(text@.len() as int) =~= text@);
    chars
}

/// Whether two texts are the same.
pub fn same_text(a: &str, b: &str) -> (same: bool)
    ensures
        same == (a@ == b@),
{
    let left = a.as_bytes();
    let right = b.as_bytes();
    if left.len() != right.len() {
        return false;
    }
    let mut i: usize = 0;
    while i < left.len()
        invariant
            left@ == encode_utf8(a@),
            right@ == encode_utf8(b@),
            left.len() == right.len(),
            0 <= i <= left.len(),
            forall|j: int| 0 <= j < i ==> left@[j] == right@[j],
        decreases left.len() - i,
    {
        if left[i] != right[i] {
            return false;
        }
        i += 1;
    }
    proof {
        assert(left@ =~= right@);
        lemma_same_bytes(a@, b@);
    }
    true
}

/// The longest part of `text` from its start that takes at most `max_bytes`
/// bytes and cuts no character.
pub fn truncate_to_bytes(text: &str, max_bytes: usize) -> (kept: &str)
    ensures
        kept@ == longest_prefix(text@, max_bytes as nat),
{
    let len = byte_count(text);
    let mut end: usize = if len < max_bytes { len } else { max_bytes };
    let ghost limit: int = end as int;
    proof {
        encode_utf8_valid_utf8(text@);
        is_char_boundary_start_end_of_seq(encode_utf8(text@));
    }
    while !text.is_char_boundary(end)
        invariant
            is_char_boundary(encode_utf8(text@), 0),
            0 <= end <= limit,
            limit <= byte_len(text@),
            forall|j: int|
                end < j <= limit ==> !#[trigger] is_char_boundary(encode_utf8(text@), j),
        decreases end,
    {
        end -= 1;
    }
    let (head, tail) = text.split_at(end);
    proof {
        let k = lemma_boundary_is_take(text@, end as int);
        assert(text@ =~= text@.take(k) + text@.skip(k));
        lemma_encode_concat(text@.take(k), text@.skip(k));
        assert(encode_utf8(head@) =~= encode_utf8(text@.take(k)));
        lemma_same_bytes(head@, text@.take(k));
        if k < text@.len() {
            lemma_take_is_boundary(text@, k + 1);
            lemma_take_grows(text@, k, k + 1);
        }
        lemma_longest_prefix(text@, max_bytes as nat, k);
    }
    head
}

/// The longest part of `text` up to its end that takes at most `max_bytes`
/// bytes and cuts no character.
pub fn tail_within_bytes(text: &str, max_bytes: usize) -> (kept: &str)
    ensures
        kept@ == longest_suffix(text@, max_bytes as nat),
{
    let len = byte_count(text);
    let mut start: usize = if len > max_bytes { len - max_bytes } else { 0 };
    let ghost first: int = start as int;
    proof {
        encode_utf8_valid_utf8(text@);
        is_char_boundary_start_end_of_seq(encode_utf8(text@));
    }
    while start < len && !text.is_char_boundary(start)
        invariant
            len == byte_len(text@),
            first <= start <= len,
            forall|j: int|
                first <= j < start ==> !#[trigger] is_char_boundary(encode_utf8(text@), j),
        decreases len - start,
    {
        start += 1;
    }
    proof {
        assert(is_char_boundary(encode_utf8(text@), start as int));
    }
    let (head, tail) = text.split_at(start);
    proof {
        let k = lemma_boundary_is_take(text@, start as int);
        assert(text@ =~= text@.take(k) + text@.skip(k));
        lemma_encode_concat(text@.take(k), text@.skip(k));
        assert(encode_utf8(tail@) =~= encode_utf8(text@.skip(k)));
        lemma_same_bytes(tail@, text@.skip(k));
        if k > 0 {
            lemma_take_is_boundary(text@, k - 1);
            lemma_take_grows(text@, k - 1, k);
            assert(text@ =~= text@.take(k - 1) + text@.skip(k - 1));
            lemma_encode_concat(text@.take(k - 1), text@.skip(k - 1));
        }
        lemma_longest_suffix(text@, max_bytes as nat, k);
    }
    tail
}

/// Whether a character is white space.
fn white_space(c: char) -> (yes: bool)
    ensures
        yes == is_white_space(c),
{
    ('\u{9}' <= c && c <= '\u{d}') || c == ' ' || c == '\u{85}' || c == '\u{a0}' || c == '\u{1680}'
        || ('\u{2000}' <= c && c <= '\u{200a}') || c == '\u{2028}' || c == '\u{2029}' || c
        == '\u{202f}' || c == '\u{205f}' || c == '\u{3000}'
}

/// `text` without the white space around it.
pub fn trim(text: &str) -> (kept: &str)
    ensures
        kept@ == trimmed(text@),
{
    let chars = chars_of(text);
    let mut from: usize = 0;
    assert(text@.skip(0) =~= text@);
    while from < chars.len() && white_space(chars[from])
        invariant
            chars@ == text@,
            0 <= from <= chars.len(),
            trimmed_start(text@) == trimmed_start(text@.skip(from as int)),
        decreases chars.len() - from,
    {
        assert(text@.skip(from as int).drop_first() =~= text@.skip(from + 1));
        from += 1;
    }
    let ghost body = text@.skip(from as int);
    assert(trimmed_start(text@) == body);
    let mut to: usize = chars.len();
    assert(body =~= text@.subrange(from as int, to as int));
    while from < to && white_space(chars[to - 1])
        invariant
            chars@ == text@,
            0 <= from <= to <= chars.len(),
            trimmed_end(body) == trimmed_end(text@.subrange(from as int, to as int)),
        decreases to,
    {
        assert(text@.subrange(from as int, to as int).drop_last() =~= text@.subrange(
            from as int,
            to - 1,
        ));
        to -= 1;
    }
    text.substring_char(from, to)
}

/// `text` without the line breaks at its end.
pub fn trim_final_breaks(text: &str) -> (kept: &str)
    ensures
        kept@ == without_final_breaks(text@),
{
    let chars = chars_of(text);
    let mut to: usize = chars.len();
    assert(text@ =~= text@.take(to as int));
    while 0 < to && (chars[to - 1] == '\r' || chars[to - 1] == '\n')
        invariant
            chars@ == text@,
            0 <= to <= chars.len(),
            without_final_breaks(text@) == without_final_breaks(text@.take(to as int)),
        decreases to,
    {
        assert(text@.take(to as int).drop_last() =~= text@.take(to - 1));
        to -= 1;
    }
    text.substring_char(0, to)
}

/// The texts of `parts` in order, with `separator` between neighbours.
pub fn join(parts: &Vec<String>, separator: &str) -> (whole: String)
    ensures
        whole@ == joined(texts(parts@), separator@),
{
    let mut whole = String::new();
    let mut i: usize = 0;
    while i < parts.len()
        invariant
            0 <= i <= parts.len(),
            whole@ == joined(texts(parts@.take(i as int)), separator@),
        decreases parts.len() - i,
    {
        if i > 0 {
            whole.append(separator);
        }
        whole.append(parts[i].as_str());
        proof {
            let next = texts(parts@.take(i + 1));
            assert(next.drop_last() =~= texts(parts@.take(i as int)));
            assert(next.last() == parts@[i as int]@);
            assert(whole@ =~= joined(next, separator@));
        }
        i += 1;
    }
    assert(parts@.take(parts@.len() as int) =~= parts@);
    whole
}

/// The decimal digit of a number below ten.
fn digit_text(d: u32) -> (text: &'static str)
    requires
        d < 10,
    ensures
        text@ == seq![digit_char(d as int)],
{
    proof {
        reveal_strlit("0");
        reveal_strlit("1");
        reveal_strlit("2");
        reveal_strlit("3");
        reveal_strlit("4");
        reveal_strlit("5");
        reveal_strlit("6");
        reveal_strlit("7");
        reveal_strlit("8");
        reveal_strlit("9");
    }
    if d == 0 {
        "0"
    } else if d == 1 {
        "1"
    } else if d == 2 {
        "2"
    } else if d == 3 {
        "3"
    } else if d == 4 {
        "4"
    } else if d == 5 {
        "5"
    } else if d == 6 {
        "6"
    } else if d == 7 {
        "7"
    } else if d == 8 {
        "8"
    } else {
        "9"
    }
}

/// A natural number in decimal.
fn natural_text(n: u32) -> (text: String)
    ensures
        text@ == decimal_nat(n as nat),
    decreases n,
{
    if n < 10 {
        digit_text(n).to_owned()
    } else {
        let mut text = natural_text(n / 10);
        text.append(digit_text(n % 10));
        assert(text@ =~= decimal_nat(n as nat));
        text
    }
}

/// An integer in decimal.
pub fn integer_text(n: i32) -> (text: String)
    ensures
        text@ == decimal_int(n as int),
{
    if n < 0 {
        proof {
            reveal_strlit("-");
        }
        let mut text = "-".to_owned();
        let magnitude: i64 = -(n as i64);
        text.append(natural_text(magnitude as u32).as_str());
        text
    } else {
        natural_text(n as u32)
    }
}

/// The value of the decimal digits of `s`, read from the left.
pub open spec fn digits_value(s: Seq<char>) -> nat
    decreases s.len(),
{
    if s.len() == 0 {
        0
    } else {
        10 * digits_value(s.drop_last()) + (s.last() as nat - '0' as nat) as nat
    }
}

/// Whether `s` is one or more decimal digits and nothing else.
pub open spec fn all_digits(s: Seq<char>) -> bool {
    s.len() > 0 && forall|i: int| 0 <= i < s.len() ==> '0' <= #[trigger] s[i] <= '9'
}

/// The number that `s` denotes: decimal digits after an optional plus sign,
/// within thirty-two bits.
pub open spec fn parsed_u32(s: Seq<char>) -> Option<u32> {
    let digits = if s.len() > 0 && s[0] == '+' {
        s.drop_first()
    } else {
        s
    };
    if all_digits(digits) && digits_value(digits) <= u32::MAX {
        Some(digits_value(digits) as u32)
    } else {
        None
    }
}

/// More digits never denote a smaller number.
proof fn lemma_digits_value_grows(s: Seq<char>, k: int)
    requires
        0 <= k <= s.len(),
    ensures
        digits_value(s.take(k)) <= digits_value(s),
    decreases s.len(),
{
    if k < s.len() {
        assert(s.drop_last().take(k) =~= s.take(k));
        lemma_digits_value_grows(s.drop_last(), k);
    } else {
        assert(s.take(k) =~= s);
    }
}

/// Reads a number in decimal.
pub fn parse_u32(text: &str) -> (value: Option<u32>)
    ensures
        value == parsed_u32(text@),
{
    let chars = chars_of(text);
    let start: usize = if chars.len() > 0 && chars[0] == '+' { 1 } else { 0 };
    let ghost digits = text@.skip(start as int);
    proof {
        assert(text@.skip(0) =~= text@);
        if start == 1 {
            assert(text@.skip(1) =~= text@.drop_first());
        }
    }
    if start == chars.len() {
        return None;
    }
    let mut value: u32 = 0;
    let mut i: usize = start;
    while i < chars.len()
        invariant
            chars@ == text@,
            start <= i <= chars.len(),
            digits == text@.skip(start as int),
            digits.len() > 0,
            parsed_u32(text@) == (if all_digits(digits) && digits_value(digits) <= u32::MAX {
                Some(digits_value(digits) as u32)
            } else {
                None
            }),
            forall|j: int| 0 <= j < i - start ==> '0' <= #[trigger] digits[j] <= '9',
            value == digits_value(digits.take(i - start)),
        decreases chars.len() - i,
    {
        let c = chars[i];
        assert(c == digits[i - start]);
        if c < '0' || '9' < c {
            return None;
        }
        let d: u32 = c as u32 - '0' as u32;
        let ghost next = digits.take(i - start + 1);
        proof {
            assert(next.drop_last() =~= digits.take(i - start));
            assert(next.last() == c);
            assert(digits_value(next) == 10 * value + d);
            lemma_digits_value_grows(digits, i - start + 1);
        }
        let wide: u64 = value as u64 * 10 + d as u64;
        if wide > u32::MAX as u64 {
            return None;
        }
        value = wide as u32;
        i += 1;
    }
    assert(digits.take(digits.len() as int) =~= digits);
    Some(value)
}

} // verus!
