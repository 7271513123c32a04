//! Scanning of command lines, on the bytes of their UTF-8 text.
//!
//! White space at the ends of a line or of an argument is white space in the
//! sense of Unicode; arguments are separated by ASCII white space; the
//! keywords are separated by single spaces.

use vstd::prelude::*;

verus! {

/// Whether `byte` is one of the six white-space characters of ASCII that
/// Unicode knows: tab, line feed, vertical tab, form feed, carriage return,
/// space.
pub open spec fn is_narrow_space(byte: u8) -> bool {
    (0x09 <= byte <= 0x0d) || byte == 0x20
}

/// Whether `first, second` encode U+0085 or U+00A0.
pub open spec fn is_middle_space(first: u8, second: u8) -> bool {
    first == 0xc2 && (second == 0x85 || second == 0xa0)
}

/// Whether `first, second, third` encode one of U+1680, U+2000 to U+200A,
/// U+2028, U+2029, U+202F, U+205F, U+3000.
pub open spec fn is_wide_space(first: u8, second: u8, third: u8) -> bool {
    ||| first == 0xe1 && second == 0x9a && third == 0x80
    ||| first == 0xe2 && second == 0x80 && (0x80 <= third <= 0x8a || third == 0xa8 || third == 0xa9
        || third == 0xaf)
    ||| first == 0xe2 && second == 0x81 && third == 0x9f
    ||| first == 0xe3 && second == 0x80 && third == 0x80
}

/// The number of bytes of the white-space character at the head of `bytes`;
/// zero if there is none.
pub open spec fn leading_space(bytes: Seq<u8>) -> nat {
    if bytes.len() >= 1 && is_narrow_space(bytes[0]) {
        1
    } else if bytes.len() >= 2 && is_middle_space(bytes[0], bytes[1]) {
        2
    } else if bytes.len() >= 3 && is_wide_space(bytes[0], bytes[1], bytes[2]) {
        3
    } else {
        0
    }
}

/// The number of bytes of the white-space character at the end of `bytes`;
/// zero if there is none.
pub open spec fn trailing_space(bytes: Seq<u8>) -> nat {
    let n = bytes.len() as int;
    if n >= 1 && is_narrow_space(bytes[n - 1]) {
        1
    } else if n >= 2 && is_middle_space(bytes[n - 2], bytes[n - 1]) {
        2
    } else if n >= 3 && is_wide_space(bytes[n - 3], bytes[n - 2], bytes[n - 1]) {
        3
    } else {
        0
    }
}

/// `bytes` without the white space at its head.
pub open spec fn trimmed_start(bytes: Seq<u8>) -> Seq<u8>
    decreases bytes.len(),
{
    if leading_space(bytes) > 0 {
        trimmed_start(bytes.skip(leading_space(bytes) as int))
    } else {
        bytes
    }
}

/// `bytes` without the white space at its end.
pub open spec fn trimmed_end(bytes: Seq<u8>) -> Seq<u8>
    decreases bytes.len(),
{
    if trailing_space(bytes) > 0 {
        trimmed_end(bytes.take(bytes.len() - trailing_space(bytes)))
    } else {
        bytes
    }
}

/// `bytes` without the white space at both ends.
pub open spec fn trimmed(bytes: Seq<u8>) -> Seq<u8> {
    trimmed_end(trimmed_start(bytes))
}

/// Measures the white-space character at the head of `bytes`.
fn leading_space_width(bytes: &[u8]) -> (width: usize)
    ensures
        width == leading_space(bytes@),
        width <= bytes@.len(),
{
    let n = bytes.len();
    if n >= 1 && ((0x09 <= bytes[0] && bytes[0] <= 0x0d) || bytes[0] == 0x20) {
        1
    } else if n >= 2 && bytes[0] == 0xc2 && (bytes[1] == 0x85 || bytes[1] == 0xa0) {
        2
    } else if n >= 3 && wide_space(bytes[0], bytes[1], bytes[2]) {
        3
    } else {
        0
    }
}

/// Measures the white-space character at the end of `bytes`.
fn trailing_space_width(bytes: &[u8]) -> (width: usize)
    ensures
        width == trailing_space(bytes@),
        width <= bytes@.len(),
{
    let n = bytes.len();
    if n >= 1 && ((0x09 <= bytes[n - 1] && bytes[n - 1] <= 0x0d) || bytes[n - 1] == 0x20) {
        1
    } else if n >= 2 && bytes[n - 2] == 0xc2 && (bytes[n - 1] == 0x85 || bytes[n - 1] == 0xa0) {
        2
    } else if n >= 3 && wide_space(bytes[n - 3], bytes[n - 2], bytes[n - 1]) {
        3
    } else {
        0
    }
}

fn wide_space(first: u8, second: u8, third: u8) -> (wide: bool)
    ensures
        wide == is_wide_space(first, second, third),
{
    (first == 0xe1 && second == 0x9a && third == 0x80) || (first == 0xe2 && second == 0x80 && ((
    0x80 <= third && third <= 0x8a) || third == 0xa8 || third == 0xa9 || third == 0xaf)) || (first
        == 0xe2 && second == 0x81 && third == 0x9f) || (first == 0xe3 && second == 0x80 && third
        == 0x80)
}

/// Drops the white space at the head of `bytes`.
pub fn trim_start(bytes: &[u8]) -> (rest: &[u8])
    ensures
        rest@ == trimmed_start(bytes@),
{
    let mut from: usize = 0;
    assert(bytes@.skip(0) == bytes@);
    loop
        invariant
            from <= bytes@.len(),
            trimmed_start(bytes@) == trimmed_start(bytes@.skip(from as int)),
        decreases bytes@.len() - from,
    {
        let rest = vstd::slice::slice_subrange(bytes, from, bytes.len());
        let width = leading_space_width(rest);
        if width == 0 {
            return rest;
        }
        assert(bytes@.skip(from as int).skip(width as int) == bytes@.skip(from + width));
        from = from + width;
    }
}

/// Drops the white space at the end of `bytes`.
pub fn trim_end(bytes: &[u8]) -> (rest: &[u8])
    ensures
        rest@ == trimmed_end(bytes@),
{
    let mut to: usize = bytes.len();
    assert(bytes@.take(to as int) == bytes@);
    loop
        invariant
            to <= bytes@.len(),
            trimmed_end(bytes@) == trimmed_end(bytes@.take(to as int)),
        decreases to,
    {
        let rest = vstd::slice::slice_subrange(bytes, 0, to);
        let width = trailing_space_width(rest);
        if width == 0 {
            return rest;
        }
        assert(bytes@.take(to as int).take(to - width) == bytes@.take(to - width));
        to = to - width;
    }
}

/// Drops the white space at both ends of `bytes`.
pub fn trim(bytes: &[u8]) -> (rest: &[u8])
    ensures
        rest@ == trimmed(bytes@),
{
    trim_end(trim_start(bytes))
}

/// The number of bytes in front of the first space of `bytes`; all of them
/// if it has no space.
pub open spec fn word_len(bytes: Seq<u8>) -> nat
    decreases bytes.len(),
{
    if bytes.len() == 0 || bytes[0] == 0x20 {
        0
    } else {
        1 + word_len(bytes.skip(1))
    }
}

/// What stands in front of the first space of `bytes`.
pub open spec fn first_word(bytes: Seq<u8>) -> Seq<u8> {
    bytes.take(word_len(bytes) as int)
}

/// What stands behind the first space of `bytes`; nothing if it has no
/// space.
pub open spec fn after_first_word(bytes: Seq<u8>) -> Seq<u8> {
    if word_len(bytes) < bytes.len() {
        bytes.skip(word_len(bytes) as int + 1)
    } else {
        Seq::<u8>::empty()
    }
}

proof fn lemma_word_len_bound(bytes: Seq<u8>)
    ensures
        word_len(bytes) <= bytes.len(),
        word_len(bytes) < bytes.len() ==> bytes[word_len(bytes) as int] == 0x20,
    decreases bytes.len(),
{
    if bytes.len() > 0 && bytes[0] != 0x20 {
        lemma_word_len_bound(bytes.skip(1));
    }
}

/// Splits `bytes` at its first space, which belongs to neither part.
pub fn split_word(bytes: &[u8]) -> (parts: (&[u8], &[u8]))
    ensures
        parts.0@ == first_word(bytes@),
        parts.1@ == after_first_word(bytes@),
{
    let mut at: usize = 0;
    assert(bytes@.skip(0) == bytes@);
    while at < bytes.len() && bytes[at] != 0x20
        invariant
            at <= bytes@.len(),
            word_len(bytes@) == at + word_len(bytes@.skip(at as int)),
        decreases bytes@.len() - at,
    {
        assert(bytes@.skip(at as int).skip(1) == bytes@.skip(at + 1));
        at = at + 1;
    }
    proof {
        lemma_word_len_bound(bytes@);
    }
    let head = vstd::slice::slice_subrange(bytes, 0, at);
    if at < bytes.len() {
        (head, vstd::slice::slice_subrange(bytes, at + 1, bytes.len()))
    } else {
        (head, vstd::slice::slice_subrange(bytes, at, bytes.len()))
    }
}

/// Whether `byte` separates arguments: space, tab, line feed, form feed or
/// carriage return.
pub open spec fn is_separator(byte: u8) -> bool {
    byte == 0x20 || byte == 0x09 || byte == 0x0a || byte == 0x0c || byte == 0x0d
}

/// The number of separators at the head of `bytes`.
pub open spec fn gap_len(bytes: Seq<u8>) -> nat
    decreases bytes.len(),
{
    if bytes.len() > 0 && is_separator(bytes[0]) {
        1 + gap_len(bytes.skip(1))
    } else {
        0
    }
}

/// The number of bytes at the head of `bytes` that are no separators.
pub open spec fn token_len(bytes: Seq<u8>) -> nat
    decreases bytes.len(),
{
    if bytes.len() > 0 && !is_separator(bytes[0]) {
        1 + token_len(bytes.skip(1))
    } else {
        0
    }
}

proof fn lemma_scan_bounds(bytes: Seq<u8>)
    ensures
        gap_len(bytes) <= bytes.len(),
        token_len(bytes) <= bytes.len(),
        gap_len(bytes) < bytes.len() ==> !is_separator(bytes[gap_len(bytes) as int]),
    decreases bytes.len(),
{
    if bytes.len() > 0 {
        lemma_scan_bounds(bytes.skip(1));
    }
}

/// Taking an argument off leaves fewer bytes.
pub proof fn lemma_token_shortens(bytes: Seq<u8>)
    ensures
        first_token(bytes) is Some ==> after_first_token(bytes).len() < bytes.len(),
{
    lemma_scan_bounds(bytes);
    let body = bytes.skip(gap_len(bytes) as int);
    if body.len() > 0 {
        lemma_scan_bounds(body);
    }
}

/// The first argument of `bytes`, if it has one: what stands between the
/// separators at its head and the next separator.
pub open spec fn first_token(bytes: Seq<u8>) -> Option<Seq<u8>> {
    let body = bytes.skip(gap_len(bytes) as int);
    if body.len() == 0 {
        None
    } else {
        Some(body.take(token_len(body) as int))
    }
}

/// What follows the first argument of `bytes`.
pub open spec fn after_first_token(bytes: Seq<u8>) -> Seq<u8> {
    let body = bytes.skip(gap_len(bytes) as int);
    body.skip(token_len(body) as int)
}

/// Takes the first argument off `bytes`. Returns the argument, which is
/// never empty, and what follows it; `None` when only separators are left.
pub fn next_token(bytes: &[u8]) -> (found: Option<(&[u8], &[u8])>)
    ensures
        found is Some <==> first_token(bytes@) is Some,
        found matches Some(parts) ==> first_token(bytes@) == Some(parts.0@) && parts.1@
            == after_first_token(bytes@) && parts.0@.len() > 0 && parts.1@.len() < bytes@.len(),
{
    let mut start: usize = 0;
    assert(bytes@.skip(0) == bytes@);
    while start < bytes.len() && separates(bytes[start])
        invariant
            start <= bytes@.len(),
            gap_len(bytes@) == start + gap_len(bytes@.skip(start as int)),
        decreases bytes@.len() - start,
    {
        assert(bytes@.skip(start as int).skip(1) == bytes@.skip(start + 1));
        start = start + 1;
    }
    if start == bytes.len() {
        return None;
    }
    let ghost body = bytes@.skip(start as int);
    let mut end: usize = start;
    while end < bytes.len() && !separates(bytes[end])
        invariant
            start <= end <= bytes@.len(),
            body == bytes@.skip(start as int),
            token_len(body) == (end - start) + token_len(bytes@.skip(end as int)),
        decreases bytes@.len() - end,
    {
        assert(bytes@.skip(end as int).skip(1) == bytes@.skip(end + 1));
        end = end + 1;
    }
    let token = vstd::slice::slice_subrange(bytes, start, end);
    let rest = vstd::slice::slice_subrange(bytes, end, bytes.len());
    Some((token, rest))
}

fn separates(byte: u8) -> (separator: bool)
    ensures
        separator == is_separator(byte),
{
    byte == 0x20 || byte == 0x09 || byte == 0x0a || byte == 0x0c || byte == 0x0d
}

/// The lower-case form of an ASCII letter; every other byte as it is.
pub open spec fn lowered(byte: u8) -> u8 {
    if 0x41 <= byte <= 0x5a {
        (byte + 0x20) as u8
    } else {
        byte
    }
}

/// Whether two texts are the same but for the case of their ASCII letters.
pub open spec fn same_word(left: Seq<u8>, right: Seq<u8>) -> bool {
    left.len() == right.len() && forall|i: int|
        0 <= i < left.len() ==> lowered(#[trigger] left[i]) == lowered(right[i])
}

/// Compares two texts without regard to the case of their ASCII letters.
pub fn matches_word(left: &[u8], right: &[u8]) -> (same: bool)
    ensures
        same == same_word(left@, right@),
{
    if left.len() != right.len() {
        return false;
    }
    let mut index: usize = 0;
    while index < left.len()
        invariant
            left@.len() == right@.len(),
            index <= left@.len(),
            forall|i: int| 0 <= i < index ==> lowered(#[trigger] left@[i]) == lowered(right@[i]),
        decreases left@.len() - index,
    {
        if lower(left[index]) != lower(right[index]) {
            return false;
        }
        index = index + 1;
    }
    true
}

fn lower(byte: u8) -> (small: u8)
    ensures
        small == lowered(byte),
{
    if 0x41 <= byte && byte <= 0x5a {
        byte + 0x20
    } else {
        byte
    }
}

/// The value of a digit in the given radix: `0` to `9`, then the letters in
/// either case; `None` for every other byte and for a value that the radix
/// does not have.
pub open spec fn digit_value(byte: u8, radix: nat) -> Option<nat> {
    let value: int = if 0x30 <= byte <= 0x39 {
        byte - 0x30
    } else if 0x61 <= byte <= 0x7a {
        byte - 0x61 + 10
    } else if 0x41 <= byte <= 0x5a {
        byte - 0x41 + 10
    } else {
        -1
    };
    if 0 <= value < radix {
        Some(value as nat)
    } else {
        None
    }
}

/// The number that `digits` write in the given radix, most significant
/// digit first; `None` if one of them is no digit.
pub open spec fn digits_value(digits: Seq<u8>, radix: nat) -> Option<nat>
    decreases digits.len(),
{
    if digits.len() == 0 {
        Some(0)
    } else if digits_value(digits.drop_last(), radix) is Some && digit_value(digits.last(), radix)
        is Some {
        Some(
            digits_value(digits.drop_last(), radix)->Some_0 * radix + digit_value(
                digits.last(),
                radix,
            )->Some_0,
        )
    } else {
        None
    }
}

/// The byte that `text` writes in the given radix: an optional `+`, then at
/// least one digit, with a value of at most 255.
pub open spec fn number(text: Seq<u8>, radix: nat) -> Option<u8> {
    let digits = if text.len() > 0 && text[0] == 0x2b {
        text.skip(1)
    } else {
        text
    };
    if digits.len() > 0 && digits_value(digits, radix) is Some && digits_value(
        digits,
        radix,
    )->Some_0 <= 255 {
        Some(digits_value(digits, radix)->Some_0 as u8)
    } else {
        None
    }
}

fn digit(byte: u8, radix: u32) -> (value: Option<u32>)
    requires
        radix <= 36,
    ensures
        value is Some <==> digit_value(byte, radix as nat) is Some,
        value matches Some(v) ==> v == digit_value(byte, radix as nat)->Some_0 && v < radix,
{
    let value: u32 = if 0x30 <= byte && byte <= 0x39 {
        (byte - 0x30) as u32
    } else if 0x61 <= byte && byte <= 0x7a {
        (byte - 0x61) as u32 + 10
    } else if 0x41 <= byte && byte <= 0x5a {
        (byte - 0x41) as u32 + 10
    } else {
        return None;
    };
    if value < radix {
        Some(value)
    } else {
        None
    }
}

/// Reads a byte written in the given radix.
pub fn parse_number(text: &[u8], radix: u32) -> (value: Option<u8>)
    requires
        2 <= radix <= 36,
    ensures
        value == number(text@, radix as nat),
{
    let digits = if text.len() > 0 && text[0] == 0x2b {
        vstd::slice::slice_subrange(text, 1, text.len())
    } else {
        text
    };
    if digits.len() == 0 {
        return None;
    }
    let mut total: u32 = 0;
    let mut index: usize = 0;
    while index < digits.len()
        invariant
            2 <= radix <= 36,
            index <= digits@.len(),
            total <= 256,
            digits@.len() > 0,
            number(text@, radix as nat) == if digits_value(digits@, radix as nat) is Some
                && digits_value(digits@, radix as nat)->Some_0 <= 255 {
                Some(digits_value(digits@, radix as nat)->Some_0 as u8)
            } else {
                None
            },
            digits_value(digits@.take(index as int), radix as nat) is Some,
            digits_value(digits@.take(index as int), radix as nat)->Some_0 <= 255 ==> total
                == digits_value(digits@.take(index as int), radix as nat)->Some_0,
            digits_value(digits@.take(index as int), radix as nat)->Some_0 > 255 ==> total == 256,
        decreases digits@.len() - index,
    {
        let ghost before = digits@.take(index as int);
        let ghost after = digits@.take(index + 1);
        assert(after.drop_last() == before);
        let low = match digit(digits[index], radix) {
            Some(low) => low,
            None => {
                proof {
                    lemma_bad_digit_spoils(digits@, index as int, radix as nat);
                }
                return None;
            },
        };
        let ghost high = digits_value(before, radix as nat)->Some_0;
        assert(high > 255 ==> high * radix + low > 255) by (nonlinear_arith)
            requires
                radix >= 2,
                low >= 0,
                high >= 0,
        ;
        assert(total * radix <= 256 * 36) by (nonlinear_arith)
            requires
                0 <= total <= 256,
                0 <= radix <= 36,
        ;
        let next: u32 = total * radix + low;
        total = if next > 255 {
            256
        } else {
            next
        };
        index = index + 1;
    }
    assert(digits@.take(index as int) == digits@);
    if total <= 255 {
        Some(total as u8)
    } else {
        None
    }
}

proof fn lemma_bad_digit_spoils(digits: Seq<u8>, at: int, radix: nat)
    requires
        0 <= at < digits.len(),
        digit_value(digits[at], radix) is None,
    ensures
        digits_value(digits, radix) is None,
    decreases digits.len(),
{
    if at < digits.len() - 1 {
        lemma_bad_digit_spoils(digits.drop_last(), at, radix);
    }
}

} // verus!
