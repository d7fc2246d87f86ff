//! The one directive of a template: a line that reads `#GET <N>`.
//!
//! A line is a directive when, once the white space at its two ends is set aside, it is
//! the five bytes `#GET ` followed by a decimal index and nothing else. Every other line
//! is literal text; a directive that is written wrongly is no error.
//!
//! White space is told by its bytes: the white-space characters of Unicode, each in its
//! UTF-8 encoding of one, two or three bytes. A line need not be valid UTF-8; in one that
//! is, the white space set aside is what `str::trim` removes.

use vstd::prelude::*;

verus! {

/// The bytes `#GET ` that open a directive.
pub open spec fn directive_prefix() -> Seq<u8> {
    seq![0x23u8, 0x47u8, 0x45u8, 0x54u8, 0x20u8]
}

/// Whether `byte` alone encodes a white-space character: a space, or one of the five
/// controls from the horizontal tab to the carriage return.
pub open spec fn spec_is_blank(byte: u8) -> bool {
    byte == 0x20 || (0x09 <= byte && byte <= 0x0d)
}

/// Whether the two bytes encode a white-space character: the next-line control U+0085
/// or the no-break space U+00A0.
pub open spec fn spec_is_blank_pair(first: u8, second: u8) -> bool {
    first == 0xc2 && (second == 0x85 || second == 0xa0)
}

/// Whether the three bytes encode a white-space character: U+1680, one of U+2000 to
/// U+200A, U+2028, U+2029, U+202F, U+205F or U+3000.
pub open spec fn spec_is_blank_triple(first: u8, second: u8, third: u8) -> bool {
    ||| first == 0xe1 && second == 0x9a && third == 0x80
    ||| first == 0xe2 && second == 0x80 && 0x80 <= third && third <= 0x8a
    ||| first == 0xe2 && second == 0x80 && (third == 0xa8 || third == 0xa9 || third == 0xaf)
    ||| first == 0xe2 && second == 0x81 && third == 0x9f
    ||| first == 0xe3 && second == 0x80 && third == 0x80
}

/// Whether `byte` is one of the decimal digits `0` to `9`.
pub open spec fn spec_is_digit(byte: u8) -> bool {
    0x30 <= byte && byte <= 0x39
}

/// The number of bytes of the white-space character that opens `text`, or 0 where
/// `text` opens with none.
pub open spec fn blank_prefix(text: Seq<u8>) -> nat {
    if text.len() >= 1 && spec_is_blank(text[0]) {
        1
    } else if text.len() >= 2 && spec_is_blank_pair(text[0], text[1]) {
        2
    } else if text.len() >= 3 && spec_is_blank_triple(text[0], text[1], text[2]) {
        3
    } else {
        0
    }
}

/// The number of bytes of the white-space character that closes `text`, or 0 where
/// `text` closes with none.
pub open spec fn blank_suffix(text: Seq<u8>) -> nat {
    let end = text.len() as int;
    if end >= 1 && spec_is_blank(text[end - 1]) {
        1
    } else if end >= 2 && spec_is_blank_pair(text[end - 2], text[end - 1]) {
        2
    } else if end >= 3 && spec_is_blank_triple(text[end - 3], text[end - 2], text[end - 1]) {
        3
    } else {
        0
    }
}

/// `line` without the white space at its two ends.
pub open spec fn trimmed(line: Seq<u8>) -> Seq<u8>
    decreases line.len(),
{
    if blank_prefix(line) > 0 {
        trimmed(line.skip(blank_prefix(line) as int))
    } else if blank_suffix(line) > 0 {
        trimmed(line.take(line.len() - blank_suffix(line)))
    } else {
        line
    }
}

/// Whether every byte of `text` is a decimal digit.
pub open spec fn all_digits(text: Seq<u8>) -> bool {
    forall|i: int| 0 <= i < text.len() ==> spec_is_digit(#[trigger] text[i])
}

/// The number that the decimal digits `digits` write, the most significant first.
pub open spec fn digits_value(digits: Seq<u8>) -> nat
    decreases digits.len(),
{
    if digits.len() == 0 {
        0
    } else {
        digits_value(digits.drop_last()) * 10 + (digits.last() - 0x30) as nat
    }
}

/// `text` without the one `+` that may stand in front of the digits.
pub open spec fn unsigned_part(text: Seq<u8>) -> Seq<u8> {
    if text.len() > 0 && text.first() == 0x2b {
        text.drop_first()
    } else {
        text
    }
}

/// The index that `text` writes, if it writes one: an optional `+`, then one or more
/// decimal digits and nothing else, with a value that a `usize` can hold.
pub open spec fn decimal_index(text: Seq<u8>) -> Option<nat> {
    let digits = unsigned_part(text);
    if digits.len() > 0 && all_digits(digits) && digits_value(digits) <= usize::MAX {
        Some(digits_value(digits))
    } else {
        None
    }
}

/// The slot that `line` asks for, or `None` where `line` is literal text.
pub open spec fn directive(line: Seq<u8>) -> Option<nat> {
    let inner = trimmed(line);
    if directive_prefix().is_prefix_of(inner) {
        decimal_index(inner.skip(directive_prefix().len() as int))
    } else {
        None
    }
}

/// An index as contracts speak of it.
pub open spec fn index_view(index: Option<usize>) -> Option<nat> {
    match index {
        Some(value) => Some(value as nat),
        None => None,
    }
}

/// Whether `inner` is the bytes of `line` from `start` up to `end`.
pub open spec fn is_part(inner: Seq<u8>, line: Seq<u8>, start: int, end: int) -> bool {
    0 <= start <= end <= line.len() && inner == line.subrange(start, end)
}

/// What trimming leaves of a line is a part of the line that neither opens nor closes
/// with white space.
pub proof fn lemma_trimmed(line: Seq<u8>)
    ensures
        blank_prefix(trimmed(line)) == 0,
        blank_suffix(trimmed(line)) == 0,
        exists|start: int, end: int| is_part(trimmed(line), line, start, end),
    decreases line.len(),
{
    if blank_prefix(line) > 0 {
        let width = blank_prefix(line) as int;
        let rest = line.skip(width);
        lemma_trimmed(rest);
        let (start, end) = choose|start: int, end: int| is_part(trimmed(rest), rest, start, end);
        assert(rest.subrange(start, end) == line.subrange(width + start, width + end));
        assert(is_part(trimmed(line), line, width + start, width + end));
    } else if blank_suffix(line) > 0 {
        let rest = line.take(line.len() - blank_suffix(line));
        lemma_trimmed(rest);
        let (start, end) = choose|start: int, end: int| is_part(trimmed(rest), rest, start, end);
        assert(rest.subrange(start, end) == line.subrange(start, end));
        assert(is_part(trimmed(line), line, start, end));
    } else {
        assert(line.subrange(0, line.len() as int) == line);
        assert(is_part(trimmed(line), line, 0, line.len() as int));
    }
}

/// Leading digits never write more than the whole: a prefix that is too large for a
/// `usize` makes the whole too large.
pub proof fn lemma_digits_value_grows(digits: Seq<u8>, count: int)
    requires
        0 <= count <= digits.len(),
    ensures
        digits_value(digits.take(count)) <= digits_value(digits),
    decreases digits.len(),
{
    if count == digits.len() {
        assert(digits.take(count) == digits);
    } else {
        lemma_digits_value_grows(digits.drop_last(), count);
        assert(digits.drop_last().take(count) == digits.take(count));
    }
}

/// Tells whether `byte` alone encodes a white-space character.
#[verifier::when_used_as_spec(spec_is_blank)]
pub fn is_blank(byte: u8) -> (blank: bool)
    ensures
        blank == spec_is_blank(byte),
{
    byte == 0x20 || (0x09 <= byte && byte <= 0x0d)
}

/// Tells whether the two bytes encode a white-space character.
#[verifier::when_used_as_spec(spec_is_blank_pair)]
pub fn is_blank_pair(first: u8, second: u8) -> (blank: bool)
    ensures
        blank == spec_is_blank_pair(first, second),
{
    first == 0xc2 && (second == 0x85 || second == 0xa0)
}

/// Tells whether the three bytes encode a white-space character.
#[verifier::when_used_as_spec(spec_is_blank_triple)]
pub fn is_blank_triple(first: u8, second: u8, third: u8) -> (blank: bool)
    ensures
        blank == spec_is_blank_triple(first, second, third),
{
    if first == 0xe1 {
        second == 0x9a && third == 0x80
    } else if first == 0xe2 {
        if second == 0x80 {
            (0x80 <= third && third <= 0x8a) || third == 0xa8 || third == 0xa9 || third == 0xaf
        } else {
            second == 0x81 && third == 0x9f
        }
    } else {
        first == 0xe3 && second == 0x80 && third == 0x80
    }
}

/// Tells whether `byte` is a decimal digit.
#[verifier::when_used_as_spec(spec_is_digit)]
pub fn is_digit(byte: u8) -> (digit: bool)
    ensures
        digit == spec_is_digit(byte),
{
    0x30 <= byte && byte <= 0x39
}

/// Measures the white-space character that opens the bytes of `line` from `start` up
/// to `end`.
fn leading_blank(line: &[u8], start: usize, end: usize) -> (width: usize)
    requires
        start <= end <= line@.len(),
    ensures
        width == blank_prefix(line@.subrange(start as int, end as int)),
        width <= end - start,
{
    let length = end - start;
    if length >= 1 && is_blank(line[start]) {
        1
    } else if length >= 2 && is_blank_pair(line[start], line[start + 1]) {
        2
    } else if length >= 3 && is_blank_triple(line[start], line[start + 1], line[start + 2]) {
        3
    } else {
        0
    }
}

/// Measures the white-space character that closes the bytes of `line` from `start` up
/// to `end`.
fn trailing_blank(line: &[u8], start: usize, end: usize) -> (width: usize)
    requires
        start <= end <= line@.len(),
    ensures
        width == blank_suffix(line@.subrange(start as int, end as int)),
        width <= end - start,
{
    let length = end - start;
    if length >= 1 && is_blank(line[end - 1]) {
        1
    } else if length >= 2 && is_blank_pair(line[end - 2], line[end - 1]) {
        2
    } else if length >= 3 && is_blank_triple(line[end - 3], line[end - 2], line[end - 1]) {
        3
    } else {
        0
    }
}

/// Returns the part of `line` between the white space at its start and the white space
/// at its end.
pub fn trim(line: &[u8]) -> (inner: &[u8])
    ensures
        inner@ == trimmed(line@),
{
    let mut start: usize = 0;
    let mut end: usize = line.len();
    proof {
        assert(line@.subrange(0, end as int) == line@);
    }
    let mut width = leading_blank(line, start, end);
    while width > 0
        invariant
            start <= end == line@.len(),
            width == blank_prefix(line@.subrange(start as int, end as int)),
            trimmed(line@) == trimmed(line@.subrange(start as int, end as int)),
        decreases end - start,
    {
        proof {
            assert(line@.subrange(start as int, end as int).skip(width as int) == line@.subrange(
                start + width,
                end as int,
            ));
        }
        start += width;
        width = leading_blank(line, start, end);
    }
    width = trailing_blank(line, start, end);
    while width > 0
        invariant
            start <= end <= line@.len(),
            blank_prefix(line@.subrange(start as int, end as int)) == 0,
            width == blank_suffix(line@.subrange(start as int, end as int)),
            trimmed(line@) == trimmed(line@.subrange(start as int, end as int)),
        decreases end - start,
    {
        proof {
            let held = line@.subrange(start as int, end as int);
            let kept = line@.subrange(start as int, end - width);
            assert(held.take(held.len() - width) == kept);
            assert(blank_prefix(kept) == 0);
        }
        end -= width;
        width = trailing_blank(line, start, end);
    }
    &line[start..end]
}

/// Reads the index that `text` writes in decimal.
///
/// The result is `Some` exactly for an optional `+` followed by one or more digits whose
/// value fits in a `usize`; leading zeros are read, and any other byte, no digit at all
/// or a value that is too large gives `None`. These are the texts that
/// `str::parse::<usize>` reads, with the values it gives them.
pub fn parse_index(text: &[u8]) -> (index: Option<usize>)
    ensures
        index_view(index) == decimal_index(text@),
{
    let first: usize = if text.len() > 0 && text[0] == 0x2b {
        1
    } else {
        0
    };
    let ghost digits = unsigned_part(text@);
    if first == text.len() {
        return None;
    }
    let mut value: usize = 0;
    let mut at: usize = first;
    while at < text.len()
        invariant
            first <= at <= text@.len(),
            first < text@.len(),
            digits == unsigned_part(text@),
            digits == text@.skip(first as int),
            all_digits(digits.take(at - first)),
            value == digits_value(digits.take(at - first)),
        decreases text@.len() - at,
    {
        let byte = text[at];
        let ghost seen = digits.take(at - first);
        let ghost next = digits.take(at - first + 1);
        proof {
            assert(next.drop_last() == seen);
            assert(digits[at - first] == byte);
        }
        if !is_digit(byte) {
            return None;
        }
        proof {
            assert(all_digits(next));
            lemma_digits_value_grows(digits, at - first + 1);
        }
        let scaled = match value.checked_mul(10) {
            Some(scaled) => scaled,
            None => {
                return None;
            },
        };
        value = match scaled.checked_add((byte - 0x30) as usize) {
            Some(sum) => sum,
            None => {
                return None;
            },
        };
        at += 1;
    }
    proof {
        assert(digits.take(at - first) == digits);
    }
    Some(value)
}

/// Tells which slot `line` asks for, if `line` is a directive.
///
/// The white space around the line is set aside before it is read; what is left must be
/// `#GET `, then an index as [`parse_index`] reads it.
pub fn parse_directive(line: &[u8]) -> (index: Option<usize>)
    ensures
        index_view(index) == directive(line@),
{
    let inner = trim(line);
    if inner.len() < 5 {
        return None;
    }
    if inner[0] != 0x23 || inner[1] != 0x47 || inner[2] != 0x45 || inner[3] != 0x54 || inner[4]
        != 0x20 {
        return None;
    }
    parse_index(&inner[5..inner.len()])
}

} // verus!
