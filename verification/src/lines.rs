//! Cutting a template source into lines.
//!
//! A line ends at a line feed. The line feed is not part of the line, and neither is one
//! carriage return that stands right before it. What follows the last line feed is a line
//! of its own unless it is empty, so a source that ends in a line feed has no empty last
//! line. The bytes are not decoded: any byte but a line feed may stand in a line. Of a
//! source that is valid UTF-8 these are the lines that `BufRead::lines` yields.

use vstd::prelude::*;

verus! {

/// The line feed that ends a line.
pub const LINE_FEED: u8 = 0x0a;

/// The carriage return that may stand before a line feed.
pub const CARRIAGE_RETURN: u8 = 0x0d;

/// The number of bytes of `source` that stand before its first line feed: all of them
/// where it holds none.
pub open spec fn line_length(source: Seq<u8>) -> nat
    decreases source.len(),
{
    if source.len() == 0 || source.first() == LINE_FEED {
        0
    } else {
        1 + line_length(source.drop_first())
    }
}

/// `line` without the carriage return at its end, where it has one.
pub open spec fn without_return(line: Seq<u8>) -> Seq<u8> {
    if line.len() > 0 && line.last() == CARRIAGE_RETURN {
        line.drop_last()
    } else {
        line
    }
}

/// The lines of `source`, in order.
pub open spec fn lines_of(source: Seq<u8>) -> Seq<Seq<u8>>
    decreases source.len(),
{
    let length = line_length(source) as int;
    if source.len() == 0 {
        Seq::empty()
    } else if length >= source.len() {
        seq![source]
    } else {
        seq![without_return(source.take(length))] + lines_of(source.skip(length + 1))
    }
}

/// What separates a line from the text before it: a line feed, but nothing in front of
/// the first line.
pub open spec fn separator(first_line: bool) -> Seq<u8> {
    if first_line {
        Seq::empty()
    } else {
        seq![LINE_FEED]
    }
}

/// `lines` one after the other, with a line feed between each two neighbours and none
/// at either end.
pub open spec fn joined(lines: Seq<Seq<u8>>) -> Seq<u8>
    decreases lines.len(),
{
    if lines.len() == 0 {
        Seq::empty()
    } else {
        joined(lines.drop_last()) + separator(lines.len() == 1) + lines.last()
    }
}

/// Whether `source` does not end in a line feed and holds no carriage return right
/// before a line feed: cutting such a source into lines drops nothing but the line feeds
/// between the lines.
pub open spec fn plain_line_ends(source: Seq<u8>) -> bool {
    &&& source.len() > 0 ==> source.last() != LINE_FEED
    &&& forall|h: int, i: int|
        0 <= h && h + 1 == i && i < source.len() ==> !(#[trigger] source[h] == CARRIAGE_RETURN
            && #[trigger] source[i] == LINE_FEED)
}

/// What each of `lines` holds.
pub open spec fn line_views(lines: Seq<&[u8]>) -> Seq<Seq<u8>> {
    lines.map_values(|line: &[u8]| line@)
}

/// `line_length` is the place of the first line feed: no line feed stands before it, and
/// one stands at it unless it is the end of `source`.
pub proof fn lemma_line_length(source: Seq<u8>)
    ensures
        line_length(source) <= source.len(),
        forall|i: int| 0 <= i < line_length(source) ==> #[trigger] source[i] != LINE_FEED,
        line_length(source) < source.len() ==> source[line_length(source) as int] == LINE_FEED,
    decreases source.len(),
{
    if source.len() == 0 || source.first() == LINE_FEED {
    } else {
        let rest = source.drop_first();
        lemma_line_length(rest);
        assert forall|i: int| 0 <= i < line_length(source) implies #[trigger] source[i]
            != LINE_FEED by {
            if i > 0 {
                assert(source[i] == rest[i - 1]);
            }
        }
    }
}

/// Only one place is free of line feeds before it and is either a line feed or the end.
pub proof fn lemma_line_length_is(source: Seq<u8>, length: int)
    requires
        0 <= length <= source.len(),
        forall|i: int| 0 <= i < length ==> #[trigger] source[i] != LINE_FEED,
        length < source.len() ==> source[length] == LINE_FEED,
    ensures
        line_length(source) == length,
{
    lemma_line_length(source);
}

/// Cuts `source` into its lines.
pub fn split_lines(source: &[u8]) -> (lines: Vec<&[u8]>)
    ensures
        line_views(lines@) == lines_of(source@),
{
    let mut lines: Vec<&[u8]> = Vec::new();
    let mut start: usize = 0;
    proof {
        assert(source@.skip(0) == source@);
    }
    while start < source.len()
        invariant
            start <= source@.len(),
            lines_of(source@) == line_views(lines@) + lines_of(source@.skip(start as int)),
        decreases source@.len() - start,
    {
        let mut end: usize = start;
        while end < source.len() && source[end] != LINE_FEED
            invariant
                start <= end <= source@.len(),
                forall|i: int| start <= i < end ==> #[trigger] source@[i] != LINE_FEED,
            decreases source@.len() - end,
        {
            end += 1;
        }
        let ghost rest = source@.skip(start as int);
        let ghost before = line_views(lines@);
        proof {
            lemma_line_length_is(rest, end - start);
        }
        if end == source.len() {
            let line = &source[start..end];
            lines.push(line);
            start = end;
        } else {
            let stop: usize = if end > start && source[end - 1] == CARRIAGE_RETURN {
                end - 1
            } else {
                end
            };
            let line = &source[start..stop];
            lines.push(line);
            proof {
                assert(line@ == without_return(rest.take(end - start)));
                assert(rest.skip(end - start + 1) == source@.skip(end + 1));
                assert(before + (seq![line@] + lines_of(source@.skip(end + 1))) == before.push(
                    line@,
                ) + lines_of(source@.skip(end + 1)));
            }
            start = end + 1;
        }
    }
    lines
}

/// Joining a line and the lines after it puts a line feed between the two, unless no
/// line comes after.
pub proof fn lemma_joined_first(line: Seq<u8>, rest: Seq<Seq<u8>>)
    ensures
        joined(seq![line] + rest) == (if rest.len() == 0 {
            line
        } else {
            line + seq![LINE_FEED] + joined(rest)
        }),
    decreases rest.len(),
{
    let all = seq![line] + rest;
    if rest.len() == 0 {
        assert(all.drop_last() == Seq::<Seq<u8>>::empty());
        assert(joined(Seq::<Seq<u8>>::empty()) == Seq::<u8>::empty());
    } else {
        assert(all.drop_last() == seq![line] + rest.drop_last());
        lemma_joined_first(line, rest.drop_last());
        if rest.len() > 1 {
            assert(joined(all) == line + seq![LINE_FEED] + joined(rest.drop_last()) + seq![
                LINE_FEED,
            ] + rest.last());
        }
    }
}

/// Cutting and joining is the identity on a source with plain line ends: the lines of
/// such a source, joined by line feeds, are the source.
pub proof fn lemma_plain_source(source: Seq<u8>)
    requires
        plain_line_ends(source),
    ensures
        joined(lines_of(source)) == source,
    decreases source.len(),
{
    let length = line_length(source) as int;
    lemma_line_length(source);
    if source.len() == 0 {
    } else if length >= source.len() {
        lemma_joined_first(source, Seq::empty());
    } else {
        let line = source.take(length);
        let rest = source.skip(length + 1);
        assert(without_return(line) == line);
        assert(plain_line_ends(rest)) by {
            assert forall|h: int, i: int| 0 <= h && h + 1 == i && i < rest.len() implies !(
            #[trigger] rest[h] == CARRIAGE_RETURN && #[trigger] rest[i] == LINE_FEED) by {
                assert(!(source[length + 1 + h] == CARRIAGE_RETURN && source[length + 1 + i]
                    == LINE_FEED));
            }
        }
        lemma_plain_source(rest);
        lemma_joined_first(line, lines_of(rest));
    }
}

} // verus!
