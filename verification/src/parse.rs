//! Reading a template from its source.
//!
//! The lines of the source are taken in order. A directive line closes the literal text
//! gathered so far, which becomes a segment of its own with a line feed at its end, and
//! then gives a placeholder. Any other line is added to the gathered text as it stands,
//! blank bytes included, after a line feed unless it is the first line of the source.
//! The text still gathered at the end becomes the last segment, with no line feed added.
//! Empty text never becomes a segment.

use crate::directive::directive;
use crate::directive::parse_directive;
use crate::lines::line_views;
use crate::lines::lines_of;
use crate::lines::separator;
use crate::lines::split_lines;
use crate::lines::LINE_FEED;
use crate::model::Model;
use crate::segment::segments;
use crate::segment::ModelPart;
use crate::segment::Segment;
use vstd::prelude::*;

verus! {

/// Where reading stands after some lines: the segments that are complete, and the
/// literal text gathered since the last of them.
pub struct Scan {
    pub segments: Seq<Segment>,
    pub pending: Seq<u8>,
}

/// The segments of `scan` once its gathered text is closed: the text becomes one more
/// literal segment unless it is empty, and ends in a line feed where `before_directive`
/// holds.
pub open spec fn closed_segments(scan: Scan, before_directive: bool) -> Seq<Segment> {
    if scan.pending.len() == 0 {
        scan.segments
    } else if before_directive {
        scan.segments.push(Segment::Literal(scan.pending.push(LINE_FEED)))
    } else {
        scan.segments.push(Segment::Literal(scan.pending))
    }
}

/// Where reading stands after all of `lines`.
pub open spec fn scan(lines: Seq<Seq<u8>>) -> Scan
    decreases lines.len(),
{
    if lines.len() == 0 {
        Scan { segments: Seq::empty(), pending: Seq::empty() }
    } else {
        let before = scan(lines.drop_last());
        match directive(lines.last()) {
            Some(index) => Scan {
                segments: closed_segments(before, true).push(Segment::Placeholder(index)),
                pending: Seq::empty(),
            },
            None => Scan {
                segments: before.segments,
                pending: before.pending + separator(lines.len() == 1) + lines.last(),
            },
        }
    }
}

/// The template that `lines` write.
pub open spec fn parsed_lines(lines: Seq<Seq<u8>>) -> Seq<Segment> {
    closed_segments(scan(lines), false)
}

/// The template that `source` writes.
pub open spec fn parsed(source: Seq<u8>) -> Seq<Segment> {
    parsed_lines(lines_of(source))
}

impl Model {
    /// Reads a model from the lines of a template.
    pub fn from_lines(lines: &[&[u8]]) -> (model: Model)
        ensures
            model@ == parsed_lines(line_views(lines@)),
    {
        let ghost all = line_views(lines@);
        let mut buffer: Vec<u8> = Vec::new();
        let mut parts: Vec<ModelPart> = Vec::new();
        let mut count: usize = 0;
        while count < lines.len()
            invariant
                count <= lines@.len(),
                all == line_views(lines@),
                segments(parts@) == scan(all.take(count as int)).segments,
                buffer@ == scan(all.take(count as int)).pending,
            decreases lines@.len() - count,
        {
            let line = lines[count];
            proof {
                assert(all.take(count + 1).drop_last() == all.take(count as int));
            }
            match parse_directive(line) {
                Some(index) => {
                    if buffer.len() > 0 {
                        buffer.push(LINE_FEED);
                        parts.push(ModelPart::Text(buffer));
                        buffer = Vec::new();
                    }
                    let ghost closed = segments(parts@);
                    parts.push(ModelPart::Argument(index));
                    proof {
                        assert(segments(parts@) == closed.push(
                            Segment::Placeholder(index as nat),
                        ));
                    }
                },
                None => {
                    if count > 0 {
                        buffer.push(LINE_FEED);
                    }
                    buffer.extend_from_slice(line);
                },
            }
            count += 1;
        }
        proof {
            assert(all.take(count as int) == all);
        }
        if buffer.len() > 0 {
            parts.push(ModelPart::Text(buffer));
        }
        Model::new(parts)
    }

    /// Reads a model from the source of a template.
    ///
    /// Every source is a template: a line that is not a well-formed directive is literal
    /// text.
    pub fn parse(source: &[u8]) -> (model: Model)
        ensures
            model@ == parsed(source@),
    {
        let lines = split_lines(source);
        Model::from_lines(lines.as_slice())
    }
}

} // verus!
