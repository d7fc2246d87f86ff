//! What holds of every template: the laws of reading and of writing.
//!
//! Each law is a proof about the functions that the contracts of the library speak of,
//! so it holds of whatever [`Model::parse`], [`Model::write`] and [`Model::generate`]
//! return.

use crate::directive::directive;
use crate::lines::joined;
use crate::lines::lemma_plain_source;
use crate::lines::lines_of;
use crate::lines::plain_line_ends;
use crate::model::Model;
use crate::parse::closed_segments;
use crate::parse::parsed;
use crate::parse::parsed_lines;
use crate::parse::scan;
use crate::parse::Scan;
use crate::segment::Segment;
use crate::substitute::emitted;
use crate::substitute::lemma_resolved_count;
use crate::substitute::lemma_resolved_count_is;
use crate::substitute::missing;
use crate::substitute::pieces;
use crate::substitute::resolved;
use crate::substitute::resolved_count;
use vstd::prelude::*;
use vstd::seq_lib::lemma_flatten_concat;

verus! {

/// Writing fails nowhere exactly when every segment is resolved, and what is emitted
/// then is what all the segments give.
pub proof fn lemma_complete(template: Seq<Segment>, args: Seq<Seq<u8>>)
    ensures
        missing(template, args) is None <==> resolved_count(template, args) == template.len(),
        missing(template, args) is None <==> forall|k: int|
            0 <= k < template.len() ==> resolved(#[trigger] template[k], args) is Some,
        missing(template, args) is None ==> emitted(template, args) == pieces(
            template,
            args,
        ).flatten(),
{
    lemma_resolved_count(template, args);
    let count = resolved_count(template, args) as int;
    if count == template.len() {
        assert(template.take(count) == template);
    }
}

/// Writing is a fold over the segments: writing two templates one after the other emits
/// what the first emits and then, unless the first fails, what the second emits. It
/// fails where the first fails, or else where the second does.
pub proof fn lemma_emitted_concat(first: Seq<Segment>, second: Seq<Segment>, args: Seq<Seq<u8>>)
    ensures
        missing(first, args) is Some ==> emitted(first + second, args) == emitted(first, args)
            && missing(first + second, args) == missing(first, args),
        missing(first, args) is None ==> emitted(first + second, args) == emitted(first, args)
            + emitted(second, args) && missing(first + second, args) == missing(second, args),
{
    let both = first + second;
    let done = resolved_count(first, args) as int;
    lemma_resolved_count(first, args);
    lemma_complete(first, args);
    if done < first.len() {
        lemma_resolved_count_is(both, args, done);
        assert(both.take(done) == first.take(done));
    } else {
        let more = resolved_count(second, args) as int;
        lemma_resolved_count(second, args);
        lemma_resolved_count_is(both, args, done + more);
        assert(both.take(done + more) == first + second.take(more));
        assert(pieces(first + second.take(more), args) == pieces(first, args) + pieces(
            second.take(more),
            args,
        ));
        lemma_flatten_concat(pieces(first, args), pieces(second.take(more), args));
    }
}

/// Order preservation: where writing does not fail, the bytes emitted are those of the
/// first segment, then those of the second, and so on to the last. So for each segment,
/// what is emitted is what the segments before it emit, then the bytes of that segment,
/// then what the segments after it emit.
pub proof fn lemma_emitted_in_order(template: Seq<Segment>, args: Seq<Seq<u8>>, position: int)
    requires
        missing(template, args) is None,
        0 <= position < template.len(),
    ensures
        resolved(template[position], args) is Some,
        missing(template.take(position), args) is None,
        missing(template.skip(position + 1), args) is None,
        emitted(template, args) == emitted(template.take(position), args) + resolved(
            template[position],
            args,
        )->Some_0 + emitted(template.skip(position + 1), args),
{
    let before = template.take(position);
    let after = template.skip(position + 1);
    lemma_complete(template, args);
    lemma_complete(before, args);
    lemma_complete(after, args);
    let here = seq![pieces(template, args)[position]];
    assert(pieces(template, args) == pieces(before, args) + here + pieces(after, args));
    lemma_flatten_concat(pieces(before, args) + here, pieces(after, args));
    lemma_flatten_concat(pieces(before, args), here);
    here.lemma_flatten_singleton();
}

/// Slots are addressed by number, not by place: a placeholder for slot `index` gives the
/// bytes of entry `index` of the arguments, wherever in the template it stands.
pub proof fn lemma_slot_by_index(
    template: Seq<Segment>,
    args: Seq<Seq<u8>>,
    position: int,
    index: nat,
)
    requires
        0 <= position < template.len(),
        template[position] == Segment::Placeholder(index),
        index < args.len(),
    ensures
        pieces(template, args)[position] == args[index as int],
        resolved(template[position], args) == Some(args[index as int]),
{
}

/// Only the slots that a template asks for matter: two argument lists that reach the
/// same ones of those slots, and hold the same bytes in them, give the same output and
/// the same failure, however they differ elsewhere.
pub proof fn lemma_same_slots_same_output(
    template: Seq<Segment>,
    first: Seq<Seq<u8>>,
    second: Seq<Seq<u8>>,
)
    requires
        forall|k: int|
            0 <= k < template.len() ==> resolved(#[trigger] template[k], first) == resolved(
                template[k],
                second,
            ),
    ensures
        emitted(template, first) == emitted(template, second),
        missing(template, first) == missing(template, second),
{
    lemma_resolved_count(template, first);
    let count = resolved_count(template, first) as int;
    lemma_resolved_count_is(template, second, count);
    let head = template.take(count);
    assert(pieces(head, first) == pieces(head, second));
}

/// Whether none of `lines` is a directive.
pub open spec fn all_literal(lines: Seq<Seq<u8>>) -> bool {
    forall|i: int| 0 <= i < lines.len() ==> directive(#[trigger] lines[i]) is None
}

/// Lines without a directive are gathered into one text and close no segment.
proof fn lemma_scan_all_literal(lines: Seq<Seq<u8>>)
    requires
        all_literal(lines),
    ensures
        scan(lines).segments == Seq::<Segment>::empty(),
        scan(lines).pending == joined(lines),
    decreases lines.len(),
{
    if lines.len() > 0 {
        lemma_scan_all_literal(lines.drop_last());
    }
}

/// Round trip of literal lines: a template read from lines of which none is a directive
/// emits, with any arguments at all, those lines joined by line feeds, with no line feed
/// after the last, and never fails.
pub proof fn lemma_literal_lines_round_trip(lines: Seq<Seq<u8>>, args: Seq<Seq<u8>>)
    requires
        all_literal(lines),
    ensures
        emitted(parsed_lines(lines), args) == joined(lines),
        missing(parsed_lines(lines), args) is None,
{
    lemma_scan_all_literal(lines);
    let template = parsed_lines(lines);
    let text = joined(lines);
    if text.len() == 0 {
        lemma_resolved_count_is(template, args, 0);
    } else {
        lemma_resolved_count_is(template, args, 1);
        assert(template.take(1) == template);
        pieces(template, args).lemma_flatten_singleton();
    }
}

/// Round trip of a literal source: a template read from a source of which no line is a
/// directive emits, with any arguments at all, the lines of the source joined by line
/// feeds, and never fails.
pub proof fn lemma_literal_source_round_trip(source: Seq<u8>, args: Seq<Seq<u8>>)
    requires
        all_literal(lines_of(source)),
    ensures
        emitted(parsed(source), args) == joined(lines_of(source)),
        missing(parsed(source), args) is None,
{
    lemma_literal_lines_round_trip(lines_of(source), args);
}

/// A literal source comes back as it is: where no line of `source` is a directive,
/// `source` does not end in a line feed and no carriage return stands right before a
/// line feed, the template read from `source` emits `source` itself, with any arguments
/// at all.
pub proof fn lemma_literal_source_unchanged(source: Seq<u8>, args: Seq<Seq<u8>>)
    requires
        all_literal(lines_of(source)),
        plain_line_ends(source),
    ensures
        emitted(parsed(source), args) == source,
        missing(parsed(source), args) is None,
{
    lemma_literal_source_round_trip(source, args);
    lemma_plain_source(source);
}

/// The slots that the placeholders of `template` ask for, in the order of the template.
pub open spec fn slots(template: Seq<Segment>) -> Seq<nat>
    decreases template.len(),
{
    if template.len() == 0 {
        Seq::empty()
    } else {
        match template.last() {
            Segment::Placeholder(index) => slots(template.drop_last()).push(index),
            Segment::Literal(_) => slots(template.drop_last()),
        }
    }
}

/// The slots that the directives among `lines` ask for, in the order of the lines.
pub open spec fn asked(lines: Seq<Seq<u8>>) -> Seq<nat>
    decreases lines.len(),
{
    if lines.len() == 0 {
        Seq::empty()
    } else {
        match directive(lines.last()) {
            Some(index) => asked(lines.drop_last()).push(index),
            None => asked(lines.drop_last()),
        }
    }
}

/// Whether `template` is as reading leaves a template: no literal segment is empty, and
/// no literal segment follows another, so that each placeholder stands alone between
/// the texts around it.
pub open spec fn tidy(template: Seq<Segment>) -> bool {
    &&& forall|k: int|
        0 <= k < template.len() ==> (#[trigger] template[k] matches Segment::Literal(bytes)
            ==> bytes.len() > 0)
    &&& forall|j: int, k: int|
        0 <= j && j + 1 == k && k < template.len() ==> !(#[trigger] template[j] is Literal
            && #[trigger] template[k] is Literal)
}

/// While reading, the complete segments are tidy, end in a placeholder if there are any,
/// and hold one placeholder for each directive read.
proof fn lemma_scan_shape(lines: Seq<Seq<u8>>)
    ensures
        tidy(scan(lines).segments),
        scan(lines).segments.len() > 0 ==> scan(lines).segments.last() is Placeholder,
        slots(scan(lines).segments) == asked(lines),
    decreases lines.len(),
{
    if lines.len() > 0 {
        let before = scan(lines.drop_last());
        lemma_scan_shape(lines.drop_last());
        if let Some(index) = directive(lines.last()) {
            let closed = closed_segments(before, true);
            lemma_closed_shape(before, true);
            assert(closed.push(Segment::Placeholder(index)).drop_last() == closed);
        }
    }
}

/// Closing the gathered text of a scan whose segments are tidy, and end in a placeholder
/// if there are any, leaves them tidy and adds no placeholder.
proof fn lemma_closed_shape(scan: Scan, before_directive: bool)
    requires
        tidy(scan.segments),
        scan.segments.len() > 0 ==> scan.segments.last() is Placeholder,
    ensures
        tidy(closed_segments(scan, before_directive)),
        slots(closed_segments(scan, before_directive)) == slots(scan.segments),
{
    let closed = closed_segments(scan, before_directive);
    if scan.pending.len() > 0 {
        assert(closed.drop_last() == scan.segments);
    }
}

/// Placeholder isolation: in a template read from lines, no literal segment is empty and
/// no two literal segments are neighbours, and the placeholders are the directives of
/// the lines, one for each and in the same order.
pub proof fn lemma_parsed_shape(lines: Seq<Seq<u8>>)
    ensures
        tidy(parsed_lines(lines)),
        slots(parsed_lines(lines)) == asked(lines),
{
    lemma_scan_shape(lines);
    lemma_closed_shape(scan(lines), false);
}

/// Reading is a function of the source: two models read from the same bytes have the
/// same segments, so with the same arguments they emit the same bytes and fail at the
/// same slot.
pub proof fn lemma_parse_twice(source: Seq<u8>, first: Model, second: Model, args: Seq<Seq<u8>>)
    requires
        first@ == parsed(source),
        second@ == parsed(source),
    ensures
        first@ == second@,
        emitted(first@, args) == emitted(second@, args),
        missing(first@, args) == missing(second@, args),
{
}

} // verus!
