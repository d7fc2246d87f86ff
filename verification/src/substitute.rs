//! What writing a template emits, stated over plain sequences.
//!
//! The arguments are the list of their bytes, and slot `n` of a template is filled by
//! entry `n` of that list, wherever the slot stands in the template. Writing walks the
//! segments in order and stops at the first placeholder whose slot the list does not
//! reach; what the segments before it gave has been emitted by then and stays so.

use crate::segment::Segment;
use vstd::prelude::*;

verus! {

/// The bytes that `segment` gives with the arguments `args`, or `None` for a placeholder
/// whose slot `args` does not reach.
pub open spec fn resolved(segment: Segment, args: Seq<Seq<u8>>) -> Option<Seq<u8>> {
    match segment {
        Segment::Literal(bytes) => Some(bytes),
        Segment::Placeholder(index) => if index < args.len() {
            Some(args[index as int])
        } else {
            None
        },
    }
}

/// The number of segments that are emitted: those before the first one that `args`
/// cannot resolve, or all of them.
pub open spec fn resolved_count(template: Seq<Segment>, args: Seq<Seq<u8>>) -> nat
    decreases template.len(),
{
    if template.len() == 0 || resolved(template.first(), args) is None {
        0
    } else {
        1 + resolved_count(template.drop_first(), args)
    }
}

/// The bytes that each segment of `template` gives, in order. An unresolved placeholder
/// gives none.
pub open spec fn pieces(template: Seq<Segment>, args: Seq<Seq<u8>>) -> Seq<Seq<u8>> {
    template.map_values(
        |segment: Segment|
            match resolved(segment, args) {
                Some(bytes) => bytes,
                None => Seq::empty(),
            },
    )
}

/// The bytes that writing `template` with `args` emits: what the segments give, one
/// after the other, up to the first segment that cannot be resolved.
pub open spec fn emitted(template: Seq<Segment>, args: Seq<Seq<u8>>) -> Seq<u8> {
    pieces(template.take(resolved_count(template, args) as int), args).flatten()
}

/// The slot at which writing `template` with `args` fails: that of the first placeholder
/// that `args` does not reach, or `None` where every segment is resolved.
pub open spec fn missing(template: Seq<Segment>, args: Seq<Seq<u8>>) -> Option<nat> {
    let count = resolved_count(template, args) as int;
    if count < template.len() {
        match template[count] {
            Segment::Placeholder(index) => Some(index),
            Segment::Literal(_) => None,
        }
    } else {
        None
    }
}

/// Every segment before `resolved_count` is resolved, and the segment at it, if there is
/// one, is not.
pub proof fn lemma_resolved_count(template: Seq<Segment>, args: Seq<Seq<u8>>)
    ensures
        resolved_count(template, args) <= template.len(),
        forall|k: int|
            0 <= k < resolved_count(template, args) ==> resolved(
                #[trigger] template[k],
                args,
            ) is Some,
        resolved_count(template, args) < template.len() ==> resolved(
            template[resolved_count(template, args) as int],
            args,
        ) is None,
    decreases template.len(),
{
    if template.len() == 0 || resolved(template.first(), args) is None {
    } else {
        let rest = template.drop_first();
        lemma_resolved_count(rest, args);
        assert forall|k: int| 0 <= k < resolved_count(template, args) implies resolved(
            #[trigger] template[k],
            args,
        ) is Some by {
            if k > 0 {
                assert(template[k] == rest[k - 1]);
            }
        }
        if resolved_count(template, args) < template.len() {
            assert(template[resolved_count(template, args) as int] == rest[resolved_count(
                rest,
                args,
            ) as int]);
        }
    }
}

/// Only one place has nothing but resolved segments before it and is either an
/// unresolved segment or the end.
pub proof fn lemma_resolved_count_is(template: Seq<Segment>, args: Seq<Seq<u8>>, count: int)
    requires
        0 <= count <= template.len(),
        forall|k: int| 0 <= k < count ==> resolved(#[trigger] template[k], args) is Some,
        count < template.len() ==> resolved(template[count], args) is None,
    ensures
        resolved_count(template, args) == count,
{
    lemma_resolved_count(template, args);
}

/// One more resolved segment adds its bytes at the end of what the segments before it
/// gave.
pub proof fn lemma_pieces_step(template: Seq<Segment>, args: Seq<Seq<u8>>, count: int)
    requires
        0 <= count < template.len(),
    ensures
        pieces(template.take(count + 1), args).flatten() == pieces(
            template.take(count),
            args,
        ).flatten() + pieces(template, args)[count],
{
    let before = pieces(template.take(count), args);
    let after = pieces(template.take(count + 1), args);
    assert(after == before.push(pieces(template, args)[count]));
    before.lemma_flatten_push(pieces(template, args)[count]);
}

} // verus!
