//! A template: the ordered pieces that writing walks through.

use crate::argument::argument_bytes;
use crate::argument::Argument;
use crate::image::Image;
use crate::segment::segments;
use crate::segment::ModelPart;
use crate::segment::Segment;
use crate::substitute::emitted;
use crate::substitute::lemma_pieces_step;
use crate::substitute::lemma_resolved_count_is;
use crate::substitute::missing;
use crate::substitute::pieces;
use crate::substitute::resolved;
use vstd::pervasive::unreached;
use vstd::prelude::*;
use vstd::std_specs::convert::FromSpecImpl;
use vstd::std_specs::convert::IntoSpec;

verus! {

/// A model used to generate images.
#[derive(Debug, Clone, PartialEq, Eq)]
pub struct Model {
    /// The parts of the model.
    parts: Vec<ModelPart>,
}

/// What writing to a sink does next.
#[derive(Debug, Clone, Copy, PartialEq, Eq)]
pub enum Step<'a> {
    /// Hand `bytes` to the sink, then ask for the step at `next` with what the sink said
    /// of them.
    Emit { bytes: &'a [u8], next: usize },
    /// Stop: the sink refused the bytes it was handed last. What it took before stays
    /// written, and it is handed nothing more.
    Refused,
    /// Stop: the segment in turn is a placeholder for this slot, which the arguments do
    /// not reach. What the sink took before stays written.
    Missing(usize),
    /// Stop: no segment is left, and the sink took every one.
    Done,
}

impl View for Model {
    type V = Seq<Segment>;

    /// The segments of the model, in the order in which they are emitted.
    closed spec fn view(&self) -> Seq<Segment> {
        segments(self.parts@)
    }
}

impl Model {
    /// Creates a model that holds exactly `parts`, in their order.
    pub fn new(parts: Vec<ModelPart>) -> (model: Model)
        ensures
            model@ == segments(parts@),
    {
        Model { parts }
    }

    /// Returns the parts of the model.
    pub fn parts(&self) -> (parts: &[ModelPart])
        ensures
            segments(parts@) == self@,
    {
        self.parts.as_slice()
    }

    /// Tells what writing the model with `args` to a sink does next, where `position`
    /// segments have been handed to the sink and `taken` says whether the sink took the
    /// last of them.
    ///
    /// Writing starts at position 0 with `taken` set, and goes on from each `Emit` until
    /// the step is one of the three that stop. The sink may be any at all: what it does
    /// with the bytes is its own affair, and only whether it took them comes back.
    pub fn step<'a>(&'a self, args: &'a [Argument<'a>], position: usize, taken: bool) -> (step:
        Step<'a>)
        ensures
            (match step {
                Step::Emit { bytes, next } => {
                    &&& taken
                    &&& position < self@.len()
                    &&& next == position + 1
                    &&& resolved(self@[position as int], argument_bytes(args@)) == Some(bytes@)
                },
                Step::Refused => !taken,
                Step::Missing(index) => {
                    &&& taken
                    &&& position < self@.len()
                    &&& self@[position as int] == Segment::Placeholder(index as nat)
                    &&& index >= args@.len()
                },
                Step::Done => taken && position >= self@.len(),
            }),
    {
        if !taken {
            return Step::Refused;
        }
        if position >= self.parts.len() {
            return Step::Done;
        }
        match &self.parts[position] {
            ModelPart::Text(content) => Step::Emit { bytes: content.as_slice(), next: position + 1 },
            ModelPart::Argument(index) => {
                if *index < args.len() {
                    Step::Emit { bytes: args[*index].as_bytes(), next: position + 1 }
                } else {
                    Step::Missing(*index)
                }
            },
        }
    }

    /// Write the model to a writer held in memory.
    ///
    /// The segments are emitted in order at the end of `writer`, each placeholder as the
    /// bytes of the argument in its slot. At the first placeholder whose slot `args`
    /// does not reach, writing stops with that slot as the error; what was emitted
    /// before stays in `writer`.
    pub fn write(&self, writer: &mut Vec<u8>, args: &[Argument]) -> (result: Result<(), usize>)
        ensures
            final(writer)@ == old(writer)@ + emitted(self@, argument_bytes(args@)),
            match result {
                Ok(_) => missing(self@, argument_bytes(args@)) is None,
                Err(index) => missing(self@, argument_bytes(args@)) == Some(index as nat),
            },
    {
        let ghost slots = argument_bytes(args@);
        let mut position: usize = 0;
        loop
            invariant
                position <= self@.len(),
                slots == argument_bytes(args@),
                forall|k: int| 0 <= k < position ==> resolved(#[trigger] self@[k], slots) is Some,
                writer@ == old(writer)@ + pieces(self@.take(position as int), slots).flatten(),
            decreases self@.len() - position,
        {
            match self.step(args, position, true) {
                Step::Emit { bytes, next } => {
                    writer.extend_from_slice(bytes);
                    proof {
                        lemma_pieces_step(self@, slots, position as int);
                    }
                    position = next;
                },
                Step::Missing(index) => {
                    proof {
                        lemma_resolved_count_is(self@, slots, position as int);
                    }
                    return Err(index);
                },
                Step::Done => {
                    proof {
                        lemma_resolved_count_is(self@, slots, position as int);
                    }
                    return Ok(());
                },
                // A writer held in memory refuses nothing.
                Step::Refused => unreached(),
            }
        }
    }

    /// Creates an image from the model.
    ///
    /// The image holds what writing the model with `args` emits. Where a placeholder
    /// asks for a slot that `args` does not reach, no image is made and the error is the
    /// slot of the first such placeholder.
    pub fn generate(&self, args: &[Argument]) -> (result: Result<Image, usize>)
        ensures
            match result {
                Ok(image) => missing(self@, argument_bytes(args@)) is None && image@ == emitted(
                    self@,
                    argument_bytes(args@),
                ),
                Err(index) => missing(self@, argument_bytes(args@)) == Some(index as nat),
            },
    {
        let mut buffer: Vec<u8> = Vec::with_capacity(1024);
        match self.write(&mut buffer, args) {
            Ok(_) => Ok(Image::new(buffer)),
            Err(index) => Err(index),
        }
    }
}

impl<T: Into<Vec<ModelPart>>> From<T> for Model {
    /// Creates a new model from the given parts: the list that `parts` converts into.
    fn from(parts: T) -> (model: Model)
        ensures
            T::obeys_into_spec() ==> model@ == segments(parts.into_spec()@),
    {
        Model { parts: parts.into() }
    }
}

impl<T: Into<Vec<ModelPart>>> FromSpecImpl<T> for Model {
    open spec fn obeys_from_spec() -> bool {
        T::obeys_into_spec()
    }

    closed spec fn from_spec(parts: T) -> Model {
        Model { parts: parts.into_spec() }
    }
}

} // verus!
