//! The pieces of a template.

use vstd::prelude::*;
use vstd::std_specs::convert::FromSpecImpl;
use vstd::std_specs::convert::IntoSpec;

verus! {

/// One piece of a template, as contracts speak of it.
pub enum Segment {
    /// A run of bytes that is emitted as it stands.
    Literal(Seq<u8>),
    /// The number of the argument whose bytes are emitted here.
    Placeholder(nat),
}

/// A model part used to create a model.
#[derive(Debug, Clone, PartialEq, Eq)]
pub enum ModelPart {
    /// Some text.
    Text(Vec<u8>),
    /// An argument.
    Argument(usize),
}

impl View for ModelPart {
    type V = Segment;

    open spec fn view(&self) -> Segment {
        match *self {
            ModelPart::Text(content) => Segment::Literal(content@),
            ModelPart::Argument(index) => Segment::Placeholder(index as nat),
        }
    }
}

/// What each of `parts` stands for, in order.
pub open spec fn segments(parts: Seq<ModelPart>) -> Seq<Segment> {
    parts.map_values(|part: ModelPart| part@)
}

impl<T: Into<Vec<u8>>> From<T> for ModelPart {
    /// Creates a new text model part from the given content: the bytes that `content`
    /// converts into.
    fn from(content: T) -> (part: ModelPart)
        ensures
            T::obeys_into_spec() ==> part == ModelPart::Text(content.into_spec()),
    {
        ModelPart::Text(content.into())
    }
}

impl<T: Into<Vec<u8>>> FromSpecImpl<T> for ModelPart {
    open spec fn obeys_from_spec() -> bool {
        T::obeys_into_spec()
    }

    open spec fn from_spec(content: T) -> ModelPart {
        ModelPart::Text(content.into_spec())
    }
}

} // verus!
