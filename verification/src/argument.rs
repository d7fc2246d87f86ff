//! The values that fill the slots of a template.

use crate::image::Image;
use vstd::prelude::*;
use vstd::std_specs::convert::FromSpecImpl;
use vstd::std_specs::convert::IntoSpec;

verus! {

/// A model argument used to pass arguments to a model to generate an image.
#[derive(Debug, Clone, PartialEq, Eq)]
pub enum Argument<'a> {
    /// Some text.
    Text(Vec<u8>),
    /// An image.
    Image(&'a Image),
    /// An empty argument.
    Empty,
}

impl<'a> Argument<'a> {
    /// The bytes that stand in place of a slot this argument fills: the text itself, the
    /// content of the image, or nothing.
    pub open spec fn bytes(self) -> Seq<u8> {
        match self {
            Argument::Text(content) => content@,
            Argument::Image(image) => image@,
            Argument::Empty => Seq::empty(),
        }
    }

    /// Returns the bytes that stand in place of a slot this argument fills.
    pub fn as_bytes(&self) -> (bytes: &[u8])
        ensures
            bytes@ == self.bytes(),
    {
        match self {
            Argument::Text(content) => content.as_slice(),
            Argument::Image(image) => image.content(),
            Argument::Empty => &[],
        }
    }
}

/// The bytes of each of `args`, in order: the list that slot numbers count into.
pub open spec fn argument_bytes(args: Seq<Argument<'_>>) -> Seq<Seq<u8>> {
    args.map_values(|arg: Argument<'_>| arg.bytes())
}

impl<T: Into<Vec<u8>>> From<T> for Argument<'static> {
    /// Creates a new text argument from the given content: the bytes that `content`
    /// converts into.
    fn from(content: T) -> (arg: Argument<'static>)
        ensures
            T::obeys_into_spec() ==> arg == Argument::Text(content.into_spec()),
    {
        Argument::Text(content.into())
    }
}

impl<T: Into<Vec<u8>>> FromSpecImpl<T> for Argument<'static> {
    open spec fn obeys_from_spec() -> bool {
        T::obeys_into_spec()
    }

    open spec fn from_spec(content: T) -> Argument<'static> {
        Argument::Text(content.into_spec())
    }
}

} // verus!
