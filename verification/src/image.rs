//! Images: the byte runs that fill the slots of a template and that writing one makes.

use vstd::prelude::*;
use vstd::std_specs::convert::FromSpecImpl;
use vstd::std_specs::convert::IntoSpec;

verus! {

/// An image (in svg format): an opaque run of bytes.
#[derive(Debug, Clone, PartialEq, Eq)]
pub struct Image {
    /// The content of the image.
    content: Vec<u8>,
}

impl View for Image {
    type V = Seq<u8>;

    /// The bytes of the image.
    closed spec fn view(&self) -> Seq<u8> {
        self.content@
    }
}

impl Image {
    /// Creates an image that holds exactly `content`.
    pub fn new(content: Vec<u8>) -> (image: Image)
        ensures
            image@ == content@,
    {
        Image { content }
    }

    /// Returns the content of the image.
    pub fn content(&self) -> (bytes: &[u8])
        ensures
            bytes@ == self@,
    {
        self.content.as_slice()
    }
}

impl<T: Into<Vec<u8>>> From<T> for Image {
    /// Creates a new image from the given content: the bytes that `content` converts into.
    fn from(content: T) -> (image: Image)
        ensures
            T::obeys_into_spec() ==> image@ == content.into_spec()@,
    {
        Image { content: content.into() }
    }
}

impl<T: Into<Vec<u8>>> FromSpecImpl<T> for Image {
    open spec fn obeys_from_spec() -> bool {
        T::obeys_into_spec()
    }

    closed spec fn from_spec(content: T) -> Image {
        Image { content: content.into_spec() }
    }
}

} // verus!
