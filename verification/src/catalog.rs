//! Naming the objects of a folder.
//!
//! An object read from a file is kept under the name of the file up to its last full
//! stop. A file whose name holds no full stop is passed over.

use vstd::prelude::*;

verus! {

/// The full stop that ends the part of a file name under which its object is kept.
pub const FULL_STOP: u8 = 0x2e;

/// Returns the length of the name under which the object of the file `file_name` is
/// kept: the place of the last full stop of `file_name`. `None` says that `file_name`
/// holds no full stop, so that the file is passed over.
pub fn stem_length(file_name: &[u8]) -> (length: Option<usize>)
    ensures
        (match length {
            Some(place) => {
                &&& place < file_name@.len()
                &&& file_name@[place as int] == FULL_STOP
                &&& forall|i: int|
                    place < i < file_name@.len() ==> #[trigger] file_name@[i] != FULL_STOP
            },
            None => forall|i: int|
                0 <= i < file_name@.len() ==> #[trigger] file_name@[i] != FULL_STOP,
        }),
{
    let mut end: usize = file_name.len();
    while end > 0
        invariant
            end <= file_name@.len(),
            forall|i: int| end <= i < file_name@.len() ==> #[trigger] file_name@[i] != FULL_STOP,
        decreases end,
    {
        if file_name[end - 1] == FULL_STOP {
            return Some(end - 1);
        }
        end -= 1;
    }
    None
}

} // verus!
