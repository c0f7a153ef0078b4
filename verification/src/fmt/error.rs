//! The error of writing.

use vstd::prelude::*;

verus! {

/// The one way a write can fail: the text does not fit in what is left of the buffer.
#[derive(Clone, Copy, Debug, PartialEq, Eq, Structural)]
pub enum Error {
    NotEnoughSpace,
}

} // verus!
