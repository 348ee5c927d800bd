//! The integer-stream view shared by character and token streams.

use vstd::prelude::*;

verus! {

/// The sentinel returned when reading past either end of a stream.
pub const EOF: isize = -1;

} // verus!
