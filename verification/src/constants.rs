use vstd::prelude::*;

verus! {

/// How many times a ray may be mirrored before its color is taken as black.
pub const MAX_REFLECTION_DEPTH: usize = 5;

/// The largest value of a color's part in a written image.
pub const MAX_COLOR_VALUE: u8 = 255;

} // verus!
