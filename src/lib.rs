use vstd::prelude::*;

pub mod decode;
pub mod letterbox;
pub mod pipeline;
pub mod remap;
pub mod score;

verus! {

/// Side length of the square model input, in pixels.
pub const INPUT_SIZE: i32 = 257;

} // verus!
