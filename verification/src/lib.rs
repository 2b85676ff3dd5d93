use vstd::prelude::*;

pub mod rational;
pub mod matrix;
pub mod transform;
pub mod texture;

verus! {

} // verus!
