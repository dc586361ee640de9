use vstd::prelude::*;

pub mod felt;
pub mod codec;
pub mod hash_chain;
pub mod receipt_commitment;
pub mod native;
pub mod resource_bounds;

verus! {

} // verus!
