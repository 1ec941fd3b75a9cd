use vstd::prelude::*;

verus! {

/// The number of base-field limbs that hold one 252-bit memory value.
pub const N_M31_IN_FELT252: usize = 28;

} // verus!
