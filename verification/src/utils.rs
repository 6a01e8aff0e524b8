use vstd::prelude::*;
use crate::scalar::Scalar;

verus! {

pub open spec fn spec_zero_if_trivial(n: Scalar) -> Scalar {
    if n.abs().lt(Scalar::epsilon()) {
        Scalar::zero()
    } else {
        n
    }
}

/// Zero for a value whose size is under the tolerance, else the value.
#[verifier::when_used_as_spec(spec_zero_if_trivial)]
pub fn zero_if_trivial(n: Scalar) -> (r: Scalar)
    ensures
        r == spec_zero_if_trivial(n),
{
    if n.abs().lt(Scalar::epsilon()) {
        Scalar::zero()
    } else {
        n
    }
}

} // verus!
