use vstd::prelude::*;
use vstd::std_specs::cmp::PartialEqSpecImpl;
use crate::scalar::Scalar;

verus! {

/// A color as red, green and blue, each of any size until it is written
/// out.
#[derive(Debug, Clone, Copy)]
pub struct Color(pub Scalar, pub Scalar, pub Scalar);

impl Color {
    pub open spec fn spec_new(r: Scalar, g: Scalar, b: Scalar) -> Color {
        Color(r, g, b)
    }

    #[verifier::when_used_as_spec(spec_new)]
    pub fn new(r: Scalar, g: Scalar, b: Scalar) -> (c: Color)
        ensures
            c == Color::spec_new(r, g, b),
    {
        Color(r, g, b)
    }

    pub open spec fn spec_black() -> Color {
        Color(Scalar::zero(), Scalar::zero(), Scalar::zero())
    }

    #[verifier::when_used_as_spec(spec_black)]
    pub fn black() -> (c: Color)
        ensures
            c == Color::spec_black(),
    {
        Color(Scalar::zero(), Scalar::zero(), Scalar::zero())
    }

    pub open spec fn spec_white() -> Color {
        Color(Scalar::one(), Scalar::one(), Scalar::one())
    }

    #[verifier::when_used_as_spec(spec_white)]
    pub fn white() -> (c: Color)
        ensures
            c == Color::spec_white(),
    {
        Color(Scalar::one(), Scalar::one(), Scalar::one())
    }

    pub open spec fn spec_add(self, other: Color) -> Color {
        Color(self.0.add(other.0), self.1.add(other.1), self.2.add(other.2))
    }

    #[verifier::when_used_as_spec(spec_add)]
    pub fn add(self, other: Color) -> (c: Color)
        ensures
            c == self.spec_add(other),
    {
        Color(self.0.add(other.0), self.1.add(other.1), self.2.add(other.2))
    }

    pub open spec fn spec_sub(self, other: Color) -> Color {
        Color(self.0.sub(other.0), self.1.sub(other.1), self.2.sub(other.2))
    }

    #[verifier::when_used_as_spec(spec_sub)]
    pub fn sub(self, other: Color) -> (c: Color)
        ensures
            c == self.spec_sub(other),
    {
        Color(self.0.sub(other.0), self.1.sub(other.1), self.2.sub(other.2))
    }

    pub open spec fn spec_mul(self, scalar: Scalar) -> Color {
        Color(self.0.mul(scalar), self.1.mul(scalar), self.2.mul(scalar))
    }

    /// The color with each part times `scalar`.
    #[verifier::when_used_as_spec(spec_mul)]
    pub fn mul(self, scalar: Scalar) -> (c: Color)
        ensures
            c == self.spec_mul(scalar),
    {
        Color(self.0.mul(scalar), self.1.mul(scalar), self.2.mul(scalar))
    }

    pub open spec fn spec_hadamard(self, other: Color) -> Color {
        Color(self.0.mul(other.0), self.1.mul(other.1), self.2.mul(other.2))
    }

    /// The blend of two colors: the product part by part.
    #[verifier::when_used_as_spec(spec_hadamard)]
    pub fn hadamard(self, other: Color) -> (c: Color)
        ensures
            c == self.spec_hadamard(other),
    {
        Color(self.0.mul(other.0), self.1.mul(other.1), self.2.mul(other.2))
    }

    /// Whether each part is within the tolerance of the other's.
    pub open spec fn spec_approx_eq(&self, other: &Color) -> bool {
        self.0.approx_eq(other.0) && self.1.approx_eq(other.1) && self.2.approx_eq(other.2)
    }
}

impl PartialEq for Color {
    fn eq(&self, other: &Self) -> (r: bool) {
        self.0.approx_eq(other.0) && self.1.approx_eq(other.1) && self.2.approx_eq(other.2)
    }
}

impl PartialEqSpecImpl for Color {
    open spec fn obeys_eq_spec() -> bool {
        true
    }

    open spec fn eq_spec(&self, other: &Self) -> bool {
        self.spec_approx_eq(other)
    }
}

} // verus!
