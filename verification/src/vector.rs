//! Three-component vectors of fixed-point numbers.

use crate::scalar::{floor_sqrt, integer_sqrt, saturate, Scalar};
use vstd::prelude::*;

verus! {

/// A point, a direction or a colour.
#[derive(Clone, Copy, Debug, PartialEq, Eq, Structural)]
pub struct Vector {
    pub x: Scalar,
    pub y: Scalar,
    pub z: Scalar,
}

impl Vector {
    pub open spec fn add_spec(self, rhs: Vector) -> Vector {
        Vector { x: self.x.add(rhs.x), y: self.y.add(rhs.y), z: self.z.add(rhs.z) }
    }

    pub open spec fn sub_spec(self, rhs: Vector) -> Vector {
        Vector { x: self.x.sub(rhs.x), y: self.y.sub(rhs.y), z: self.z.sub(rhs.z) }
    }

    pub open spec fn scale_spec(self, factor: Scalar) -> Vector {
        Vector { x: self.x.mul(factor), y: self.y.mul(factor), z: self.z.mul(factor) }
    }

    /// Meant for `divisor@ != 0`.
    pub open spec fn div_spec(self, divisor: Scalar) -> Vector {
        Vector { x: self.x.div(divisor), y: self.y.div(divisor), z: self.z.div(divisor) }
    }

    pub open spec fn dot_spec(self, rhs: Vector) -> Scalar {
        self.x.mul(rhs.x).add(self.y.mul(rhs.y)).add(self.z.mul(rhs.z))
    }

    pub open spec fn length_squared_spec(self) -> Scalar {
        self.dot_spec(self)
    }

    /// The sum of the squares of the raw components.
    pub open spec fn raw_norm(self) -> int {
        self.x@ * self.x@ + self.y@ * self.y@ + self.z@ * self.z@
    }

    /// The Euclidean length, rounded down to a whole number of raw units.
    pub open spec fn length_spec(self) -> Scalar {
        Scalar::of(floor_sqrt(self.raw_norm()))
    }

    /// The vector divided by its length; a vector of length zero is left as it is.
    pub open spec fn unit_spec(self) -> Vector {
        if self.length_spec()@ == 0 {
            self
        } else {
            self.div_spec(self.length_spec())
        }
    }

    pub fn new(x: Scalar, y: Scalar, z: Scalar) -> (v: Vector)
        ensures
            v == (Vector { x, y, z }),
    {
        Vector { x, y, z }
    }

    /// The vector with all three components zero.
    pub open spec fn zero_spec() -> Vector {
        Vector { x: Scalar::zero(), y: Scalar::zero(), z: Scalar::zero() }
    }

    #[verifier::when_used_as_spec(zero_spec)]
    pub fn zero() -> (v: Vector)
        ensures
            v == Vector::zero_spec(),
    {
        Vector { x: Scalar::zero(), y: Scalar::zero(), z: Scalar::zero() }
    }

    #[verifier::when_used_as_spec(add_spec)]
    pub fn add(self, rhs: Vector) -> (v: Vector)
        ensures
            v == self.add_spec(rhs),
    {
        Vector { x: self.x.add(rhs.x), y: self.y.add(rhs.y), z: self.z.add(rhs.z) }
    }

    #[verifier::when_used_as_spec(sub_spec)]
    pub fn sub(self, rhs: Vector) -> (v: Vector)
        ensures
            v == self.sub_spec(rhs),
    {
        Vector { x: self.x.sub(rhs.x), y: self.y.sub(rhs.y), z: self.z.sub(rhs.z) }
    }

    #[verifier::when_used_as_spec(scale_spec)]
    pub fn scale(self, factor: Scalar) -> (v: Vector)
        ensures
            v == self.scale_spec(factor),
    {
        Vector { x: self.x.mul(factor), y: self.y.mul(factor), z: self.z.mul(factor) }
    }

    #[verifier::when_used_as_spec(div_spec)]
    pub fn div(self, divisor: Scalar) -> (v: Vector)
        requires
            divisor@ != 0,
        ensures
            v == self.div_spec(divisor),
    {
        Vector { x: self.x.div(divisor), y: self.y.div(divisor), z: self.z.div(divisor) }
    }

    #[verifier::when_used_as_spec(dot_spec)]
    pub fn dot(self, rhs: Vector) -> (d: Scalar)
        ensures
            d == self.dot_spec(rhs),
    {
        self.x.mul(rhs.x).add(self.y.mul(rhs.y)).add(self.z.mul(rhs.z))
    }

    #[verifier::when_used_as_spec(length_squared_spec)]
    pub fn length_squared(self) -> (d: Scalar)
        ensures
            d == self.length_squared_spec(),
    {
        self.dot(self)
    }

    fn square(value: Scalar) -> (s: u128)
        ensures
            s == value@ * value@,
            s <= 0x4000_0000_0000_0000_0000_0000_0000_0000,
    {
        let wide: i128 = value.raw() as i128;
        assert(0 <= wide * wide <= 0x4000_0000_0000_0000_0000_0000_0000_0000)
            by (nonlinear_arith)
            requires
                -0x8000_0000_0000_0000 <= wide <= 0x8000_0000_0000_0000,
        ;
        (wide * wide) as u128
    }

    #[verifier::when_used_as_spec(length_spec)]
    pub fn length(self) -> (d: Scalar)
        ensures
            d == self.length_spec(),
            d@ >= 0,
    {
        let norm: u128 = Vector::square(self.x) + Vector::square(self.y) + Vector::square(self.z);
        let root: u128 = integer_sqrt(norm);
        if root > i64::MAX as u128 {
            Scalar::from_raw(i64::MAX)
        } else {
            Scalar::from_raw(root as i64)
        }
    }

    #[verifier::when_used_as_spec(unit_spec)]
    pub fn unit_vector(self) -> (v: Vector)
        ensures
            v == self.unit_spec(),
    {
        let length = self.length();
        if length.is_zero() {
            self
        } else {
            self.div(length)
        }
    }
}

impl Vector {
    /// The squared length of a vector is not negative.
    pub proof fn lemma_length_squared_nonnegative(self)
        ensures
            self.length_squared()@ >= 0,
    {
        Scalar::lemma_square_nonnegative(self.x);
        Scalar::lemma_square_nonnegative(self.y);
        Scalar::lemma_square_nonnegative(self.z);
    }
}

} // verus!
