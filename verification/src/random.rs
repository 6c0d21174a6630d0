//! A small seedable generator of pseudo-random numbers, so that every
//! computation that draws from it can be repeated.

use crate::scalar::{Scalar, SCALE};
use crate::vector::Vector;
use vstd::prelude::*;

verus! {

pub const MULTIPLIER: u64 = 6364136223846793005;

pub const INCREMENT: u64 = 1442695040888963407;

/// How many raw values lie between minus one and one, both included.
pub const SPAN: u64 = 2_000_001;

/// The state that follows `state`: a linear congruential step modulo 2^64.
pub open spec fn next_state(state: u64) -> u64 {
    state.wrapping_mul(MULTIPLIER).wrapping_add(INCREMENT)
}

/// The number between minus one and one that `state` stands for: its upper
/// half, reduced modulo `SPAN` and shifted down by one.
pub open spec fn component_of(state: u64) -> Scalar {
    Scalar { raw: (((state as int) / 0x1_0000_0000) % (SPAN as int) - SCALE) as i64 }
}

/// A linear congruential generator.
#[derive(Clone, Copy, Debug, PartialEq, Eq, Structural)]
pub struct RandomSource {
    pub state: u64,
}

impl RandomSource {
    /// The source after one draw.
    pub open spec fn advanced(self) -> RandomSource {
        RandomSource { state: next_state(self.state) }
    }

    /// The next three components as a vector, and the source after drawing them.
    pub open spec fn draw_vector(self) -> (Vector, RandomSource) {
        let first = self.advanced();
        let second = first.advanced();
        let third = second.advanced();
        (
            Vector {
                x: component_of(first.state),
                y: component_of(second.state),
                z: component_of(third.state),
            },
            third,
        )
    }

    pub fn new(seed: u64) -> (source: RandomSource)
        ensures
            source.state == seed,
    {
        RandomSource { state: seed }
    }

    /// Draws a number between minus one and one, both included.
    pub fn next_component(&mut self) -> (value: Scalar)
        ensures
            *final(self) == old(self).advanced(),
            value == component_of(final(self).state),
            -SCALE <= value@ <= SCALE,
    {
        self.state = self.state.wrapping_mul(MULTIPLIER).wrapping_add(INCREMENT);
        let reduced: u64 = (self.state / 0x1_0000_0000) % SPAN;
        Scalar::from_raw(reduced as i64 - SCALE)
    }

    /// Draws a vector with each component between minus one and one.
    pub fn next_vector(&mut self) -> (vector: Vector)
        ensures
            (vector, *final(self)) == old(self).draw_vector(),
            -SCALE <= vector.x@ <= SCALE,
            -SCALE <= vector.y@ <= SCALE,
            -SCALE <= vector.z@ <= SCALE,
    {
        let x = self.next_component();
        let y = self.next_component();
        let z = self.next_component();
        Vector::new(x, y, z)
    }
}

} // verus!
