//! Rays: a starting point and a direction of travel.

use crate::scalar::Scalar;
use crate::vector::Vector;
use vstd::prelude::*;

verus! {

/// A half-line, given by where it starts and the distance covered per unit of time.
#[derive(Clone, Copy, Debug, PartialEq, Eq, Structural)]
pub struct Ray {
    pub origin: Vector,
    pub direction: Vector,
}

impl Ray {
    /// Where the ray is at `time`: the origin moved by `time` directions.
    pub open spec fn point_at_time_spec(&self, time: Scalar) -> Vector {
        self.origin.add(self.direction.scale(time))
    }

    pub fn new(origin: Vector, direction: Vector) -> (ray: Ray)
        ensures
            ray == (Ray { origin, direction }),
    {
        Ray { origin, direction }
    }

    pub fn origin(&self) -> (origin: &Vector)
        ensures
            *origin == self.origin,
    {
        &self.origin
    }

    pub fn direction(&self) -> (direction: &Vector)
        ensures
            *direction == self.direction,
    {
        &self.direction
    }

    #[verifier::when_used_as_spec(point_at_time_spec)]
    pub fn point_at_time(&self, time: Scalar) -> (point: Vector)
        ensures
            point == self.point_at_time_spec(time),
    {
        self.origin.add(self.direction.scale(time))
    }
}

} // verus!
