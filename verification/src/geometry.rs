//! Spheres.

use crate::hittable::{before, within, HitRecord, Hittable};
use crate::material::Material;
use crate::ray::Ray;
use crate::scalar::Scalar;
use crate::vector::Vector;
use vstd::prelude::*;

verus! {

/// A sphere of one material. Its radius is never zero.
pub struct Sphere<M: Material> {
    center: Vector,
    radius: Scalar,
    material: M,
}

impl<M: Material> Sphere<M> {
    #[verifier::type_invariant]
    spec fn radius_not_zero(self) -> bool {
        self.radius@ != 0
    }

    pub closed spec fn center_spec(&self) -> Vector {
        self.center
    }

    pub closed spec fn radius_spec(&self) -> Scalar {
        self.radius
    }

    pub closed spec fn material_spec(&self) -> M {
        self.material
    }

    /// The two times at which `ray` crosses the surface, the earlier first:
    /// with `oc` from the centre to the ray's origin, `a` the direction
    /// dotted with itself, `b` the dot product of `oc` and the direction,
    /// `c` that of `oc` with itself less the radius squared, and
    /// `d = b * b - a * c`, they are `(-b - sqrt(d)) / a` and
    /// `(-b + sqrt(d)) / a`. There are none where `d` is negative or `a` is zero.
    pub open spec fn crossings(&self, ray: Ray) -> Option<(Scalar, Scalar)> {
        let oc = ray.origin.sub(self.center_spec());
        let a = ray.direction.dot(ray.direction);
        let b = oc.dot(ray.direction);
        let c = oc.dot(oc).sub(self.radius_spec().mul(self.radius_spec()));
        let discriminant = b.mul(b).sub(a.mul(c));
        if discriminant@ < 0 || a@ == 0 {
            None
        } else {
            let root = discriminant.sqrt();
            Some((b.neg().sub(root).div(a), b.neg().add(root).div(a)))
        }
    }

    /// The record of a hit at time `t`: the point of the ray there, and the
    /// normal from the centre to that point, divided by the radius.
    pub open spec fn record_at(&self, ray: Ray, t: Scalar) -> HitRecord {
        let point = ray.point_at_time(t);
        HitRecord {
            t,
            point_at_t: point,
            normal: point.sub(self.center_spec()).div(self.radius_spec()),
        }
    }

    /// Makes a sphere. The radius may be negative, but not zero.
    pub fn new(center: Vector, radius: Scalar, material: M) -> (sphere: Sphere<M>)
        requires
            radius@ != 0,
        ensures
            sphere.center_spec() == center,
            sphere.radius_spec() == radius,
            sphere.material_spec() == material,
    {
        Sphere { center, radius, material }
    }

    #[verifier::when_used_as_spec(center_spec)]
    pub fn center(&self) -> (center: Vector)
        ensures
            center == self.center_spec(),
    {
        self.center
    }

    #[verifier::when_used_as_spec(radius_spec)]
    pub fn radius(&self) -> (radius: Scalar)
        ensures
            radius == self.radius_spec(),
            radius@ != 0,
    {
        proof {
            use_type_invariant(self);
        }
        self.radius
    }

    pub fn material(&self) -> (material: &M)
        ensures
            *material == self.material_spec(),
    {
        &self.material
    }

    fn fill(&self, ray: &Ray, t: Scalar, hit_record: &mut HitRecord)
        ensures
            *final(hit_record) == self.record_at(*ray, t),
    {
        proof {
            use_type_invariant(self);
        }
        hit_record.t = t;
        hit_record.point_at_t = ray.point_at_time(t);
        hit_record.normal = hit_record.point_at_t.sub(self.center).div(self.radius);
    }
}

impl<M: Material> Hittable for Sphere<M> {
    type Surface = M;

    /// The earlier crossing where it lies inside the interval, else the
    /// later one where that does, else nothing.
    open spec fn hit_spec(&self, ray: Ray, t_min: Scalar, t_max: Scalar) -> Option<
        (HitRecord, M),
    > {
        match self.crossings(ray) {
            Some((near, far)) => if within(near, t_min, t_max) {
                Some((self.record_at(ray, near), self.material_spec()))
            } else if within(far, t_min, t_max) {
                Some((self.record_at(ray, far), self.material_spec()))
            } else {
                None
            },
            None => None,
        }
    }

    fn hit(&self, ray: &Ray, t_min: Scalar, t_max: Scalar, hit_record: &mut HitRecord) -> (struck:
        Option<&M>) {
        let oc = ray.origin().sub(self.center);
        let a = ray.direction().dot(*ray.direction());
        let b = oc.dot(*ray.direction());
        let c = oc.dot(oc).sub(self.radius.mul(self.radius));
        let discriminant = b.mul(b).sub(a.mul(c));
        if discriminant.is_negative() || a.is_zero() {
            return None;
        }
        let root = discriminant.sqrt();
        let near = b.neg().sub(root).div(a);
        if near.lt(t_max) && near.gt(t_min) {
            self.fill(ray, near, hit_record);
            return Some(&self.material);
        }
        let far = b.neg().add(root).div(a);
        if far.lt(t_max) && far.gt(t_min) {
            self.fill(ray, far, hit_record);
            return Some(&self.material);
        }
        None
    }

    proof fn lemma_hit_in_range(&self, ray: Ray, t_min: Scalar, t_max: Scalar) {
    }

    proof fn lemma_hit_narrowed(&self, ray: Ray, t_min: Scalar, bound: Scalar, t_max: Scalar) {
        self.lemma_crossings_ordered(ray);
    }
}

impl<M: Material> Sphere<M> {
    /// The earlier crossing is not after the later one.
    pub proof fn lemma_crossings_ordered(&self, ray: Ray)
        ensures
            match self.crossings(ray) {
                Some((near, far)) => near@ <= far@,
                None => true,
            },
    {
        let oc = ray.origin.sub(self.center_spec());
        let a = ray.direction.dot(ray.direction);
        let b = oc.dot(ray.direction);
        let c = oc.dot(oc).sub(self.radius_spec().mul(self.radius_spec()));
        let discriminant = b.mul(b).sub(a.mul(c));
        if !(discriminant@ < 0 || a@ == 0) {
            ray.direction.lemma_length_squared_nonnegative();
            let root = discriminant.sqrt();
            Scalar::lemma_sqrt_nonnegative(discriminant);
            Scalar::lemma_div_monotone(b.neg().sub(root), b.neg().add(root), a);
        }
    }

    /// Of the crossings that lie inside the interval, the hit is the
    /// earliest; there is no hit only where neither lies inside it.
    pub proof fn lemma_nearer_crossing_wins(&self, ray: Ray, t_min: Scalar, t_max: Scalar)
        ensures
            match (self.crossings(ray), self.hit_spec(ray, t_min, t_max)) {
                (Some((near, far)), Some((record, material))) => {
                    &&& record.t == near || record.t == far
                    &&& record == self.record_at(ray, record.t)
                    &&& material == self.material_spec()
                    &&& within(record.t, t_min, t_max)
                    &&& within(near, t_min, t_max) ==> record.t@ <= near@
                    &&& within(far, t_min, t_max) ==> record.t@ <= far@
                },
                (Some((near, far)), None) => !within(near, t_min, t_max) && !within(
                    far,
                    t_min,
                    t_max,
                ),
                (None, hit) => hit is None,
            },
    {
        self.lemma_crossings_ordered(ray);
    }

    /// A ray that goes nowhere strikes nothing.
    pub proof fn lemma_still_ray_misses(&self, ray: Ray, t_min: Scalar, t_max: Scalar)
        requires
            ray.direction == Vector::zero(),
        ensures
            self.hit_spec(ray, t_min, t_max) is None,
    {
    }
}

} // verus!
