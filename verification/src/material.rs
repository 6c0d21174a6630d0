//! Materials: how a surface sends on the light that reaches it.

use crate::hittable::HitRecord;
use crate::random::RandomSource;
use crate::ray::Ray;
use crate::scalar::{trunc_div, Scalar, SCALE};
use crate::vector::Vector;
use vstd::prelude::*;

verus! {

/// How many vectors `random_in_unit_sphere` draws before it settles for the
/// centre of the sphere.
pub const MAX_ATTEMPTS: u32 = 256;

/// Whether `candidate` lies strictly inside the sphere of radius one about the origin.
pub open spec fn in_unit_sphere(candidate: Vector) -> bool {
    candidate.length_squared()@ < SCALE
}

/// The first of the next `attempts` vectors of `source` that lies inside the
/// unit sphere, or the zero vector if none does, and the source after the draws.
pub open spec fn sphere_sample(source: RandomSource, attempts: nat) -> (Vector, RandomSource)
    decreases attempts,
{
    if attempts == 0 {
        (Vector::zero(), source)
    } else {
        let (candidate, rest) = source.draw_vector();
        if in_unit_sphere(candidate) {
            (candidate, rest)
        } else {
            sphere_sample(rest, (attempts - 1) as nat)
        }
    }
}

/// The centre of the unit sphere lies inside it.
pub proof fn lemma_centre_in_unit_sphere()
    ensures
        in_unit_sphere(Vector::zero()),
{
    let zero = Scalar::zero();
    assert(zero@ * zero@ == 0);
    assert(trunc_div(0, SCALE as int) == 0);
    assert(zero.mul(zero) == zero);
    assert(zero.add(zero) == zero);
}

/// A vector inside the unit sphere, by rejection: candidates are drawn from
/// the cube around the sphere until one falls inside it. After
/// `MAX_ATTEMPTS` rejections the zero vector is returned.
pub fn random_in_unit_sphere(source: &mut RandomSource) -> (sample: Vector)
    ensures
        (sample, *final(source)) == sphere_sample(*old(source), MAX_ATTEMPTS as nat),
        in_unit_sphere(sample),
{
    let mut attempts: u32 = MAX_ATTEMPTS;
    while attempts > 0
        invariant
            sphere_sample(*source, attempts as nat) == sphere_sample(
                *old(source),
                MAX_ATTEMPTS as nat,
            ),
        decreases attempts,
    {
        let candidate = source.next_vector();
        if candidate.length_squared().lt(Scalar::one()) {
            return candidate;
        }
        attempts = attempts - 1;
    }
    proof {
        lemma_centre_in_unit_sphere();
    }
    Vector::zero()
}

/// What a material does with a ray that has struck it.
pub trait Material {
    /// Whether the light goes on, the colour it is filtered by, the ray it
    /// leaves along, and the source after the draws the material made.
    spec fn scatter_spec(&self, ray: Ray, hit_record: HitRecord, source: RandomSource) -> (
        bool,
        Vector,
        Ray,
        RandomSource,
    );

    /// Scatters `ray` at the place that `hit_record` describes. `false`
    /// means that the light was absorbed.
    fn scatter(
        &self,
        ray: &Ray,
        hit_record: &HitRecord,
        source: &mut RandomSource,
        attenuation: &mut Vector,
        scattered: &mut Ray,
    ) -> (scatters: bool)
        ensures
            (scatters, *final(attenuation), *final(scattered), *final(source))
                == self.scatter_spec(*ray, *hit_record, *old(source)),
    ;
}

/// A matt surface: light leaves in a random direction about the normal.
#[derive(Clone, Copy, Debug, PartialEq, Eq, Structural)]
pub struct Lambertian {
    pub albedo: Vector,
}

impl Lambertian {
    pub fn new(albedo: Vector) -> (material: Lambertian)
        ensures
            material.albedo == albedo,
    {
        Lambertian { albedo }
    }
}

impl Material for Lambertian {
    open spec fn scatter_spec(&self, ray: Ray, hit_record: HitRecord, source: RandomSource) -> (
        bool,
        Vector,
        Ray,
        RandomSource,
    ) {
        let (sample, rest) = sphere_sample(source, MAX_ATTEMPTS as nat);
        (
            true,
            self.albedo,
            Ray { origin: hit_record.point_at_t, direction: hit_record.normal.add(sample) },
            rest,
        )
    }

    fn scatter(
        &self,
        ray: &Ray,
        hit_record: &HitRecord,
        source: &mut RandomSource,
        attenuation: &mut Vector,
        scattered: &mut Ray,
    ) -> (scatters: bool)
        ensures
            scatters,
            *final(attenuation) == self.albedo,
            final(scattered).origin == hit_record.point_at_t,
    {
        let scatter_direction = hit_record.normal.add(random_in_unit_sphere(source));
        *scattered = Ray::new(hit_record.point_at_t, scatter_direction);
        *attenuation = self.albedo;
        true
    }
}

/// A polished surface: light is mirrored about the normal, blurred by the fuzz factor.
#[derive(Clone, Copy, Debug, PartialEq, Eq, Structural)]
pub struct Metal {
    albedo: Vector,
    fuzz_factor: Scalar,
}

impl Metal {
    #[verifier::type_invariant]
    spec fn fuzz_bounded(self) -> bool {
        self.fuzz_factor@ <= SCALE
    }

    pub closed spec fn albedo_spec(&self) -> Vector {
        self.albedo
    }

    pub closed spec fn fuzz_factor_spec(&self) -> Scalar {
        self.fuzz_factor
    }

    /// The fuzz factor that a metal made with `fuzz_factor` has: the given
    /// one where it is below one, and one otherwise.
    pub open spec fn stored_fuzz(fuzz_factor: Scalar) -> Scalar {
        if fuzz_factor@ < SCALE {
            fuzz_factor
        } else {
            Scalar::one()
        }
    }

    /// `vector` mirrored about the plane whose normal is `n`.
    pub open spec fn reflect_spec(vector: Vector, n: Vector) -> Vector {
        vector.sub(n.scale(vector.dot(n).mul(Scalar::of(2 * SCALE))))
    }

    /// The metal that `new` makes.
    pub closed spec fn new_spec(albedo: Vector, fuzz_factor: Scalar) -> Metal {
        Metal { albedo, fuzz_factor: Metal::stored_fuzz(fuzz_factor) }
    }

    /// Makes a metal. A fuzz factor of one or more is stored as one; a
    /// smaller one, negative ones included, is stored as it is.
    #[verifier::when_used_as_spec(new_spec)]
    pub fn new(albedo: Vector, fuzz_factor: Scalar) -> (material: Metal)
        ensures
            material == Metal::new_spec(albedo, fuzz_factor),
            material.albedo_spec() == albedo,
            material.fuzz_factor_spec() == Metal::stored_fuzz(fuzz_factor),
    {
        let mut fuzz_factor_normalized = Scalar::one();
        if fuzz_factor.lt(Scalar::one()) {
            fuzz_factor_normalized = fuzz_factor;
        }
        Metal { albedo, fuzz_factor: fuzz_factor_normalized }
    }

    #[verifier::when_used_as_spec(albedo_spec)]
    pub fn albedo(&self) -> (albedo: Vector)
        ensures
            albedo == self.albedo_spec(),
    {
        self.albedo
    }

    #[verifier::when_used_as_spec(fuzz_factor_spec)]
    pub fn fuzz_factor(&self) -> (fuzz_factor: Scalar)
        ensures
            fuzz_factor == self.fuzz_factor_spec(),
            fuzz_factor@ <= SCALE,
    {
        proof {
            use_type_invariant(self);
        }
        self.fuzz_factor
    }

    #[verifier::when_used_as_spec(reflect_spec)]
    pub fn reflect(vector: Vector, n: Vector) -> (reflected: Vector)
        ensures
            reflected == Metal::reflect_spec(vector, n),
    {
        vector.sub(n.scale(vector.dot(n).mul(Scalar::from_int(2))))
    }

    /// What a metal is made of can be read back from it.
    pub proof fn lemma_new_fields(albedo: Vector, fuzz_factor: Scalar)
        ensures
            Metal::new(albedo, fuzz_factor).albedo() == albedo,
            Metal::new(albedo, fuzz_factor).fuzz_factor() == Metal::stored_fuzz(fuzz_factor),
            Metal::new(albedo, fuzz_factor).fuzz_factor()@ <= SCALE,
    {
    }

    /// A fuzz factor of one or more gives the metal that a fuzz factor of
    /// exactly one gives, and so the same scattering.
    pub proof fn lemma_fuzz_capped(albedo: Vector, fuzz_factor: Scalar)
        requires
            fuzz_factor@ >= SCALE,
        ensures
            Metal::new(albedo, fuzz_factor) == Metal::new(albedo, Scalar::one()),
            forall|ray: Ray, hit_record: HitRecord, source: RandomSource|
                Metal::new(albedo, fuzz_factor).scatter_spec(ray, hit_record, source)
                    == Metal::new(albedo, Scalar::one()).scatter_spec(
                    ray,
                    hit_record,
                    source,
                ),
    {
    }
}

impl Material for Metal {
    open spec fn scatter_spec(&self, ray: Ray, hit_record: HitRecord, source: RandomSource) -> (
        bool,
        Vector,
        Ray,
        RandomSource,
    ) {
        let (sample, rest) = sphere_sample(source, MAX_ATTEMPTS as nat);
        let reflected = Metal::reflect(ray.direction.unit_vector(), hit_record.normal);
        let direction = reflected.add(sample.scale(self.fuzz_factor()));
        (
            direction.dot(hit_record.normal)@ > 0,
            self.albedo(),
            Ray { origin: hit_record.point_at_t, direction },
            rest,
        )
    }

    fn scatter(
        &self,
        ray: &Ray,
        hit_record: &HitRecord,
        source: &mut RandomSource,
        attenuation: &mut Vector,
        scattered: &mut Ray,
    ) -> (scatters: bool)
        ensures
            *final(attenuation) == self.albedo(),
            scatters == (final(scattered).direction.dot(hit_record.normal)@ > 0),
    {
        let reflected = Metal::reflect(ray.direction().unit_vector(), hit_record.normal);
        *scattered = Ray::new(
            hit_record.point_at_t,
            reflected.add(random_in_unit_sphere(source).scale(self.fuzz_factor)),
        );
        *attenuation = self.albedo;
        scattered.direction().dot(hit_record.normal).gt(Scalar::zero())
    }
}

/// Either of the two materials, so that one scene can hold both.
#[derive(Clone, Copy, Debug, PartialEq, Eq, Structural)]
pub enum AnyMaterial {
    Lambertian(Lambertian),
    Metal(Metal),
}

impl Material for AnyMaterial {
    open spec fn scatter_spec(&self, ray: Ray, hit_record: HitRecord, source: RandomSource) -> (
        bool,
        Vector,
        Ray,
        RandomSource,
    ) {
        match self {
            AnyMaterial::Lambertian(material) => material.scatter_spec(ray, hit_record, source),
            AnyMaterial::Metal(material) => material.scatter_spec(ray, hit_record, source),
        }
    }

    fn scatter(
        &self,
        ray: &Ray,
        hit_record: &HitRecord,
        source: &mut RandomSource,
        attenuation: &mut Vector,
        scattered: &mut Ray,
    ) -> (scatters: bool) {
        match self {
            AnyMaterial::Lambertian(material) => material.scatter(
                ray,
                hit_record,
                source,
                attenuation,
                scattered,
            ),
            AnyMaterial::Metal(material) => material.scatter(
                ray,
                hit_record,
                source,
                attenuation,
                scattered,
            ),
        }
    }
}

} // verus!
