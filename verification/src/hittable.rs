//! What a ray can strike, and scenes made of such things.

use crate::material::Material;
use crate::ray::Ray;
use crate::scalar::Scalar;
use crate::vector::Vector;
use vstd::prelude::*;

verus! {

/// Where a ray struck a surface: the time, the place, and the normal there.
#[derive(Clone, Copy, Debug, PartialEq, Eq, Structural)]
pub struct HitRecord {
    pub t: Scalar,
    pub point_at_t: Vector,
    pub normal: Vector,
}

impl HitRecord {
    /// A record with every number zero, to be filled by a hit.
    pub fn new() -> (record: HitRecord)
        ensures
            record == (HitRecord {
                t: Scalar::zero(),
                point_at_t: Vector::zero(),
                normal: Vector::zero(),
            }),
    {
        HitRecord { t: Scalar::zero(), point_at_t: Vector::zero(), normal: Vector::zero() }
    }
}

} // verus!

verus! {

/// Whether `t` lies strictly between `t_min` and `t_max`.
pub open spec fn within(t: Scalar, t_min: Scalar, t_max: Scalar) -> bool {
    t_min@ < t@ < t_max@
}

/// `hit` where it comes before `bound`, and nothing otherwise.
pub open spec fn before<S>(hit: Option<(HitRecord, S)>, bound: Scalar) -> Option<(HitRecord, S)> {
    match hit {
        Some((record, _)) => if record.t@ < bound@ {
            hit
        } else {
            None
        },
        None => None,
    }
}

/// Something a ray can strike.
pub trait Hittable {
    /// The material that a ray finds on it.
    type Surface: Material;

    /// The nearest place where `ray` strikes within the open interval from
    /// `t_min` to `t_max`, with the material there; `None` where it passes by.
    spec fn hit_spec(&self, ray: Ray, t_min: Scalar, t_max: Scalar) -> Option<
        (HitRecord, Self::Surface),
    >;

    /// Looks for the nearest hit of `ray` within the open interval from
    /// `t_min` to `t_max`. On a hit the record is filled and the material
    /// struck is returned; on a miss the record is left as it was.
    fn hit(&self, ray: &Ray, t_min: Scalar, t_max: Scalar, hit_record: &mut HitRecord) -> (struck:
        Option<&Self::Surface>)
        requires
            t_min@ < t_max@,
        ensures
            match struck {
                Some(material) => self.hit_spec(*ray, t_min, t_max) == Some(
                    (*final(hit_record), *material),
                ) && within(final(hit_record).t, t_min, t_max),
                None => self.hit_spec(*ray, t_min, t_max) is None && *final(hit_record) == *old(
                    hit_record,
                ),
            },
    ;

    /// A hit lies strictly inside the interval that was asked for.
    proof fn lemma_hit_in_range(&self, ray: Ray, t_min: Scalar, t_max: Scalar)
        requires
            t_min@ < t_max@,
        ensures
            match self.hit_spec(ray, t_min, t_max) {
                Some((record, _)) => within(record.t, t_min, t_max),
                None => true,
            },
    ;

    /// With a smaller upper end the same hit is found if it still lies
    /// inside the interval, and none otherwise.
    proof fn lemma_hit_narrowed(&self, ray: Ray, t_min: Scalar, bound: Scalar, t_max: Scalar)
        requires
            t_min@ < bound@ <= t_max@,
        ensures
            self.hit_spec(ray, t_min, bound) == before(self.hit_spec(ray, t_min, t_max), bound),
    ;
}

} // verus!

verus! {

/// A scene: things a ray can strike, in the order in which they were given.
pub struct HittableList<H: Hittable> {
    pub elements: Vec<H>,
}

impl<H: Hittable> HittableList<H> {
    /// The upper end of the interval once `best` has been found.
    pub open spec fn bound_after(
        best: Option<(int, HitRecord, H::Surface)>,
        t_max: Scalar,
    ) -> Scalar {
        match best {
            Some((_, record, _)) => record.t,
            None => t_max,
        }
    }

    /// The hit that stands after the first `n` elements have been asked in
    /// turn, each within what is left of the interval below the hit found so
    /// far, and the index of the element that gave it.
    pub open spec fn scan(&self, ray: Ray, t_min: Scalar, t_max: Scalar, n: nat) -> Option<
        (int, HitRecord, H::Surface),
    >
        decreases n,
    {
        if n == 0 {
            None
        } else {
            let best = self.scan(ray, t_min, t_max, (n - 1) as nat);
            match self.elements@[n - 1].hit_spec(ray, t_min, Self::bound_after(best, t_max)) {
                Some((record, material)) => Some((n - 1, record, material)),
                None => best,
            }
        }
    }

    /// Whether element `index` is struck by `ray` within the interval at
    /// the smallest time of all elements, and is the first to be struck then.
    pub open spec fn is_nearest(&self, ray: Ray, t_min: Scalar, t_max: Scalar, index: int) -> bool {
        &&& 0 <= index < self.elements@.len()
        &&& self.elements@[index].hit_spec(ray, t_min, t_max) is Some
        &&& forall|other: int|
            0 <= other < self.elements@.len() ==> match #[trigger] self.elements@[other].hit_spec(
                ray,
                t_min,
                t_max,
            ) {
                Some((record, _)) => {
                    let nearest = self.elements@[index].hit_spec(ray, t_min, t_max).unwrap().0;
                    nearest.t@ <= record.t@ && (nearest.t@ == record.t@ ==> index <= other)
                },
                None => true,
            }
    }

    pub fn new(elements: Vec<H>) -> (list: HittableList<H>)
        ensures
            list.elements == elements,
    {
        HittableList { elements }
    }

    /// What `scan` finds among the first `n` elements is the hit of the
    /// first of those that are struck soonest, taken alone within the whole
    /// interval; it finds nothing only where none of them is struck.
    pub proof fn lemma_scan_finds_nearest(&self, ray: Ray, t_min: Scalar, t_max: Scalar, n: nat)
        requires
            t_min@ < t_max@,
            n <= self.elements@.len(),
        ensures
            match self.scan(ray, t_min, t_max, n) {
                Some((index, record, material)) => {
                    &&& 0 <= index < n
                    &&& within(record.t, t_min, t_max)
                    &&& self.elements@[index].hit_spec(ray, t_min, t_max) == Some(
                        (record, material),
                    )
                    &&& forall|other: int|
                        0 <= other < n ==> match #[trigger] self.elements@[other].hit_spec(
                            ray,
                            t_min,
                            t_max,
                        ) {
                            Some((found, _)) => record.t@ <= found.t@ && (record.t@ == found.t@
                                ==> index <= other),
                            None => true,
                        }
                },
                None => forall|other: int|
                    0 <= other < n ==> #[trigger] self.elements@[other].hit_spec(
                        ray,
                        t_min,
                        t_max,
                    ) is None,
            },
        decreases n,
    {
        if n > 0 {
            self.lemma_scan_finds_nearest(ray, t_min, t_max, (n - 1) as nat);
            let best = self.scan(ray, t_min, t_max, (n - 1) as nat);
            let bound = Self::bound_after(best, t_max);
            let last = self.elements@[n - 1];
            last.lemma_hit_narrowed(ray, t_min, bound, t_max);
            last.lemma_hit_in_range(ray, t_min, t_max);
        }
    }

    /// Nearest wins: where a ray strikes several elements within the
    /// interval, the list reports the hit of the one that is struck soonest,
    /// and of the first of them where several are struck at that time.
    pub proof fn lemma_nearest_wins(&self, ray: Ray, t_min: Scalar, t_max: Scalar)
        requires
            t_min@ < t_max@,
        ensures
            match self.scan(ray, t_min, t_max, self.elements@.len()) {
                Some((index, record, material)) => {
                    &&& self.is_nearest(ray, t_min, t_max, index)
                    &&& self.elements@[index].hit_spec(ray, t_min, t_max) == Some(
                        (record, material),
                    )
                    &&& self.hit_spec(ray, t_min, t_max) == Some((record, material))
                },
                None => {
                    &&& self.hit_spec(ray, t_min, t_max) is None
                    &&& forall|other: int|
                        0 <= other < self.elements@.len()
                            ==> #[trigger] self.elements@[other].hit_spec(ray, t_min, t_max) is None
                },
            },
    {
        self.lemma_scan_finds_nearest(ray, t_min, t_max, self.elements@.len());
    }
}

impl<H: Hittable> Hittable for HittableList<H> {
    type Surface = H::Surface;

    /// What is left after all elements have been asked in turn.
    open spec fn hit_spec(&self, ray: Ray, t_min: Scalar, t_max: Scalar) -> Option<
        (HitRecord, H::Surface),
    > {
        match self.scan(ray, t_min, t_max, self.elements@.len()) {
            Some((_, record, material)) => Some((record, material)),
            None => None,
        }
    }

    fn hit(&self, ray: &Ray, t_min: Scalar, t_max: Scalar, hit_record: &mut HitRecord) -> (struck:
        Option<&H::Surface>) {
        let mut temporal_record = HitRecord::new();
        let mut closest_hit: Option<&H::Surface> = None;
        let mut closest_so_far = t_max;
        let ghost mut best: Option<(int, HitRecord, H::Surface)> = None;
        let mut index: usize = 0;
        while index < self.elements.len()
            invariant
                index <= self.elements@.len(),
                t_min@ < closest_so_far@ <= t_max@,
                best == self.scan(*ray, t_min, t_max, index as nat),
                closest_so_far == Self::bound_after(best, t_max),
                match closest_hit {
                    Some(material) => best is Some && best.unwrap().1 == temporal_record
                        && best.unwrap().2 == *material && closest_so_far@ < t_max@,
                    None => best is None,
                },
            decreases self.elements@.len() - index,
        {
            let hit = self.elements[index].hit(ray, t_min, closest_so_far, &mut temporal_record);
            if hit.is_some() {
                closest_hit = hit;
                closest_so_far = temporal_record.t;
            }
            proof {
                best = self.scan(*ray, t_min, t_max, (index + 1) as nat);
            }
            index = index + 1;
        }
        if closest_hit.is_some() {
            *hit_record = temporal_record;
        }
        closest_hit
    }

    proof fn lemma_hit_in_range(&self, ray: Ray, t_min: Scalar, t_max: Scalar) {
        self.lemma_scan_finds_nearest(ray, t_min, t_max, self.elements@.len());
    }

    proof fn lemma_hit_narrowed(&self, ray: Ray, t_min: Scalar, bound: Scalar, t_max: Scalar) {
        let n = self.elements@.len();
        self.lemma_scan_finds_nearest(ray, t_min, t_max, n);
        self.lemma_scan_finds_nearest(ray, t_min, bound, n);
        assert forall|other: int| 0 <= other < n implies #[trigger] self.elements@[other].hit_spec(
            ray,
            t_min,
            bound,
        ) == before(self.elements@[other].hit_spec(ray, t_min, t_max), bound) by {
            self.elements@[other].lemma_hit_narrowed(ray, t_min, bound, t_max);
        }
        match self.scan(ray, t_min, bound, n) {
            Some((narrow_index, _, _)) => {
                assert(self.elements@[narrow_index].hit_spec(ray, t_min, t_max) is Some);
                match self.scan(ray, t_min, t_max, n) {
                    Some((wide_index, _, _)) => {
                        assert(self.elements@[wide_index].hit_spec(ray, t_min, bound) is Some);
                    },
                    None => {},
                }
            },
            None => {
                match self.scan(ray, t_min, t_max, n) {
                    Some((wide_index, _, _)) => {
                        assert(self.elements@[wide_index].hit_spec(ray, t_min, bound) is None);
                    },
                    None => {},
                }
            },
        }
    }
}

} // verus!
