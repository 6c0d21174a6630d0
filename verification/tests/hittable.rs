use raytrace_core::geometry::Sphere;
use raytrace_core::hittable::{HitRecord, Hittable, HittableList};
use raytrace_core::material::{AnyMaterial, Lambertian, Metal};
use raytrace_core::ray::Ray;
use raytrace_core::scalar::Scalar;
use raytrace_core::vector::Vector;

fn whole(x: i32, y: i32, z: i32) -> Vector {
    Vector::new(Scalar::from_int(x), Scalar::from_int(y), Scalar::from_int(z))
}

fn tenths(x: i32, y: i32, z: i32) -> Vector {
    Vector::new(Scalar::from_ratio(x, 10), Scalar::from_ratio(y, 10), Scalar::from_ratio(z, 10))
}

fn grey(level: i32) -> Lambertian {
    Lambertian::new(tenths(level, level, level))
}

fn ball(z: i32, level: i32) -> Sphere<Lambertian> {
    Sphere::new(whole(0, 0, z), Scalar::from_int(1), grey(level))
}

fn down_the_axis() -> Ray {
    Ray::new(whole(0, 0, 0), whole(0, 0, -1))
}

#[test]
fn hit_record_starts_at_zero() {
    let record = HitRecord::new();
    assert_eq!(record.t, Scalar::zero());
    assert_eq!(record.point_at_t, Vector::zero());
    assert_eq!(record.normal, Vector::zero());
}

#[test]
fn spheres_hittable_list() {
    let sphere_1 = Sphere::new(
        whole(0, 0, 0),
        Scalar::from_int(1),
        AnyMaterial::Lambertian(Lambertian::new(tenths(8, 3, 3))),
    );
    let sphere_2 = Sphere::new(
        Vector::new(Scalar::zero(), Scalar::from_ratio(-1005, 10), Scalar::from_int(-1)),
        Scalar::from_int(100),
        AnyMaterial::Lambertian(Lambertian::new(tenths(8, 8, 0))),
    );
    let sphere_3 = Sphere::new(
        whole(1, 0, -1),
        Scalar::from_ratio(5, 10),
        AnyMaterial::Metal(Metal::new(tenths(8, 6, 2), Scalar::one())),
    );
    let sphere_4 = Sphere::new(
        whole(-1, 0, -1),
        Scalar::from_ratio(5, 10),
        AnyMaterial::Metal(Metal::new(tenths(8, 8, 8), Scalar::one())),
    );
    HittableList::new(vec![sphere_1, sphere_2, sphere_3, sphere_4]);
}

#[test]
fn empty_list_is_never_hit() {
    let list: HittableList<Sphere<Lambertian>> = HittableList::new(vec![]);
    let mut record = HitRecord::new();
    let struck = list.hit(&down_the_axis(), Scalar::zero(), Scalar::from_int(100), &mut record);
    assert!(struck.is_none());
    assert_eq!(record, HitRecord::new());
}

#[test]
fn nearest_sphere_wins_whatever_the_order() {
    let orders: [[i32; 3]; 6] =
        [[5, 7, 10], [5, 10, 7], [7, 5, 10], [7, 10, 5], [10, 5, 7], [10, 7, 5]];
    for order in orders {
        let list = HittableList::new(vec![
            ball(-order[0], order[0]),
            ball(-order[1], order[1]),
            ball(-order[2], order[2]),
        ]);
        let mut record = HitRecord::new();
        let struck = list.hit(&down_the_axis(), Scalar::zero(), Scalar::from_int(100), &mut record);
        assert_eq!(struck, Some(&grey(5)));
        assert_eq!(record.t, Scalar::from_int(4));
        assert_eq!(record.point_at_t, whole(0, 0, -4));
        assert_eq!(record.normal, whole(0, 0, 1));
    }
}

#[test]
fn list_hit_is_not_later_than_any_single_hit() {
    let list = HittableList::new(vec![ball(-10, 1), ball(-5, 2), ball(-7, 3), ball(20, 4)]);
    let ray = down_the_axis();
    let mut record = HitRecord::new();
    assert!(list.hit(&ray, Scalar::zero(), Scalar::from_int(100), &mut record).is_some());
    for sphere in [ball(-10, 1), ball(-5, 2), ball(-7, 3), ball(20, 4)] {
        let mut single = HitRecord::new();
        if sphere.hit(&ray, Scalar::zero(), Scalar::from_int(100), &mut single).is_some() {
            assert!(!single.t.lt(record.t));
        }
    }
}

#[test]
fn earlier_of_two_equal_hits_wins() {
    let list = HittableList::new(vec![ball(-9, 1), ball(-5, 2), ball(-5, 3), ball(-5, 4)]);
    let mut record = HitRecord::new();
    let struck = list.hit(&down_the_axis(), Scalar::zero(), Scalar::from_int(100), &mut record);
    assert_eq!(struck, Some(&grey(2)));
    assert_eq!(record.t, Scalar::from_int(4));
}

#[test]
fn list_looks_only_inside_the_interval() {
    let list = HittableList::new(vec![ball(-5, 1), ball(-10, 2)]);
    let mut record = HitRecord::new();
    let struck = list.hit(&down_the_axis(), Scalar::from_int(6), Scalar::from_int(100), &mut record);
    assert_eq!(struck, Some(&grey(2)));
    assert_eq!(record.t, Scalar::from_int(9));
    let mut other = HitRecord::new();
    let struck = list.hit(&down_the_axis(), Scalar::from_int(4), Scalar::from_int(9), &mut other);
    assert_eq!(struck, Some(&grey(1)));
    assert_eq!(other.t, Scalar::from_int(6));
}

#[test]
fn missed_list_leaves_the_record_alone() {
    let list = HittableList::new(vec![ball(5, 1), ball(10, 2)]);
    let mut record = HitRecord::new();
    record.t = Scalar::from_int(3);
    record.normal = whole(1, 2, 3);
    let before = record;
    assert!(list.hit(&down_the_axis(), Scalar::zero(), Scalar::from_int(100), &mut record).is_none());
    assert_eq!(record, before);
}

#[test]
fn list_hands_out_the_material_that_was_struck() {
    let matt = AnyMaterial::Lambertian(Lambertian::new(tenths(8, 3, 3)));
    let shiny = AnyMaterial::Metal(Metal::new(tenths(8, 6, 2), Scalar::from_ratio(3, 10)));
    let list = HittableList::new(vec![
        Sphere::new(whole(0, 0, -10), Scalar::from_int(1), matt),
        Sphere::new(whole(0, 0, -5), Scalar::from_int(1), shiny),
    ]);
    let mut record = HitRecord::new();
    let struck = list.hit(&down_the_axis(), Scalar::zero(), Scalar::from_int(100), &mut record);
    assert_eq!(struck, Some(&shiny));
    let mut behind = HitRecord::new();
    let struck = list.hit(&down_the_axis(), Scalar::from_int(7), Scalar::from_int(100), &mut behind);
    assert_eq!(struck, Some(&matt));
    assert_eq!(behind.t, Scalar::from_int(9));
}

#[test]
fn lists_of_lists_are_scenes_too() {
    let near = HittableList::new(vec![ball(-20, 1), ball(-5, 2)]);
    let far = HittableList::new(vec![ball(-7, 3), ball(-30, 4)]);
    let scene = HittableList::new(vec![far, near]);
    let mut record = HitRecord::new();
    let struck = scene.hit(&down_the_axis(), Scalar::zero(), Scalar::from_int(100), &mut record);
    assert_eq!(struck, Some(&grey(2)));
    assert_eq!(record.t, Scalar::from_int(4));
}
