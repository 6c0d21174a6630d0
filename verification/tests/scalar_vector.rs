use raytrace_core::scalar::{integer_sqrt, Scalar, SCALE};
use raytrace_core::vector::Vector;

fn whole(x: i32, y: i32, z: i32) -> Vector {
    Vector::new(Scalar::from_int(x), Scalar::from_int(y), Scalar::from_int(z))
}

#[test]
fn scalar_constructors_count_millionths() {
    assert_eq!(SCALE, 1_000_000);
    assert_eq!(Scalar::from_int(3).raw(), 3_000_000);
    assert_eq!(Scalar::from_int(-7).raw(), -7_000_000);
    assert_eq!(Scalar::from_ratio(8, 10).raw(), 800_000);
    assert_eq!(Scalar::from_ratio(-1005, 10).raw(), -100_500_000);
    assert_eq!(Scalar::from_ratio(1, -3).raw(), -333_333);
    assert_eq!(Scalar::from_ratio(-1, -3).raw(), 333_333);
    assert_eq!(Scalar::zero().raw(), 0);
    assert_eq!(Scalar::one().raw(), 1_000_000);
    assert_eq!(Scalar::from_raw(17).raw(), 17);
}

#[test]
fn scalar_sum_and_difference() {
    let a = Scalar::from_ratio(15, 10);
    let b = Scalar::from_ratio(25, 10);
    assert_eq!(a.add(b), Scalar::from_int(4));
    assert_eq!(a.sub(b), Scalar::from_int(-1));
    assert_eq!(a.neg(), Scalar::from_ratio(-15, 10));
}

#[test]
fn scalar_product_rounds_toward_zero() {
    let a = Scalar::from_ratio(15, 10);
    let b = Scalar::from_ratio(25, 10);
    assert_eq!(a.mul(b).raw(), 3_750_000);
    assert_eq!(Scalar::from_raw(1).mul(Scalar::from_raw(1)).raw(), 0);
    assert_eq!(Scalar::from_raw(3).mul(Scalar::from_ratio(1, 2)).raw(), 1);
    assert_eq!(Scalar::from_raw(-3).mul(Scalar::from_ratio(1, 2)).raw(), -1);
    assert_eq!(Scalar::from_int(-2).mul(Scalar::from_int(-3)), Scalar::from_int(6));
}

#[test]
fn scalar_quotient_rounds_toward_zero() {
    let one = Scalar::one();
    assert_eq!(one.div(Scalar::from_int(3)).raw(), 333_333);
    assert_eq!(one.neg().div(Scalar::from_int(3)).raw(), -333_333);
    assert_eq!(one.div(Scalar::from_int(-3)).raw(), -333_333);
    assert_eq!(one.neg().div(Scalar::from_int(-3)).raw(), 333_333);
    assert_eq!(Scalar::from_int(7).div(Scalar::from_int(2)).raw(), 3_500_000);
}

#[test]
fn scalar_square_root_rounds_down() {
    assert_eq!(Scalar::from_int(2).sqrt().raw(), 1_414_213);
    assert_eq!(Scalar::from_int(4).sqrt(), Scalar::from_int(2));
    assert_eq!(Scalar::zero().sqrt(), Scalar::zero());
    assert_eq!(Scalar::from_ratio(1, 4).sqrt(), Scalar::from_ratio(1, 2));
}

#[test]
fn integer_square_root_at_the_edges() {
    assert_eq!(integer_sqrt(0), 0);
    assert_eq!(integer_sqrt(1), 1);
    assert_eq!(integer_sqrt(3), 1);
    assert_eq!(integer_sqrt(4), 2);
    assert_eq!(integer_sqrt(99), 9);
    assert_eq!(integer_sqrt(u128::MAX), u64::MAX as u128);
}

#[test]
fn scalar_arithmetic_saturates() {
    let top = Scalar::from_raw(i64::MAX);
    let bottom = Scalar::from_raw(i64::MIN);
    assert_eq!(top.add(Scalar::one()), top);
    assert_eq!(bottom.sub(Scalar::one()), bottom);
    assert_eq!(bottom.neg(), top);
    assert_eq!(top.mul(Scalar::from_int(2)), top);
    assert_eq!(top.mul(Scalar::from_int(-2)), bottom);
    assert_eq!(top.div(Scalar::from_ratio(1, 2)), top);
    assert_eq!(bottom.div(Scalar::from_ratio(1, 2)), bottom);
}

#[test]
fn scalar_comparisons() {
    let a = Scalar::from_int(1);
    let b = Scalar::from_int(2);
    assert!(a.lt(b));
    assert!(!b.lt(a));
    assert!(!a.lt(a));
    assert!(b.gt(a));
    assert!(!a.gt(a));
    assert!(Scalar::from_raw(-1).is_negative());
    assert!(!Scalar::zero().is_negative());
    assert!(Scalar::zero().is_zero());
    assert!(!Scalar::from_raw(1).is_zero());
}

#[test]
fn vector_componentwise_arithmetic() {
    let a = whole(1, 2, 3);
    let b = whole(4, 5, 6);
    assert_eq!(a.add(b), whole(5, 7, 9));
    assert_eq!(a.sub(b), whole(-3, -3, -3));
    assert_eq!(a.scale(Scalar::from_int(3)), whole(3, 6, 9));
    assert_eq!(b.div(Scalar::from_int(2)), Vector::new(
        Scalar::from_int(2),
        Scalar::from_ratio(5, 2),
        Scalar::from_int(3),
    ));
    assert_eq!(Vector::zero(), whole(0, 0, 0));
}

#[test]
fn vector_dot_and_lengths() {
    let a = whole(1, 2, 3);
    let b = whole(4, 5, 6);
    assert_eq!(a.dot(b), Scalar::from_int(32));
    assert_eq!(a.length_squared(), Scalar::from_int(14));
    assert_eq!(whole(3, 4, 0).length(), Scalar::from_int(5));
    assert_eq!(whole(1, 1, 1).length().raw(), 1_732_050);
    assert_eq!(Vector::zero().length(), Scalar::zero());
}

#[test]
fn vector_length_keeps_what_the_squared_length_loses() {
    let tiny = Vector::new(Scalar::from_raw(3), Scalar::from_raw(4), Scalar::zero());
    assert_eq!(tiny.length_squared().raw(), 0);
    assert_eq!(tiny.length().raw(), 5);
}

#[test]
fn vector_length_saturates() {
    let top = Scalar::from_raw(i64::MAX);
    let huge = Vector::new(top, top, top);
    assert_eq!(huge.length(), top);
}

#[test]
fn unit_vector_has_length_one() {
    let unit = whole(3, 4, 0).unit_vector();
    assert_eq!(unit, Vector::new(Scalar::from_ratio(6, 10), Scalar::from_ratio(8, 10), Scalar::zero()));
    assert_eq!(unit.length(), Scalar::one());
    assert_eq!(whole(0, -9, 0).unit_vector(), whole(0, -1, 0));
}

#[test]
fn unit_vector_of_nothing_is_nothing() {
    assert_eq!(Vector::zero().unit_vector(), Vector::zero());
}
