use ray_kernel::point::Point;
use ray_kernel::scalar::Scalar;
use ray_kernel::vector::Vector;

fn s(i: i64) -> Scalar {
    Scalar::from_int(i)
}

fn sr(n: i64, d: i64) -> Scalar {
    Scalar::from_ratio(n, d)
}

#[test]
fn should_have_w_1_by_default() {
    let point = Point::new(s(1), s(2), s(3));
    assert_eq!(point.w, s(1));
}

#[test]
fn should_be_able_to_create_points() {
    let point = Point::new(s(2), s(-4), s(5));
    assert_eq!(point.x, s(2));
    assert_eq!(point.y, s(-4));
    assert_eq!(point.z, s(5));
}

#[test]
fn point_plus_vector_is_point() {
    let p = Point::new(s(1), s(2), s(3));
    let v = Vector::new(s(1), s(2), s(3));
    let new_point = p.add(&v);
    assert_eq!(new_point.x, s(2));
    assert_eq!(new_point.y, s(4));
    assert_eq!(new_point.z, s(6));
    assert_eq!(new_point.w, s(1));
}

#[test]
fn point_minus_point_is_vector() {
    let p1 = Point::new(s(1), s(2), s(3));
    let p2 = Point::new(s(1), s(2), s(3));
    let new_vector = p1.sub(&p2);
    assert_eq!(new_vector.x, s(0));
    assert_eq!(new_vector.y, s(0));
    assert_eq!(new_vector.z, s(0));
    assert_eq!(new_vector.w, s(0));
}

#[test]
fn point_minus_vector_is_point() {
    let p = Point::new(s(1), s(2), s(3));
    let v = Vector::new(s(2), s(4), s(6));
    let new_point = p.sub_vector(&v);
    assert_eq!(new_point.x, s(-1));
    assert_eq!(new_point.y, s(-2));
    assert_eq!(new_point.z, s(-3));
    assert_eq!(new_point.w, s(1));
}

#[test]
fn should_have_w_0_by_default() {
    let vector = Vector::new(s(1), s(2), s(3));
    assert_eq!(vector.w, s(0));
}

#[test]
fn should_be_able_to_create_vectors() {
    let vector = Vector::new(s(2), s(-4), s(5));
    assert_eq!(vector.x, s(2));
    assert_eq!(vector.y, s(-4));
    assert_eq!(vector.z, s(5));
}

#[test]
fn vector_plus_vector_is_vector() {
    let v1 = Vector::new(s(1), s(2), s(3));
    let v2 = Vector::new(s(1), s(2), s(3));
    let new_vector = v1.add(&v2);
    assert_eq!(new_vector.x, s(2));
    assert_eq!(new_vector.y, s(4));
    assert_eq!(new_vector.z, s(6));
    assert_eq!(new_vector.w, s(0));
}

#[test]
fn vector_plus_point_is_point() {
    let v = Vector::new(s(1), s(2), s(3));
    let p = Point::new(s(1), s(2), s(3));
    let new_point = v.add_point(&p);
    assert_eq!(new_point.x, s(2));
    assert_eq!(new_point.y, s(4));
    assert_eq!(new_point.z, s(6));
    assert_eq!(new_point.w, s(1));
}

#[test]
fn vector_minus_vector_is_point() {
    let v1 = Vector::new(s(1), s(2), s(3));
    let v2 = Vector::new(s(2), s(4), s(6));
    let new_vector = v1.sub(&v2);
    assert_eq!(new_vector.x, s(-1));
    assert_eq!(new_vector.y, s(-2));
    assert_eq!(new_vector.z, s(-3));
    assert_eq!(new_vector.w, s(0));
}

#[test]
fn should_be_able_to_negate_a_vector() {
    let v = Vector::new(s(1), s(0), s(3));
    let new_vector = v.neg();
    assert_eq!(new_vector.x, s(-1));
    assert_eq!(new_vector.y, s(0));
    assert_eq!(new_vector.z, s(-3));
    assert_eq!(new_vector.w, s(0));
}

#[test]
fn should_be_able_to_multiply_a_vector_by_scalar() {
    let v = Vector::new(s(1), s(0), s(3));
    let new_vector = v.mul(s(3));
    assert_eq!(new_vector.x, s(3));
    assert_eq!(new_vector.y, s(0));
    assert_eq!(new_vector.z, s(9));
    assert_eq!(new_vector.w, s(0));
}

#[test]
fn should_be_able_to_divide_a_vector_by_scalar() {
    let v = Vector::new(s(1), s(0), s(3));
    let new_vector = v.div(s(2));
    assert_eq!(new_vector.x, sr(5, 10));
    assert_eq!(new_vector.y, s(0));
    assert_eq!(new_vector.z, sr(15, 10));
    assert_eq!(new_vector.w, s(0));
}

#[test]
fn should_be_able_to_get_the_magnitude() {
    let v = Vector::new(s(1), s(2), s(3));
    let magnitude = v.magnitude();
    assert!(magnitude.approx_eq(sr(374165738, 100000000)));
}

#[test]
fn should_be_able_to_normalize_vector() {
    let v = Vector::new(s(1), s(2), s(3));
    let normalized_vector = v.normalize();
    let diff = s(1).sub(normalized_vector.magnitude());
    assert!(diff.abs().lt(sr(1, 100000)));
}

#[test]
fn should_be_able_to_get_the_dot_product() {
    let v1 = Vector::new(s(1), s(2), s(3));
    let v2 = Vector::new(s(2), s(3), s(4));
    let dot_product = v1.dot_product(&v2);
    assert_eq!(dot_product, s(20));
}
