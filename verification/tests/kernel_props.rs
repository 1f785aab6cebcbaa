use ray_kernel::clock_challenge::clock_drawing;
use ray_kernel::matrix::Matrix;
use ray_kernel::point::Point;
use ray_kernel::projectile_challenge::projectile_drawing;
use ray_kernel::ray::Ray;
use ray_kernel::scalar::{Scalar, SCALE};
use ray_kernel::sphere::Sphere;
use ray_kernel::utils::get_random_color;
use ray_kernel::vector::Vector;

fn s(i: i64) -> Scalar {
    Scalar::from_int(i)
}

fn sr(n: i64, d: i64) -> Scalar {
    Scalar::from_ratio(n, d)
}

#[test]
fn inverse_of_inverse_restores_a_translation() {
    let m = Matrix::translation_3d(s(5), s(-3), s(2));
    let back = m.inverse().inverse();
    assert!(back == m);
}

#[test]
fn matrix_times_inverse_is_identity() {
    let m = Matrix::translation_3d(s(5), s(-3), s(2));
    let product = m.mul(&m.inverse());
    assert!(product == Matrix::identity(4));
}

#[test]
fn inverse_of_inverse_restores_a_shear() {
    let mut m = Matrix::new(4, 4);
    m.patch(vec![
        vec![s(1), s(2), s(0), s(0)],
        vec![s(0), s(1), s(0), s(0)],
        vec![s(0), s(0), s(1), s(0)],
        vec![s(0), s(0), s(0), s(1)],
    ]);
    let back = m.inverse().inverse();
    assert!(back == m);
}

#[test]
fn inverse_undoes_a_translated_point() {
    let m = Matrix::translation_3d(s(7), s(11), s(-2));
    let p = Point::new(s(3), s(-4), s(9));
    let roundtrip = m.inverse().mul_point(&m.mul_point(&p));
    assert_eq!(roundtrip.x, s(3));
    assert_eq!(roundtrip.y, s(-4));
    assert_eq!(roundtrip.z, s(9));
    assert_eq!(roundtrip.w, s(1));
}

#[test]
fn normalize_keeps_the_zero_vector() {
    let v = Vector::new(s(0), s(0), s(0));
    let n = v.normalize();
    assert_eq!(n.x, s(0));
    assert_eq!(n.y, s(0));
    assert_eq!(n.z, s(0));
    assert_eq!(n.w, s(0));
}

#[test]
fn normalize_gives_a_unit_vector_exactly_on_a_pythagorean_triple() {
    let v = Vector::new(s(3), s(4), s(0));
    let n = v.normalize();
    assert_eq!(n.x, sr(6, 10));
    assert_eq!(n.y, sr(8, 10));
    assert_eq!(n.z, s(0));
    assert_eq!(n.magnitude(), s(1));
}

#[test]
fn hit_returns_first_non_negative_intersection() {
    let ray = Ray::new(Point::new(s(0), s(0), s(0)), Vector::new(s(0), s(0), s(1)));
    let sphere = Sphere::new(Point::new(s(0), s(0), s(0)), s(1), None);
    let intersections = sphere.intersections(&ray);
    let hit = sphere.hit(&intersections);
    assert!(hit.is_some());
    assert_eq!(hit.unwrap().t, s(1));
}

#[test]
fn hit_skips_a_list_with_only_negative_parameters() {
    let ray = Ray::new(Point::new(s(0), s(0), s(5)), Vector::new(s(0), s(0), s(1)));
    let sphere = Sphere::new(Point::new(s(0), s(0), s(0)), s(1), None);
    let intersections = sphere.intersections(&ray);
    assert_eq!(intersections.len(), 2);
    let hit = sphere.hit(&intersections);
    assert!(hit.is_none());
}

#[test]
fn matrices_differing_by_less_than_epsilon_are_equal() {
    let mut m1 = Matrix::new(1, 2);
    m1.patch(vec![vec![s(1), s(2)]]);
    let mut m2 = Matrix::new(1, 2);
    m2.patch(vec![vec![sr(100000099, 100000000), s(2)]]);
    assert!(m1 == m2);
    let mut m3 = Matrix::new(1, 2);
    m3.patch(vec![vec![sr(10001, 10000), s(2)]]);
    assert!(m1 != m3);
}

#[test]
fn square_root_is_exact_on_perfect_squares() {
    assert_eq!(s(4).sqrt(), s(2));
    assert_eq!(s(144).sqrt(), s(12));
    assert_eq!(s(0).sqrt(), s(0));
}

#[test]
fn random_colors_stay_in_the_unit_interval() {
    let c = get_random_color();
    assert!(0 <= c.r.raw && c.r.raw < SCALE);
    assert!(0 <= c.g.raw && c.g.raw < SCALE);
    assert!(0 <= c.b.raw && c.b.raw < SCALE);
}

#[test]
fn clock_drawing_fills_its_canvas() {
    let canvas = clock_drawing();
    assert_eq!(canvas.width, 1000);
    assert_eq!(canvas.height, 1000);
    assert_eq!(canvas.pixels.len(), 1000);
}

#[test]
fn projectile_drawing_terminates_and_fills_its_canvas() {
    let canvas = projectile_drawing();
    assert_eq!(canvas.width, 350);
    assert_eq!(canvas.height, 350);
    assert_eq!(canvas.pixels.len(), 350);
}

#[test]
fn rotation_about_z_carries_the_x_axis_to_the_y_axis() {
    let m = Matrix::rotate_z_3d(s(0), s(1));
    let p = Point::new(s(1), s(0), s(0));
    let turned = m.mul_point(&p);
    assert_eq!(turned.x, s(0));
    assert_eq!(turned.y, s(1));
    assert_eq!(turned.z, s(0));
    assert_eq!(turned.w, s(1));
}

#[test]
fn sphere_silhouette_paints_with_a_small_fan() {
    let angles = vec![
        (Scalar::from_int(1), Scalar::from_int(0)),
        (Scalar::from_ratio(86602540, 100000000), Scalar::from_ratio(50000000, 100000000)),
        (Scalar::from_int(0), Scalar::from_int(1)),
    ];
    let canvas = ray_kernel::sphere_silhouette::draw_sphere_silhouette(&angles);
    assert_eq!(canvas.width, 1000);
    assert_eq!(canvas.height, 1000);
}

#[test]
fn create_ray_normalizes_its_direction() {
    let origin = Point::new(s(0), s(0), s(-5));
    let ray = ray_kernel::sphere_silhouette::create_ray(0, 0, &origin);
    assert_eq!(ray.origin.x, s(0));
    assert_eq!(ray.origin.z, s(-5));
    assert_eq!(ray.direction.x, s(0));
    assert_eq!(ray.direction.y, s(0));
    assert_eq!(ray.direction.z, s(1));
    assert_eq!(ray.direction.w, s(0));
}
