use ray_kernel::intersection::Intersection;
use ray_kernel::matrix::Matrix;
use ray_kernel::object::Object;
use ray_kernel::point::Point;
use ray_kernel::ray::Ray;
use ray_kernel::scalar::Scalar;
use ray_kernel::sphere::Sphere;
use ray_kernel::vector::Vector;

fn s(i: i64) -> Scalar {
    Scalar::from_int(i)
}

fn sr(n: i64, d: i64) -> Scalar {
    Scalar::from_ratio(n, d)
}

#[test]
fn should_create_a_ray() {
    let ray = Ray::new(Point::new(s(2), s(3), s(4)), Vector::new(s(1), s(0), s(0)));
    assert_eq!(ray.origin.x, s(2));
    assert_eq!(ray.origin.y, s(3));
    assert_eq!(ray.origin.z, s(4));
    assert_eq!(ray.origin.w, s(1));

    assert_eq!(ray.direction.x, s(1));
    assert_eq!(ray.direction.y, s(0));
    assert_eq!(ray.direction.z, s(0));
    assert_eq!(ray.direction.w, s(0));
}

#[test]
fn should_create_a_rays_position() {
    let ray = Ray::new(Point::new(s(2), s(3), s(4)), Vector::new(s(1), s(0), s(0)));

    let p1 = ray.position(s(0));
    assert_eq!(p1.x, s(2));
    assert_eq!(p1.y, s(3));
    assert_eq!(p1.z, s(4));
    assert_eq!(p1.w, s(1));

    let p2 = ray.position(s(1));
    assert_eq!(p2.x, s(3));
    assert_eq!(p2.y, s(3));
    assert_eq!(p2.z, s(4));
    assert_eq!(p2.w, s(1));

    let p3 = ray.position(s(-1));
    assert_eq!(p3.x, s(1));
    assert_eq!(p3.y, s(3));
    assert_eq!(p3.z, s(4));
    assert_eq!(p3.w, s(1));
}

#[test]
fn should_translate_the_ray() {
    let ray = Ray::new(Point::new(s(1), s(2), s(3)), Vector::new(s(0), s(1), s(0)));
    let matrix = Matrix::translation_3d(s(3), s(4), s(5));
    let new_ray = ray.transform(&matrix);
    assert_eq!(new_ray.origin.x, s(4));
    assert_eq!(new_ray.origin.y, s(6));
    assert_eq!(new_ray.origin.z, s(8));
    assert_eq!(new_ray.origin.w, s(1));

    assert_eq!(new_ray.direction.x, s(0));
    assert_eq!(new_ray.direction.y, s(1));
    assert_eq!(new_ray.direction.z, s(0));
    assert_eq!(new_ray.direction.w, s(0));
}

#[test]
fn should_scale_the_ray() {
    let ray = Ray::new(Point::new(s(1), s(2), s(3)), Vector::new(s(0), s(1), s(0)));
    let matrix = Matrix::scaling_3d(s(2), s(3), s(4));
    let new_ray = ray.transform(&matrix);
    assert_eq!(new_ray.origin.x, s(2));
    assert_eq!(new_ray.origin.y, s(6));
    assert_eq!(new_ray.origin.z, s(12));
    assert_eq!(new_ray.origin.w, s(1));

    assert_eq!(new_ray.direction.x, s(0));
    assert_eq!(new_ray.direction.y, s(3));
    assert_eq!(new_ray.direction.z, s(0));
    assert_eq!(new_ray.direction.w, s(0));
}

#[test]
fn should_create_new_intersection() {
    let sphere = Sphere::new(Point::new(s(0), s(0), s(0)), s(1), None);
    let intersection = Intersection::new(s(3), sphere);
    assert_eq!(intersection.t, s(3));
    assert_eq!(intersection.object.radius, s(1));
}

#[test]
fn should_create_sphere() {
    let sp = Sphere::new(Point::new(s(1), s(2), s(3)), s(1), None);
    assert_eq!(sp.origin.x, s(1));
    assert_eq!(sp.origin.y, s(2));
    assert_eq!(sp.origin.z, s(3));
    assert_eq!(sp.radius, s(1));
}

#[test]
fn should_get_intersection_points() {
    let ray = Ray::new(Point::new(s(0), s(0), s(-5)), Vector::new(s(0), s(0), s(1)));
    let sphere = Sphere::new(Point::new(s(0), s(0), s(0)), s(1), None);
    let intersections = sphere.intersections(&ray);
    assert_eq!(intersections.len(), 2);
    assert_eq!(intersections[0].t, s(4));
    assert_eq!(intersections[1].t, s(6));
}

#[test]
fn should_get_intersection_tangent_points() {
    let ray = Ray::new(Point::new(s(0), s(1), s(-5)), Vector::new(s(0), s(0), s(1)));
    let sphere = Sphere::new(Point::new(s(0), s(0), s(0)), s(1), None);
    let intersections = sphere.intersections(&ray);
    assert_eq!(intersections.len(), 2);
    assert_eq!(intersections[0].t, s(5));
    assert_eq!(intersections[1].t, s(5));
}

#[test]
fn should_get_intersection_missing_points() {
    let ray = Ray::new(Point::new(s(0), s(2), s(-5)), Vector::new(s(0), s(0), s(1)));
    let sphere = Sphere::new(Point::new(s(0), s(0), s(0)), s(1), None);
    let intersections = sphere.intersections(&ray);
    assert_eq!(intersections.len(), 0);
}

#[test]
fn should_get_intersection_inside_sphere_points() {
    let ray = Ray::new(Point::new(s(0), s(0), s(0)), Vector::new(s(0), s(0), s(1)));
    let sphere = Sphere::new(Point::new(s(0), s(0), s(0)), s(1), None);
    let intersections = sphere.intersections(&ray);
    assert_eq!(intersections.len(), 2);
    assert_eq!(intersections[0].t, s(-1));
    assert_eq!(intersections[1].t, s(1));
}

#[test]
fn should_get_intersection_behind_sphere_points() {
    let ray = Ray::new(Point::new(s(0), s(0), s(5)), Vector::new(s(0), s(0), s(1)));
    let sphere = Sphere::new(Point::new(s(0), s(0), s(0)), s(1), None);
    let intersections = sphere.intersections(&ray);
    assert_eq!(intersections.len(), 2);
    assert_eq!(intersections[0].t, s(-6));
    assert_eq!(intersections[1].t, s(-4));
}

#[test]
fn should_get_intersection_with_transform() {
    let ray = Ray::new(Point::new(s(0), s(0), s(-5)), Vector::new(s(0), s(0), s(1)));
    let sphere = Sphere::new(
        Point::new(s(0), s(0), s(0)),
        s(1),
        Some(Matrix::scaling_3d(s(2), s(2), s(2))),
    );
    let intersections = sphere.intersections(&ray);
    assert_eq!(intersections.len(), 2);
    assert_eq!(intersections[0].t, s(3));
    assert_eq!(intersections[1].t, s(7));
}

#[test]
fn should_get_intersection_with_transform_2() {
    let ray = Ray::new(Point::new(s(0), s(0), s(-5)), Vector::new(s(0), s(0), s(1)));
    let sphere = Sphere::new(
        Point::new(s(0), s(0), s(0)),
        s(1),
        Some(Matrix::translation_3d(s(5), s(0), s(0))),
    );
    let intersections = sphere.intersections(&ray);
    assert_eq!(intersections.len(), 0);
}

#[test]
fn should_get_the_normal() {
    let sphere = Sphere::new(Point::new(s(0), s(0), s(0)), s(1), None);
    let normal = sphere.normal_at(&Point::new(s(1), s(0), s(0)));
    assert_eq!(normal.x, s(1));
    assert_eq!(normal.y, s(0));
    assert_eq!(normal.z, s(0));
    assert_eq!(normal.w, s(0));

    let normal = sphere.normal_at(&Point::new(s(0), s(1), s(0)));
    assert_eq!(normal.x, s(0));
    assert_eq!(normal.y, s(1));
    assert_eq!(normal.z, s(0));
    assert_eq!(normal.w, s(0));

    let normal = sphere.normal_at(&Point::new(s(0), s(0), s(1)));
    assert_eq!(normal.x, s(0));
    assert_eq!(normal.y, s(0));
    assert_eq!(normal.z, s(1));
    assert_eq!(normal.w, s(0));
}

#[test]
fn should_get_the_normal_of_tranformed_sphere() {
    let sphere = Sphere::new(
        Point::new(s(0), s(0), s(0)),
        s(1),
        Some(Matrix::translation_3d(s(0), s(1), s(0))),
    );
    let normal = sphere.normal_at(&Point::new(s(0), sr(170711, 100000), sr(-70711, 100000)));
    assert!(normal.x.approx_eq(s(0)));
    assert!(normal.y.approx_eq(sr(70711, 100000)));
    assert!(normal.z.approx_eq(sr(-70711, 100000)));
    assert!(normal.w.approx_eq(s(0)));

    let sphere = Sphere::new(
        Point::new(s(0), s(0), s(0)),
        s(1),
        Some(
            Matrix::scaling_3d(s(1), sr(5, 10), s(1)).mul(
                &Matrix::rotate_z_3d(sr(80901699, 100000000), sr(58778525, 100000000)),
            ),
        ),
    );
    let normal = sphere.normal_at(
        &Point::new(s(0), sr(70710678, 100000000), sr(-70710678, 100000000)),
    );
    assert!(normal.x.approx_eq(s(0)));
    assert!(normal.y.approx_eq(sr(97014, 100000)));
    assert!(normal.z.approx_eq(sr(-24254, 100000)));
    assert!(normal.w.approx_eq(s(0)));
}
