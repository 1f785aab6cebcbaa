use ray_kernel::canvas::Canvas;
use ray_kernel::color::Color;
use ray_kernel::scalar::Scalar;

fn s(i: i64) -> Scalar {
    Scalar::from_int(i)
}

fn sr(n: i64, d: i64) -> Scalar {
    Scalar::from_ratio(n, d)
}

#[test]
fn should_be_able_to_create_a_canvas() {
    let c = Canvas::new(10, 20);
    println!("{:#?}", c.pixels);
    assert_eq!(c.width, 10);
    assert_eq!(c.height, 20);
    assert_eq!(c.pixels.len(), 20);
    assert_eq!(c.pixels[0].len(), 10);
}

#[test]
fn should_be_able_to_write_a_pixel() {
    let mut c = Canvas::new(10, 20);
    c.write_pixel(&Color::new(s(1), sr(5, 10), sr(3, 10)), 0, 0);
    let mut color_written = c.get_pixel(0, 0);
    assert_eq!(color_written.r, s(1));
    assert_eq!(color_written.g, sr(5, 10));
    assert_eq!(color_written.b, sr(3, 10));

    c.write_pixel(&Color::new(s(1), sr(5, 10), sr(3, 10)), 2, 0);
    color_written = c.get_pixel(2, 0);
    assert_eq!(color_written.r, s(1));
    assert_eq!(color_written.g, sr(5, 10));
    assert_eq!(color_written.b, sr(3, 10));
}

#[test]
fn should_clamp_values_greater_than_dimensions_write() {
    let mut c = Canvas::new(10, 20);
    c.write_pixel(&Color::new(s(1), sr(5, 10), sr(3, 10)), 200, 200);
    let p = c.get_pixel(9, 19);
    assert_eq!(p.r, s(1));
    assert_eq!(p.g, sr(5, 10));
    assert_eq!(p.b, sr(3, 10));
}

#[test]
fn should_clamp_values_greater_than_dimensions_get() {
    let mut c = Canvas::new(10, 20);
    c.write_pixel(&Color::new(s(1), sr(5, 10), sr(3, 10)), 9, 19);
    let p = c.get_pixel(200, 200);
    assert_eq!(p.r, s(1));
    assert_eq!(p.g, sr(5, 10));
    assert_eq!(p.b, sr(3, 10));
}

#[test]
fn should_be_able_to_create_a_color() {
    let color = Color::new(sr(-5, 10), sr(4, 10), sr(17, 10));
    assert_eq!(color.r, sr(-5, 10));
    assert_eq!(color.g, sr(4, 10));
    assert_eq!(color.b, sr(17, 10));
}

#[test]
fn should_be_able_to_add_colors() {
    let c1 = Color::new(s(1), s(2), s(3));
    let c2 = Color::new(s(1), s(2), s(3));
    let new_color = c1.add(&c2);

    assert_eq!(new_color.r, s(2));
    assert_eq!(new_color.g, s(4));
    assert_eq!(new_color.b, s(6));
}

#[test]
fn should_be_able_to_subtract_colors() {
    let c1 = Color::new(s(1), s(2), s(3));
    let c2 = Color::new(s(1), s(3), s(1));
    let new_color = c1.sub(&c2);

    assert_eq!(new_color.r, s(0));
    assert_eq!(new_color.g, s(-1));
    assert_eq!(new_color.b, s(2));
}

#[test]
fn should_be_able_to_multiply_a_color_by_scalar() {
    let c1 = Color::new(s(1), s(2), s(3));
    let new_color = c1.mul_scalar(s(3));

    assert_eq!(new_color.r, s(3));
    assert_eq!(new_color.g, s(6));
    assert_eq!(new_color.b, s(9));
}

#[test]
fn should_be_able_to_multiply_a_color_with_color() {
    let c1 = Color::new(s(1), s(2), s(3));
    let c2 = Color::new(s(1), s(3), s(1));
    let new_color = c1.mul(&c2);

    assert_eq!(new_color.r, s(1));
    assert_eq!(new_color.g, s(6));
    assert_eq!(new_color.b, s(3));
}
