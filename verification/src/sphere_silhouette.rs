use vstd::prelude::*;
use crate::canvas::Canvas;
use crate::laws::translation_grid;
use crate::matrix::{
    Matrix,
    CELL_LIMIT,
    cells_within,
    dot_trunc,
    point_col,
    vector_col,
    lemma_dot_trunc_bound,
    lemma_mul_fits,
    lemma_sign_mul_exact,
    lemma_tdiv_cap,
    lemma_tdiv_le_abs,
};
use crate::point::Point;
use crate::ray::Ray;
use crate::scalar::{Scalar, SCALE, abs_int, tdiv, lemma_tdiv_denominator};
use crate::sphere::{
    Sphere,
    norm_div3,
    spec_t1,
    spec_t2,
    spec_disc,
    lemma_dot_partials,
    lemma_translation_sphere_roots_bounded,
};
use crate::utils::paint_square;
use crate::vector::Vector;

verus! {

/// The ray from `origin` toward the pixel `(x, y)` on the plane `z == 0`,
/// with its direction normalized.
pub fn create_ray(x: usize, y: usize, origin: &Point) -> (r: Ray)
    requires
        x <= 100_000,
        y <= 100_000,
        origin.wf(),
        abs_int(origin.x.raw as int) <= 10_000_000_000_000,
        abs_int(origin.y.raw as int) <= 10_000_000_000_000,
        abs_int(origin.z.raw as int) <= 10_000_000_000_000,
    ensures
        r.origin == *origin,
        r.direction.wf(),
        r.direction.x.raw == tdiv(
            (x * SCALE - origin.x.raw) * SCALE,
            norm_div3(
                x * SCALE - origin.x.raw,
                y * SCALE - origin.y.raw,
                0 - origin.z.raw,
            ),
        ),
        r.direction.y.raw == tdiv(
            (y * SCALE - origin.y.raw) * SCALE,
            norm_div3(
                x * SCALE - origin.x.raw,
                y * SCALE - origin.y.raw,
                0 - origin.z.raw,
            ),
        ),
        r.direction.z.raw == tdiv(
            (0 - origin.z.raw) * SCALE,
            norm_div3(
                x * SCALE - origin.x.raw,
                y * SCALE - origin.y.raw,
                0 - origin.z.raw,
            ),
        ),
{
    let pixel_point = Point::new(
        Scalar::from_int(x as i64),
        Scalar::from_int(y as i64),
        Scalar { raw: 0 },
    );
    let offset = pixel_point.sub(origin);
    proof {
        let dxv = offset.x.raw as int;
        let dyv = offset.y.raw as int;
        let dzv = offset.z.raw as int;
        assert(abs_int(dxv) <= 20_000_000_000_000);
        assert(abs_int(dyv) <= 20_000_000_000_000);
        assert(abs_int(dzv) <= 20_000_000_000_000);
        lemma_mul_fits(dxv, dxv, 20_000_000_000_000, 20_000_000_000_000);
        lemma_mul_fits(dyv, dyv, 20_000_000_000_000, 20_000_000_000_000);
        lemma_mul_fits(dzv, dzv, 20_000_000_000_000, 20_000_000_000_000);
        lemma_dot_partials(dxv * dxv, dyv * dyv, dzv * dzv);
        lemma_tdiv_cap(dxv * dxv, SCALE as int, 400_000_000_000_000_000_000_000_000);
        lemma_tdiv_cap(dyv * dyv, SCALE as int, 400_000_000_000_000_000_000_000_000);
        lemma_tdiv_cap(dzv * dzv, SCALE as int, 400_000_000_000_000_000_000_000_000);
        lemma_mul_fits(dxv, SCALE as int, 20_000_000_000_000, SCALE as int);
        lemma_mul_fits(dyv, SCALE as int, 20_000_000_000_000, SCALE as int);
        lemma_mul_fits(dzv, SCALE as int, 20_000_000_000_000, SCALE as int);
        assert(crate::vector::spec_dot(offset, offset) * SCALE <= u128::MAX);
    }
    let direction = offset.normalize();
    proof {
        assert(crate::vector::spec_norm_div(offset) == norm_div3(
            offset.x.raw as int,
            offset.y.raw as int,
            offset.z.raw as int,
        ));
    }
    Ray::new(*origin, direction)
}

/// Paints the silhouette of a translated sphere probed by a fan of rays: a
/// quarter turn of unit directions, each the Y axis rotated about Z by one
/// angle of the given table (cosine and sine pairs of true angles, so each
/// direction keeps near-unit length).
pub fn draw_sphere_silhouette(angles: &Vec<(Scalar, Scalar)>) -> (canvas: Canvas)
    requires
        forall|k: int|
            0 <= k < angles@.len() ==> abs_int((#[trigger] angles@[k]).0.raw as int) <= SCALE
                && abs_int(angles@[k].1.raw as int) <= SCALE && tdiv(
                angles@[k].0.raw * angles@[k].0.raw,
                SCALE as int,
            ) + tdiv(angles@[k].1.raw * angles@[k].1.raw, SCALE as int) >= 50_000_000,
    ensures
        canvas.wf(),
        canvas.width == 1000,
        canvas.height == 1000,
{
    let mut canvas = Canvas::new(1000, 1000);
    let sphere = Sphere::new(
        Point::new(Scalar { raw: 0 }, Scalar { raw: 0 }, Scalar { raw: 0 }),
        Scalar::from_int(200),
        Some(Matrix::translation_3d(Scalar::from_int(500), Scalar::from_int(500), Scalar {
            raw: 0,
        })),
    );
    proof {
        let tg = translation_grid(50_000_000_000, 50_000_000_000, 0);
        assert forall|i: int| 0 <= i < 4 implies #[trigger] sphere.transform.grid()[i] == tg[i] by {
            assert(sphere.transform.grid()[i].len() == 4);
            assert forall|j: int| 0 <= j < 4 implies sphere.transform.grid()[i][j] == tg[i][j] by {
                assert(sphere.transform.grid()[i][j] == sphere.transform.at(i, j));
            }
            assert(sphere.transform.grid()[i] =~= tg[i]);
        }
        assert(sphere.transform.grid() =~= tg);
    }
    let mut k: usize = 0;
    while k < angles.len()
        invariant
            canvas.wf(),
            canvas.width == 1000,
            canvas.height == 1000,
            k <= angles@.len(),
            sphere.wf(),
            sphere.origin.x.raw == 0 && sphere.origin.y.raw == 0 && sphere.origin.z.raw == 0,
            sphere.radius.raw == 20_000_000_000,
            sphere.transform.grid() == translation_grid(50_000_000_000, 50_000_000_000, 0),
            forall|t: int|
                0 <= t < angles@.len() ==> abs_int((#[trigger] angles@[t]).0.raw as int) <= SCALE
                    && abs_int(angles@[t].1.raw as int) <= SCALE && tdiv(
                    angles@[t].0.raw * angles@[t].0.raw,
                    SCALE as int,
                ) + tdiv(angles@[t].1.raw * angles@[t].1.raw, SCALE as int) >= 50_000_000,
        decreases angles@.len() - k,
    {
        let original_ray = Ray::new(
            Point::new(Scalar { raw: 0 }, Scalar { raw: 0 }, Scalar { raw: 0 }),
            Vector::new(Scalar { raw: 0 }, Scalar::from_int(1), Scalar { raw: 0 }),
        );
        let pair = angles[k];
        let ray_rotation_transform = Matrix::rotate_z_3d(pair.0, pair.1.neg());
        proof {
            assert forall|i: int, j: int|
                0 <= i < ray_rotation_transform.grid().len() && 0 <= j
                    < ray_rotation_transform.grid()[i].len() implies -(CELL_LIMIT as int)
                <= #[trigger] ray_rotation_transform.grid()[i][j] <= (CELL_LIMIT as int) by {
                assert(ray_rotation_transform.grid()[i][j] == ray_rotation_transform.at(i, j));
            }
        }
        let ray = original_ray.transform(&ray_rotation_transform);
        proof {
            let rg = ray_rotation_transform.grid();
            let vcol = vector_col(original_ray.direction);
            assert(vcol[0] == 0 && vcol[1] == SCALE as int && vcol[2] == 0 && vcol[3] == 0);
            crate::matrix::lemma_dot_trunc_unit(rg[0], vcol, 1);
            crate::matrix::lemma_dot_trunc_unit(rg[1], vcol, 1);
            crate::matrix::lemma_dot_trunc_unit(rg[2], vcol, 1);
            assert(rg[0][1] == ray_rotation_transform.at(0, 1));
            assert(rg[1][1] == ray_rotation_transform.at(1, 1));
            assert(rg[2][1] == ray_rotation_transform.at(2, 1));
            assert(ray.direction.x.raw == pair.1.raw);
            assert(ray.direction.y.raw == pair.0.raw);
            assert(ray.direction.z.raw == 0);
            let pcol = point_col(original_ray.origin);
            assert(pcol[0] == 0 && pcol[1] == 0 && pcol[2] == 0 && pcol[3] == SCALE as int);
            crate::matrix::lemma_dot_trunc_unit(rg[0], pcol, 3);
            crate::matrix::lemma_dot_trunc_unit(rg[1], pcol, 3);
            crate::matrix::lemma_dot_trunc_unit(rg[2], pcol, 3);
            assert(rg[0][3] == ray_rotation_transform.at(0, 3));
            assert(rg[1][3] == ray_rotation_transform.at(1, 3));
            assert(rg[2][3] == ray_rotation_transform.at(2, 3));
            assert(ray.origin.x.raw == 0 && ray.origin.y.raw == 0 && ray.origin.z.raw == 0);
        }
        let scaled_x = ray.direction.x.mul(Scalar::from_int(300));
        let scaled_y = ray.direction.y.mul(Scalar::from_int(300));
        proof {
            lemma_tdiv_cap(ray.direction.x.raw * 30_000_000_000, SCALE as int, 3_000_000_000_000_000_000);
            lemma_tdiv_cap(ray.direction.y.raw * 30_000_000_000, SCALE as int, 3_000_000_000_000_000_000);
            lemma_tdiv_cap(scaled_x.raw as int, SCALE as int, 30_000_000_000);
            lemma_tdiv_cap(scaled_y.raw as int, SCALE as int, 30_000_000_000);
        }
        let sil_x = scaled_x.trunc_units();
        let sil_y = scaled_y.trunc_units();
        paint_square(&mut canvas, sil_x as i32, sil_y as i32, 0);
        proof {
            assert(tdiv(ray.direction.x.raw * ray.direction.x.raw, SCALE as int) + tdiv(
                ray.direction.y.raw * ray.direction.y.raw,
                SCALE as int,
            ) + tdiv(ray.direction.z.raw * ray.direction.z.raw, SCALE as int) >= 50_000_000) by {
                assert(tdiv(0int * 0int, SCALE as int) == 0);
            }
            lemma_translation_sphere_roots_bounded(
                sphere,
                ray,
                50_000_000_000,
                50_000_000_000,
                0,
            );
        }
        let intersections = sphere.intersections(&ray);
        match sphere.hit(&intersections) {
            Some(intersection) => {
                proof {
                    assert(intersection.t.raw == spec_t1(sphere, ray) || intersection.t.raw
                        == spec_t2(sphere, ray));
                    assert(spec_disc(sphere, ray) >= 0);
                    assert(abs_int(intersection.t.raw as int) <= 1_000_000_000_000_000_000);
                    lemma_mul_fits(
                        ray.direction.x.raw as int,
                        intersection.t.raw as int,
                        SCALE as int,
                        1_000_000_000_000_000_000,
                    );
                    lemma_mul_fits(
                        ray.direction.y.raw as int,
                        intersection.t.raw as int,
                        SCALE as int,
                        1_000_000_000_000_000_000,
                    );
                    lemma_mul_fits(
                        ray.direction.z.raw as int,
                        intersection.t.raw as int,
                        SCALE as int,
                        1_000_000_000_000_000_000,
                    );
                    lemma_tdiv_le_abs(ray.direction.x.raw * intersection.t.raw, SCALE as int);
                    lemma_tdiv_le_abs(ray.direction.y.raw * intersection.t.raw, SCALE as int);
                    lemma_tdiv_le_abs(ray.direction.z.raw * intersection.t.raw, SCALE as int);
                }
                let step = ray.direction.mul(intersection.t);
                let p = ray.origin.add(&step);
                let hit_x = p.x.trunc_units();
                let hit_y = p.y.trunc_units();
                if -1_000_000_000 < hit_x && hit_x < 1_000_000_000 && -1_000_000_000 < hit_y
                    && hit_y < 1_000_000_000 {
                    paint_square(&mut canvas, hit_x as i32, hit_y as i32, 0);
                }
            },
            None => (),
        }
        k = k + 1;
    }
    let sphere_origin = sphere.transform.mul_point(&sphere.origin);
    proof {
        assert(cells_within(sphere.transform.grid(), CELL_LIMIT as int));
        lemma_dot_trunc_bound(
            sphere.transform.grid()[0],
            point_col(sphere.origin),
            4,
            50_000_000_000,
            SCALE as int,
        );
        lemma_dot_trunc_bound(
            sphere.transform.grid()[1],
            point_col(sphere.origin),
            4,
            50_000_000_000,
            SCALE as int,
        );
        assert forall|t: int|
            0 <= t < 4 implies abs_int(#[trigger] sphere.transform.grid()[0][t])
            <= 50_000_000_000int by {}
        assert forall|t: int|
            0 <= t < 4 implies abs_int(#[trigger] sphere.transform.grid()[1][t])
            <= 50_000_000_000int by {}
        assert forall|t: int|
            0 <= t < 4 implies abs_int(#[trigger] point_col(sphere.origin)[t]) <= (
        SCALE as int) by {}
        lemma_tdiv_cap(sphere_origin.x.raw as int, SCALE as int, 200_000_000_000);
        lemma_tdiv_cap(sphere_origin.y.raw as int, SCALE as int, 200_000_000_000);
    }
    let ox = sphere_origin.x.trunc_units();
    let oy = sphere_origin.y.trunc_units();
    paint_square(&mut canvas, ox as i32, oy as i32, 5);
    canvas
}

/// Paints a sphere of radius two hundred, centred on a five-hundred-pixel
/// canvas, by casting one ray from a fixed eye through every pixel and
/// marking the nearest forward hit.
pub fn draw_sphere() -> (canvas: Canvas)
    ensures
        canvas.wf(),
        canvas.width == 500,
        canvas.height == 500,
{
    let canvas_width: usize = 500;
    let mut canvas = Canvas::new(500, 500);
    let ray_origin = Point::new(
        Scalar::from_int(250),
        Scalar::from_int(250),
        Scalar::from_int(420),
    );
    let sphere = Sphere::new(
        Point::new(Scalar { raw: 0 }, Scalar { raw: 0 }, Scalar { raw: 0 }),
        Scalar::from_int(200),
        Some(Matrix::translation_3d(Scalar::from_int(250), Scalar::from_int(250), Scalar {
            raw: 0,
        })),
    );
    proof {
        let tg = translation_grid(25_000_000_000, 25_000_000_000, 0);
        assert forall|i: int| 0 <= i < 4 implies #[trigger] sphere.transform.grid()[i] == tg[i] by {
            assert(sphere.transform.grid()[i].len() == 4);
            assert forall|j: int| 0 <= j < 4 implies sphere.transform.grid()[i][j] == tg[i][j] by {
                assert(sphere.transform.grid()[i][j] == sphere.transform.at(i, j));
            }
            assert(sphere.transform.grid()[i] =~= tg[i]);
        }
        assert(sphere.transform.grid() =~= tg);
    }
    let mut r_i: usize = 0;
    while r_i < canvas_width
        invariant
            canvas.wf(),
            canvas.width == 500,
            canvas.height == 500,
            canvas_width == 500,
            r_i <= canvas_width,
            ray_origin.x.raw == 25_000_000_000 && ray_origin.y.raw == 25_000_000_000
                && ray_origin.z.raw == 42_000_000_000,
            ray_origin.wf(),
            sphere.wf(),
            sphere.origin.x.raw == 0 && sphere.origin.y.raw == 0 && sphere.origin.z.raw == 0,
            sphere.radius.raw == 20_000_000_000,
            sphere.transform.grid() == translation_grid(25_000_000_000, 25_000_000_000, 0),
        decreases canvas_width - r_i,
    {
        let mut c_i: usize = 0;
        while c_i < canvas_width
            invariant
                canvas.wf(),
                canvas.width == 500,
                canvas.height == 500,
                canvas_width == 500,
                r_i < canvas_width,
                c_i <= canvas_width,
                ray_origin.x.raw == 25_000_000_000 && ray_origin.y.raw == 25_000_000_000
                    && ray_origin.z.raw == 42_000_000_000,
                ray_origin.wf(),
                sphere.wf(),
                sphere.origin.x.raw == 0 && sphere.origin.y.raw == 0 && sphere.origin.z.raw == 0,
                sphere.radius.raw == 20_000_000_000,
                sphere.transform.grid() == translation_grid(25_000_000_000, 25_000_000_000, 0),
            decreases canvas_width - c_i,
        {
            let ray = create_ray(c_i, r_i, &ray_origin);
            proof {
                let sc = SCALE as int;
                let dxv = c_i * sc - 25_000_000_000;
                let dyv = r_i * sc - 25_000_000_000;
                let dzv = 0 - 42_000_000_000int;
                let m = norm_div3(dxv, dyv, dzv);
                let dot = tdiv(dxv * dxv, sc) + tdiv(dyv * dyv, sc) + tdiv(dzv * dzv, sc);
                assert(abs_int(dxv) <= 25_000_000_000);
                assert(abs_int(dyv) <= 25_000_000_000);
                lemma_mul_fits(dxv, dxv, 25_000_000_000, 25_000_000_000);
                lemma_mul_fits(dyv, dyv, 25_000_000_000, 25_000_000_000);
                assert(dxv * dxv >= 0) by (nonlinear_arith);
                assert(dyv * dyv >= 0) by (nonlinear_arith);
                assert(dzv * dzv == 1_764_000_000_000_000_000_000) by (nonlinear_arith)
                    requires
                        dzv == -42_000_000_000int,
                ;
                vstd::arithmetic::div_mod::lemma_div_basics_4(dxv * dxv, sc);
                vstd::arithmetic::div_mod::lemma_div_basics_4(dyv * dyv, sc);
                crate::matrix::lemma_tdiv_cap(dxv * dxv, sc, 625_000_000_000_000_000_000);
                crate::matrix::lemma_tdiv_cap(dyv * dyv, sc, 625_000_000_000_000_000_000);
                vstd::arithmetic::div_mod::lemma_div_multiples_vanish(17_640_000_000_000, sc);
                assert(dzv * dzv == sc * 17_640_000_000_000int);
                assert(tdiv(dzv * dzv, sc) == 17_640_000_000_000int);
                assert(17_640_000_000_000 <= dot <= 30_140_000_000_000);
                // the magnitude is at least one unit and at most 570 units
                crate::scalar::lemma_sqrt_exists(dot * sc);
                assert(m >= 100_000_000 && m <= 57_000_000_000) by (nonlinear_arith)
                    requires
                        crate::scalar::is_sqrt_floor(dot * sc, crate::scalar::sqrt_floor(dot * sc))
                            && m == if crate::scalar::sqrt_floor(dot * sc) == 0 {
                            sc
                        } else {
                            crate::scalar::sqrt_floor(dot * sc)
                        } && sc == 100_000_000 && 17_640_000_000_000 <= dot
                            <= 30_140_000_000_000,
                ;
                // normalized components stay within their world counterparts
                lemma_mul_fits(dxv, sc, 25_000_000_000, sc);
                lemma_mul_fits(dyv, sc, 25_000_000_000, sc);
                lemma_tdiv_denominator(dxv * sc, m, sc);
                lemma_tdiv_denominator(dyv * sc, m, sc);
                lemma_tdiv_denominator(dzv * sc, m, sc);
                lemma_abs_mul_local(dxv, sc);
                lemma_abs_mul_local(dyv, sc);
                lemma_abs_mul_local(dzv, sc);
                vstd::arithmetic::div_mod::lemma_div_multiples_vanish(abs_int(dxv), sc);
                vstd::arithmetic::div_mod::lemma_div_multiples_vanish(abs_int(dyv), sc);
                vstd::arithmetic::div_mod::lemma_div_multiples_vanish(abs_int(dzv), sc);
                assert(abs_int(ray.direction.x.raw as int) <= 25_000_000_000);
                assert(abs_int(ray.direction.y.raw as int) <= 25_000_000_000);
                assert(abs_int(ray.direction.z.raw as int) <= 42_000_000_000);
                // the depth component keeps at least three quarters of a unit
                crate::matrix::lemma_tdiv_abs(dzv * sc, m);
                assert(abs_int(dzv * sc) == 4_200_000_000_000_000_000) by (nonlinear_arith)
                    requires
                        dzv == -42_000_000_000int && sc == 100_000_000,
                ;
                assert(73_000_000 * m <= 4_200_000_000_000_000_000) by (nonlinear_arith)
                    requires
                        m <= 57_000_000_000,
                ;
                vstd::arithmetic::div_mod::lemma_div_is_ordered(
                    73_000_000 * m,
                    4_200_000_000_000_000_000,
                    m,
                );
                vstd::arithmetic::div_mod::lemma_div_multiples_vanish(73_000_000, m);
                assert(73_000_000 * m == m * 73_000_000int);
                assert(abs_int(ray.direction.z.raw as int) >= 73_000_000);
                assert(ray.direction.z.raw * ray.direction.z.raw >= 5_329_000_000_000_000)
                    by (nonlinear_arith)
                    requires
                        abs_int(ray.direction.z.raw as int) >= 73_000_000,
                ;
                crate::scalar::lemma_tdiv_monotone(
                    5_329_000_000_000_000,
                    ray.direction.z.raw * ray.direction.z.raw,
                    sc,
                );
                vstd::arithmetic::div_mod::lemma_div_multiples_vanish(53_290_000, sc);
                assert(5_329_000_000_000_000int == sc * 53_290_000int);
                assert(tdiv(5_329_000_000_000_000int, sc) == 53_290_000);
                assert(tdiv(ray.direction.x.raw * ray.direction.x.raw, sc) >= 0) by {
                    assert(ray.direction.x.raw * ray.direction.x.raw >= 0) by (nonlinear_arith);
                    vstd::arithmetic::div_mod::lemma_div_basics_4(
                        ray.direction.x.raw * ray.direction.x.raw,
                        sc,
                    );
                }
                assert(tdiv(ray.direction.y.raw * ray.direction.y.raw, sc) >= 0) by {
                    assert(ray.direction.y.raw * ray.direction.y.raw >= 0) by (nonlinear_arith);
                    vstd::arithmetic::div_mod::lemma_div_basics_4(
                        ray.direction.y.raw * ray.direction.y.raw,
                        sc,
                    );
                }
                lemma_translation_sphere_roots_bounded(
                    sphere,
                    ray,
                    25_000_000_000,
                    25_000_000_000,
                    0,
                );
            }
            let intersections = sphere.intersections(&ray);
            match sphere.hit(&intersections) {
                Some(intersection) => {
                    proof {
                        assert(intersection.t.raw == spec_t1(sphere, ray) || intersection.t.raw
                            == spec_t2(sphere, ray));
                        assert(spec_disc(sphere, ray) >= 0);
                        assert(abs_int(intersection.t.raw as int) <= 1_000_000_000_000_000_000);
                        lemma_mul_fits(
                            ray.direction.x.raw as int,
                            intersection.t.raw as int,
                            42_000_000_000,
                            1_000_000_000_000_000_000,
                        );
                        lemma_mul_fits(
                            ray.direction.y.raw as int,
                            intersection.t.raw as int,
                            42_000_000_000,
                            1_000_000_000_000_000_000,
                        );
                        lemma_mul_fits(
                            ray.direction.z.raw as int,
                            intersection.t.raw as int,
                            42_000_000_000,
                            1_000_000_000_000_000_000,
                        );
                        lemma_tdiv_le_abs(ray.direction.x.raw * intersection.t.raw, SCALE as int);
                        lemma_tdiv_le_abs(ray.direction.y.raw * intersection.t.raw, SCALE as int);
                        lemma_tdiv_le_abs(ray.direction.z.raw * intersection.t.raw, SCALE as int);
                    }
                    let step = ray.direction.mul(intersection.t);
                    let p = ray.origin.add(&step);
                    let hit_x = p.x.trunc_units();
                    let hit_y = p.y.trunc_units();
                    if -1_000_000_000 < hit_x && hit_x < 1_000_000_000 && -1_000_000_000 < hit_y
                        && hit_y < 1_000_000_000 {
                        paint_square(&mut canvas, hit_x as i32, hit_y as i32, 0);
                    }
                },
                None => (),
            }
            c_i = c_i + 1;
        }
        r_i = r_i + 1;
    }
    canvas
}

/// The magnitude of a product is the product of the magnitudes.
proof fn lemma_abs_mul_local(x: int, y: int)
    ensures
        abs_int(x * y) == abs_int(x) * abs_int(y),
{
    assert(abs_int(x * y) == abs_int(x) * abs_int(y)) by (nonlinear_arith);
}

} // verus!
