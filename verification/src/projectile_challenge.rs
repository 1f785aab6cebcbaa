use vstd::prelude::*;
use crate::canvas::Canvas;
use crate::point::Point;
use crate::scalar::{Scalar, SCALE, lemma_tdiv_monotone};
use crate::utils::paint_square;
use crate::vector::Vector;

verus! {

struct Projectile {
    position: Point,
    velocity: Vector,
}

struct Env {
    gravity: Vector,
    wind: Vector,
}

/// One simulation step: the position advances by the velocity, and the
/// velocity picks up gravity and wind.
fn tick(env: &Env, proj: &Projectile) -> (p: Projectile)
    requires
        i128::MIN <= proj.position.x.raw + proj.velocity.x.raw <= i128::MAX,
        i128::MIN <= proj.position.y.raw + proj.velocity.y.raw <= i128::MAX,
        i128::MIN <= proj.position.z.raw + proj.velocity.z.raw <= i128::MAX,
        i128::MIN <= proj.velocity.x.raw + env.gravity.x.raw <= i128::MAX,
        i128::MIN <= proj.velocity.y.raw + env.gravity.y.raw <= i128::MAX,
        i128::MIN <= proj.velocity.z.raw + env.gravity.z.raw <= i128::MAX,
        i128::MIN <= proj.velocity.x.raw + env.gravity.x.raw + env.wind.x.raw <= i128::MAX,
        i128::MIN <= proj.velocity.y.raw + env.gravity.y.raw + env.wind.y.raw <= i128::MAX,
        i128::MIN <= proj.velocity.z.raw + env.gravity.z.raw + env.wind.z.raw <= i128::MAX,
    ensures
        p.position.x.raw == proj.position.x.raw + proj.velocity.x.raw,
        p.position.y.raw == proj.position.y.raw + proj.velocity.y.raw,
        p.position.z.raw == proj.position.z.raw + proj.velocity.z.raw,
        p.position.w.raw == SCALE,
        p.velocity.x.raw == proj.velocity.x.raw + env.gravity.x.raw + env.wind.x.raw,
        p.velocity.y.raw == proj.velocity.y.raw + env.gravity.y.raw + env.wind.y.raw,
        p.velocity.z.raw == proj.velocity.z.raw + env.gravity.z.raw + env.wind.z.raw,
        p.velocity.w.raw == 0,
{
    let position = proj.position.add(&proj.velocity);
    let velocity = proj.velocity.add(&env.gravity).add(&env.wind);
    Projectile { position, velocity }
}

/// Traces a projectile launched at `(0.7, 1.8, 0)` per tick under gravity
/// `(0, -0.09, 0)` and wind `(-0.01, 0, 0)`, painting its position (scaled
/// by fifteen) until it falls below the ground line.
pub fn projectile_drawing() -> (canvas: Canvas)
    ensures
        canvas.wf(),
        canvas.width == 350,
        canvas.height == 350,
{
    let mut canvas = Canvas::new(350, 350);

    let mut projectile = Projectile {
        position: Point::new(Scalar { raw: 0 }, Scalar { raw: 0 }, Scalar { raw: 0 }),
        velocity: Vector::new(
            Scalar { raw: 70_000_000 },
            Scalar { raw: 180_000_000 },
            Scalar { raw: 0 },
        ),
    };
    let env = Env {
        gravity: Vector::new(Scalar { raw: 0 }, Scalar { raw: -9_000_000 }, Scalar { raw: 0 }),
        wind: Vector::new(Scalar { raw: -1_000_000 }, Scalar { raw: 0 }, Scalar { raw: 0 }),
    };
    let ghost mut k: int = 0;
    while projectile.position.y.raw >= 0
        invariant
            canvas.wf(),
            canvas.width == 350,
            canvas.height == 350,
            env.gravity.x.raw == 0 && env.gravity.y.raw == -9_000_000 && env.gravity.z.raw == 0,
            env.wind.x.raw == -1_000_000 && env.wind.y.raw == 0 && env.wind.z.raw == 0,
            0 <= k <= 42,
            projectile.velocity.x.raw == 70_000_000 - k * 1_000_000,
            projectile.velocity.y.raw == 180_000_000 - k * 9_000_000,
            projectile.velocity.z.raw == 0,
            projectile.position.z.raw == 0,
            projectile.position.w.raw == SCALE,
            projectile.velocity.w.raw == 0,
            2 * projectile.position.x.raw == 2 * 70_000_000 * k - 1_000_000 * k * (k - 1),
            2 * projectile.position.y.raw == 2 * 180_000_000 * k - 9_000_000 * k * (k - 1),
        decreases 42 - k,
    {
        proof {
            // While the projectile is at or above the ground, at most 41
            // ticks have passed: one more and the closed form goes negative.
            assert(k <= 41) by (nonlinear_arith)
                requires
                    0 <= k,
                    2 * projectile.position.y.raw == 2 * 180_000_000 * k - 9_000_000 * k * (k - 1),
                    projectile.position.y.raw >= 0,
            ;
            assert(0 <= projectile.position.x.raw <= 3_000_000_000) by (nonlinear_arith)
                requires
                    0 <= k <= 41,
                    2 * projectile.position.x.raw == 2 * 70_000_000 * k - 1_000_000 * k * (k - 1),
            ;
            assert(projectile.position.y.raw <= 4_000_000_000) by (nonlinear_arith)
                requires
                    0 <= k <= 41,
                    2 * projectile.position.y.raw == 2 * 180_000_000 * k - 9_000_000 * k * (k - 1),
            ;
            lemma_tdiv_monotone(projectile.position.x.raw * 15 * SCALE, 3_000_000_000 * 15
                * SCALE, SCALE as int);
            vstd::arithmetic::div_mod::lemma_div_multiples_vanish(45_000_000_000, SCALE as int);
            lemma_tdiv_monotone(0, projectile.position.x.raw * 15 * SCALE, SCALE as int);
            lemma_tdiv_monotone(projectile.position.y.raw * 15 * SCALE, 4_000_000_000 * 15
                * SCALE, SCALE as int);
            vstd::arithmetic::div_mod::lemma_div_multiples_vanish(60_000_000_000, SCALE as int);
            lemma_tdiv_monotone(0, projectile.position.y.raw * 15 * SCALE, SCALE as int);
        }
        let x_scaled = projectile.position.x.mul(Scalar::from_int(15));
        let y_scaled = projectile.position.y.mul(Scalar::from_int(15));
        proof {
            lemma_tdiv_monotone(x_scaled.raw as int, 45_000_000_000, SCALE as int);
            vstd::arithmetic::div_mod::lemma_div_multiples_vanish(450, SCALE as int);
            lemma_tdiv_monotone(0, x_scaled.raw as int, SCALE as int);
            lemma_tdiv_monotone(y_scaled.raw as int, 60_000_000_000, SCALE as int);
            vstd::arithmetic::div_mod::lemma_div_multiples_vanish(600, SCALE as int);
            lemma_tdiv_monotone(0, y_scaled.raw as int, SCALE as int);
        }
        let x_px = x_scaled.trunc_units();
        let y_px = y_scaled.trunc_units();
        paint_square(&mut canvas, x_px as i32, 350 - (y_px as i32), 3);
        projectile = tick(&env, &projectile);
        proof {
            let k0 = k;
            k = k + 1;
            assert(2 * projectile.position.x.raw == 2 * 70_000_000 * k - 1_000_000 * k * (k - 1))
                by (nonlinear_arith)
                requires
                    k == k0 + 1,
                    2 * (projectile.position.x.raw - projectile.velocity.x.raw - 1_000_000) == 2
                        * 70_000_000 * k0 - 1_000_000 * k0 * (k0 - 1),
                    projectile.velocity.x.raw == 70_000_000 - k0 * 1_000_000 - 1_000_000,
            ;
            assert(2 * projectile.position.y.raw == 2 * 180_000_000 * k - 9_000_000 * k * (k - 1))
                by (nonlinear_arith)
                requires
                    k == k0 + 1,
                    2 * (projectile.position.y.raw - projectile.velocity.y.raw - 9_000_000) == 2
                        * 180_000_000 * k0 - 9_000_000 * k0 * (k0 - 1),
                    projectile.velocity.y.raw == 180_000_000 - k0 * 9_000_000 - 9_000_000,
            ;
        }
    }
    canvas
}

} // verus!
