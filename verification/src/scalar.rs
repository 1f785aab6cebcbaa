use vstd::prelude::*;

verus! {

/// Grid steps per unit: every scalar is an integer count of steps of `1/SCALE`.
pub const SCALE: i128 = 100_000_000;

/// Tolerance of approximate equality, in grid steps (a difference of `1e-5` units).
pub const EPSILON_RAW: i128 = 1_000;

pub open spec fn abs_int(a: int) -> int {
    if a < 0 {
        -a
    } else {
        a
    }
}

/// Truncating division (quotient rounded toward zero): the rounding rule of
/// every inexact fixed-point operation in this crate.
pub open spec fn tdiv(a: int, b: int) -> int {
    let q = abs_int(a) / abs_int(b);
    if (a < 0) == (b < 0) {
        q
    } else {
        -q
    }
}

/// `r` is the floor of the square root of `n`.
pub open spec fn is_sqrt_floor(n: int, r: int) -> bool {
    r >= 0 && r * r <= n && n < (r + 1) * (r + 1)
}

/// The floor of the square root of `n`.
pub open spec fn sqrt_floor(n: int) -> int {
    choose|r: int| is_sqrt_floor(n, r)
}

/// The floor square root is unique, so a witness pins `sqrt_floor` down.
pub proof fn lemma_sqrt_floor_unique(n: int, r: int)
    requires
        is_sqrt_floor(n, r),
    ensures
        sqrt_floor(n) == r,
{
    assert(is_sqrt_floor(n, sqrt_floor(n)));
    let r2 = sqrt_floor(n);
    assert(r == r2) by (nonlinear_arith)
        requires
            is_sqrt_floor(n, r) && is_sqrt_floor(n, r2),
    ;
}

/// Every non-negative number has a floor square root, so `sqrt_floor` is
/// well defined on them.
pub proof fn lemma_sqrt_exists(n: int)
    requires
        n >= 0,
    ensures
        is_sqrt_floor(n, sqrt_floor(n)),
    decreases n,
{
    if n == 0 {
        assert(is_sqrt_floor(0, 0)) by (nonlinear_arith);
        lemma_sqrt_floor_unique(0, 0);
    } else {
        lemma_sqrt_exists(n - 1);
        let r = sqrt_floor(n - 1);
        if n < (r + 1) * (r + 1) {
            assert(is_sqrt_floor(n, r));
            lemma_sqrt_floor_unique(n, r);
        } else {
            assert(n == (r + 1) * (r + 1)) by (nonlinear_arith)
                requires
                    is_sqrt_floor(n - 1, r) && n >= (r + 1) * (r + 1),
            ;
            assert(is_sqrt_floor(n, r + 1)) by (nonlinear_arith)
                requires
                    r >= 0 && n == (r + 1) * (r + 1),
            ;
            lemma_sqrt_floor_unique(n, r + 1);
        }
    }
}

/// A bound on the square bounds the floor square root.
pub proof fn lemma_sqrt_floor_below(n: int, b: int)
    requires
        0 <= n,
        0 <= b,
        n < (b + 1) * (b + 1),
    ensures
        0 <= sqrt_floor(n) <= b,
{
    lemma_sqrt_exists(n);
    assert(sqrt_floor(n) <= b) by (nonlinear_arith)
        requires
            is_sqrt_floor(n, sqrt_floor(n)) && 0 <= b && n < (b + 1) * (b + 1),
    ;
}

/// A larger divisor cannot grow a truncating quotient.
pub proof fn lemma_tdiv_denominator(p: int, d: int, dmin: int)
    requires
        1 <= dmin <= d,
    ensures
        abs_int(tdiv(p, d)) <= abs_int(p) / dmin,
{
    vstd::arithmetic::div_mod::lemma_div_is_ordered_by_denominator(abs_int(p), dmin, d);
    vstd::arithmetic::div_mod::lemma_div_basics_4(abs_int(p), d);
}

/// Truncating division by a positive divisor keeps order.
pub proof fn lemma_tdiv_monotone(x: int, y: int, d: int)
    requires
        x <= y,
        d >= 1,
    ensures
        tdiv(x, d) <= tdiv(y, d),
{
    if x >= 0 {
        vstd::arithmetic::div_mod::lemma_div_is_ordered(x, y, d);
    } else if y >= 0 {
        vstd::arithmetic::div_mod::lemma_div_basics_4(-x, d);
        vstd::arithmetic::div_mod::lemma_div_basics_4(y, d);
    } else {
        vstd::arithmetic::div_mod::lemma_div_is_ordered(-y, -x, d);
    }
}

/// A real number held as a signed count of `1/SCALE` grid steps.
#[derive(Clone, Copy, Debug, PartialEq, Eq, Structural)]
pub struct Scalar {
    pub raw: i128,
}

proof fn lemma_div_le(a: int, b: int)
    requires
        a >= 0,
        b >= 1,
    ensures
        0 <= a / b <= a,
{
    vstd::arithmetic::div_mod::lemma_div_basics_4(a, b);
    vstd::arithmetic::div_mod::lemma_div_basics_5(a, b);
}

/// Division of raw counts, rounded toward zero as Rust integer division rounds.
fn div_trunc(a: i128, b: i128) -> (r: i128)
    requires
        b != 0,
        a != i128::MIN,
        b != i128::MIN,
    ensures
        r == tdiv(a as int, b as int),
        abs_int(r as int) <= abs_int(a as int),
{
    let neg: bool = (a < 0) != (b < 0);
    let ua: u128 = if a < 0 {
        (-a) as u128
    } else {
        a as u128
    };
    let ub: u128 = if b < 0 {
        (-b) as u128
    } else {
        b as u128
    };
    proof {
        lemma_div_le(ua as int, ub as int);
    }
    let q: u128 = ua / ub;
    if neg {
        -(q as i128)
    } else {
        q as i128
    }
}

impl Scalar {
    /// The scalar standing for the whole number `i`.
    pub fn from_int(i: i64) -> (r: Scalar)
        ensures
            r.raw == i * SCALE,
    {
        Scalar { raw: (i as i128) * SCALE }
    }

    /// The scalar nearest `num / den` toward zero on the grid.
    pub fn from_ratio(num: i64, den: i64) -> (r: Scalar)
        requires
            den != 0,
        ensures
            r.raw == tdiv(num * SCALE, den as int),
    {
        Scalar { raw: div_trunc((num as i128) * SCALE, den as i128) }
    }

    pub fn add(self, other: Scalar) -> (r: Scalar)
        requires
            i128::MIN <= self.raw + other.raw <= i128::MAX,
        ensures
            r.raw == self.raw + other.raw,
    {
        Scalar { raw: self.raw + other.raw }
    }

    pub fn sub(self, other: Scalar) -> (r: Scalar)
        requires
            i128::MIN <= self.raw - other.raw <= i128::MAX,
        ensures
            r.raw == self.raw - other.raw,
    {
        Scalar { raw: self.raw - other.raw }
    }

    pub fn neg(self) -> (r: Scalar)
        requires
            self.raw != i128::MIN,
        ensures
            r.raw == -self.raw,
    {
        Scalar { raw: -self.raw }
    }

    pub fn mul(self, other: Scalar) -> (r: Scalar)
        requires
            -i128::MAX <= self.raw * other.raw <= i128::MAX,
        ensures
            r.raw == tdiv(self.raw * other.raw, SCALE as int),
    {
        let p: i128 = self.raw * other.raw;
        Scalar { raw: div_trunc(p, SCALE) }
    }

    pub fn div(self, other: Scalar) -> (r: Scalar)
        requires
            other.raw != 0,
            other.raw != i128::MIN,
            -i128::MAX <= self.raw * SCALE <= i128::MAX,
        ensures
            r.raw == tdiv(self.raw * SCALE, other.raw as int),
    {
        let p: i128 = self.raw * SCALE;
        Scalar { raw: div_trunc(p, other.raw) }
    }

    pub fn abs(self) -> (r: Scalar)
        requires
            self.raw != i128::MIN,
        ensures
            r.raw == abs_int(self.raw as int),
    {
        if self.raw < 0 {
            Scalar { raw: -self.raw }
        } else {
            self
        }
    }

    /// Closeness within the crate's fixed tolerance.
    pub fn approx_eq(self, other: Scalar) -> (r: bool)
        ensures
            r == (abs_int(self.raw - other.raw) <= EPSILON_RAW),
    {
        let a = self.raw;
        let b = other.raw;
        if (a >= 0) == (b >= 0) {
            // Same sign: the difference cannot overflow.
            let d: i128 = a - b;
            let m: i128 = if d < 0 {
                -d
            } else {
                d
            };
            m <= EPSILON_RAW
        } else if a >= 0 {
            // b < 0, so the difference is a + |b|, at least each magnitude.
            if a > EPSILON_RAW || b < -EPSILON_RAW {
                false
            } else {
                a - b <= EPSILON_RAW
            }
        } else {
            if b > EPSILON_RAW || a < -EPSILON_RAW {
                false
            } else {
                b - a <= EPSILON_RAW
            }
        }
    }

    pub fn lt(self, other: Scalar) -> (r: bool)
        ensures
            r == (self.raw < other.raw),
    {
        self.raw < other.raw
    }

    pub fn is_nonneg(self) -> (r: bool)
        ensures
            r == (self.raw >= 0),
    {
        self.raw >= 0
    }

    /// The whole-unit part of the scalar, rounded toward zero.
    pub fn trunc_units(self) -> (r: i128)
        requires
            self.raw != i128::MIN,
        ensures
            r == tdiv(self.raw as int, SCALE as int),
    {
        div_trunc(self.raw, SCALE)
    }

    /// Floor square root on the grid: the largest grid value whose square is
    /// at most `self`.
    pub fn sqrt(self) -> (r: Scalar)
        requires
            0 <= self.raw,
            self.raw * SCALE <= u128::MAX,
        ensures
            0 <= r.raw,
            r.raw * r.raw <= self.raw * SCALE,
            self.raw * SCALE < (r.raw + 1) * (r.raw + 1),
            r.raw == sqrt_floor(self.raw * SCALE),
    {
        let n: u128 = (self.raw as u128) * (SCALE as u128);
        let mut lo: u128 = 0;
        let mut hi: u128 = 0x1_0000_0000_0000_0000;
        while lo + 1 < hi
            invariant
                lo < hi,
                hi <= 0x1_0000_0000_0000_0000,
                lo * lo <= n,
                n < hi * hi,
            decreases hi - lo,
        {
            let mid: u128 = lo + (hi - lo) / 2;
            proof {
                vstd::arithmetic::mul::lemma_mul_upper_bound(
                    mid as int,
                    0xffff_ffff_ffff_ffff,
                    mid as int,
                    0xffff_ffff_ffff_ffff,
                );
            }
            if mid * mid <= n {
                lo = mid;
            } else {
                hi = mid;
            }
        }
        proof {
            lemma_sqrt_floor_unique(self.raw * SCALE, lo as int);
        }
        Scalar { raw: lo as i128 }
    }
}

} // verus!
