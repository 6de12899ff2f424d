//! The color metric: a normalized Euclidean RGB distance on an integer
//! scale of `[0, 100]`, where 0 means equal channels and 100 the largest
//! possible difference (white against black).

use vstd::prelude::*;

verus! {

/// The largest value `calc_color_distance` returns.
pub const MAX_COLOR_DISTANCE: u32 = 100;

/// Floor of the square root: the unique `r` with `r * r <= n < (r + 1) * (r + 1)`.
pub open spec fn isqrt_spec(n: nat) -> nat
    decreases n,
{
    if n == 0 {
        0
    } else {
        let r = isqrt_spec((n - 1) as nat);
        if (r + 1) * (r + 1) <= n {
            r + 1
        } else {
            r
        }
    }
}

pub proof fn lemma_isqrt_bounds(n: nat)
    ensures
        isqrt_spec(n) * isqrt_spec(n) <= n,
        n < (isqrt_spec(n) + 1) * (isqrt_spec(n) + 1),
    decreases n,
{
    if n == 0 {
        assert(isqrt_spec(n) == 0);
        assert((isqrt_spec(n) + 1) * (isqrt_spec(n) + 1) == 1) by (nonlinear_arith)
            requires
                isqrt_spec(n) == 0,
        ;
    } else {
        let r = isqrt_spec((n - 1) as nat);
        lemma_isqrt_bounds((n - 1) as nat);
        let s = isqrt_spec(n);
        assert(s == if (r + 1) * (r + 1) <= n {
            (r + 1) as nat
        } else {
            r
        });
        assert(s * s <= n && n < (s + 1) * (s + 1)) by (nonlinear_arith)
            requires
                r * r <= n - 1,
                n - 1 < (r + 1) * (r + 1),
                s == if (r + 1) * (r + 1) <= n {
                    (r + 1) as nat
                } else {
                    r
                },
                r >= 0,
                n >= 1,
        ;
    }
}

pub proof fn lemma_isqrt_unique(n: nat, r: nat)
    requires
        r * r <= n,
        n < (r + 1) * (r + 1),
    ensures
        isqrt_spec(n) == r,
{
    let s = isqrt_spec(n);
    lemma_isqrt_bounds(n);
    assert(s == r) by (nonlinear_arith)
        requires
            s * s <= n,
            n < (s + 1) * (s + 1),
            r * r <= n,
            n < (r + 1) * (r + 1),
            s >= 0,
            r >= 0,
    ;
}

/// Computes the floor of the square root of `n`.
fn isqrt(n: u64) -> (r: u64)
    ensures
        r == isqrt_spec(n as nat),
{
    let mut r: u64 = 0;
    while n / (r + 1) > r
        invariant
            r * r <= n,
            r < 0x1_0000_0000,
        decreases n - r,
    {
        proof {
            vstd::arithmetic::div_mod::lemma_fundamental_div_mod(n as int, r + 1);
            assert((r + 1) * (r + 1) <= n && r + 1 <= n && r + 1 < 0x1_0000_0000)
                by (nonlinear_arith)
                requires
                    n == (r + 1) * (n as int / (r + 1) as int) + n as int % (r + 1) as int,
                    n as int % (r + 1) as int >= 0,
                    n as int / (r + 1) as int >= r + 1,
                    n <= 0xFFFF_FFFF_FFFF_FFFF,
                    r >= 0,
            ;
        }
        r = r + 1;
    }
    proof {
        vstd::arithmetic::div_mod::lemma_fundamental_div_mod(n as int, r + 1);
        assert(n < (r + 1) * (r + 1)) by (nonlinear_arith)
            requires
                n == (r + 1) * (n as int / (r + 1) as int) + n as int % (r + 1) as int,
                (n as int % (r + 1) as int) < r + 1,
                (n as int / (r + 1) as int) <= r,
                r >= 0,
        ;
        lemma_isqrt_unique(n as nat, r as nat);
    }
    r
}

/// The squared channel-wise difference of two RGB triples.
pub open spec fn rgb_sq_dist(a: (u8, u8, u8), b: (u8, u8, u8)) -> int {
    (a.0 - b.0) * (a.0 - b.0) + (a.1 - b.1) * (a.1 - b.1) + (a.2 - b.2) * (a.2 - b.2)
}

/// The distance `calc_color_distance` returns: the normalized Euclidean
/// RGB distance scaled to `[0, 100]` and rounded down. 195075 is the
/// largest possible squared difference, `3 * 255 * 255`.
pub open spec fn color_distance_spec(a: (u8, u8, u8), b: (u8, u8, u8)) -> int {
    isqrt_spec(((10000 * rgb_sq_dist(a, b)) / 195075) as nat) as int
}

/// Computes the difference of two RGB color values on the `[0, 100]`
/// scale: 0 exactly when the channels agree, 100 for the two extreme
/// colors (see `lemma_color_distance_extreme`).
pub fn calc_color_distance(color1: (u8, u8, u8), color2: (u8, u8, u8)) -> (d: u32)
    ensures
        d == color_distance_spec(color1, color2),
        d <= MAX_COLOR_DISTANCE,
        color1 == color2 ==> d == 0,
{
    let dr = color1.0 as i64 - color2.0 as i64;
    let dg = color1.1 as i64 - color2.1 as i64;
    let db = color1.2 as i64 - color2.2 as i64;
    proof {
        assert(0 <= dr * dr <= 65025) by (nonlinear_arith)
            requires
                -255 <= dr <= 255,
        ;
        assert(0 <= dg * dg <= 65025) by (nonlinear_arith)
            requires
                -255 <= dg <= 255,
        ;
        assert(0 <= db * db <= 65025) by (nonlinear_arith)
            requires
                -255 <= db <= 255,
        ;
    }
    let sq = (dr * dr + dg * dg + db * db) as u64;
    let q = (10000 * sq) / 195075;
    let d = isqrt(q);
    proof {
        lemma_isqrt_bounds(q as nat);
        assert(q <= 10000) by {
            assert(sq <= 195075);
            assert(10000 * sq <= 10000 * 195075) by (nonlinear_arith)
                requires
                    sq <= 195075,
            ;
            vstd::arithmetic::div_mod::lemma_div_multiples_vanish(10000, 195075);
            vstd::arithmetic::div_mod::lemma_div_is_ordered(
                10000 * sq as int,
                10000int * 195075int,
                195075,
            );
        }
        assert(d <= 100) by (nonlinear_arith)
            requires
                d * d <= q,
                q <= 10000,
                d >= 0,
        ;
        if color1 == color2 {
            lemma_color_distance_zero(color1);
            assert(color_distance_spec(color1, color2) == 0);
        }
    }
    d as u32
}

/// The metric is zero on equal colors.
pub proof fn lemma_color_distance_zero(c: (u8, u8, u8))
    ensures
        color_distance_spec(c, c) == 0,
{
}

/// White against black reaches the maximum of the scale.
pub proof fn lemma_color_distance_extreme()
    ensures
        color_distance_spec((255u8, 255u8, 255u8), (0u8, 0u8, 0u8)) == MAX_COLOR_DISTANCE,
        color_distance_spec((0u8, 0u8, 0u8), (255u8, 255u8, 255u8)) == MAX_COLOR_DISTANCE,
{
    assert(255int * 255int == 65025) by (nonlinear_arith);
    assert((-255int) * (-255int) == 65025) by (nonlinear_arith);
    assert(rgb_sq_dist((255u8, 255u8, 255u8), (0u8, 0u8, 0u8)) == 195075);
    assert(rgb_sq_dist((0u8, 0u8, 0u8), (255u8, 255u8, 255u8)) == 195075);
    vstd::arithmetic::div_mod::lemma_div_multiples_vanish(10000, 195075);
    assert((10000 * 195075) / 195075 == 10000);
    assert(100int * 100int == 10000) by (nonlinear_arith);
    assert(101int * 101int == 10201) by (nonlinear_arith);
    lemma_isqrt_unique(10000, 100);
}

} // verus!
