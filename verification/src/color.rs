//! Fixed-point colors and the color-distance scoring formula.
//!
//! A channel is stored in thousandths of the unit interval, so `1000`
//! stands for a fully saturated channel. The score contribution of a
//! bucket is the Euclidean distance between its paint color and its
//! label color, normalized to the unit interval and likewise expressed
//! in thousandths:
//!
//! `floor(1000 * sqrt(dr^2 + dg^2 + db^2) / sqrt(3))`
//!
//! with each channel difference `dr, dg, db` taken in the unit interval.
//! With channels in thousandths that is exactly `floor(sqrt(d2 / 3))`
//! where `d2` is the sum of the squared channel differences.

use vstd::prelude::*;

verus! {

broadcast use vstd::arithmetic::mul::lemma_mul_nonnegative;

/// A channel value of `CHANNEL_MAX` stands for 1.0.
pub const CHANNEL_MAX: u32 = 1000;

/// A color with fixed-point channels: each channel lies in
/// `0 ..= CHANNEL_MAX` and stands for that many thousandths.
#[derive(Clone, Copy, Debug, PartialEq, Eq, Structural)]
pub struct ColorMillis {
    pub r: u32,
    pub g: u32,
    pub b: u32,
    pub a: u32,
}

impl ColorMillis {
    /// Every channel lies in the unit interval.
    pub open spec fn wf(self) -> bool {
        self.r <= CHANNEL_MAX && self.g <= CHANNEL_MAX && self.b <= CHANNEL_MAX
            && self.a <= CHANNEL_MAX
    }

    /// The neutral white paint a fresh bucket is filled with.
    pub open spec fn white_spec() -> ColorMillis {
        ColorMillis { r: 1000, g: 1000, b: 1000, a: 1000 }
    }

    pub fn new(r: u32, g: u32, b: u32, a: u32) -> (c: ColorMillis)
        requires
            r <= CHANNEL_MAX,
            g <= CHANNEL_MAX,
            b <= CHANNEL_MAX,
            a <= CHANNEL_MAX,
        ensures
            c == (ColorMillis { r, g, b, a }),
            c.wf(),
    {
        ColorMillis { r, g, b, a }
    }

    pub fn white() -> (c: ColorMillis)
        ensures
            c == ColorMillis::white_spec(),
            c.wf(),
    {
        ColorMillis { r: 1000, g: 1000, b: 1000, a: 1000 }
    }
}

/// The integer square root: the largest `r` with `r * r <= n`.
pub open spec fn sqrt_floor(n: nat) -> nat
    decreases n,
{
    if n == 0 {
        0
    } else {
        let p = sqrt_floor((n - 1) as nat);
        if (p + 1) * (p + 1) <= n {
            p + 1
        } else {
            p
        }
    }
}

pub proof fn lemma_sqrt_floor_bounds(n: nat)
    ensures
        sqrt_floor(n) * sqrt_floor(n) <= n,
        n < (sqrt_floor(n) + 1) * (sqrt_floor(n) + 1),
    decreases n,
{
    if n > 0 {
        let m = (n - 1) as nat;
        lemma_sqrt_floor_bounds(m);
        let p = sqrt_floor(m);
        assert(p * p <= m && m < (p + 1) * (p + 1));
        if (p + 1) * (p + 1) <= n {
            assert(sqrt_floor(n) == p + 1);
            assert(sqrt_floor(n) * sqrt_floor(n) <= n && n < (sqrt_floor(n) + 1) * (sqrt_floor(
                n,
            ) + 1)) by (nonlinear_arith)
                requires
                    sqrt_floor(n) == p + 1,
                    (p + 1) * (p + 1) <= n,
                    n <= (p + 1) * (p + 1),
            ;
        } else {
            assert(sqrt_floor(n) == p);
            assert(sqrt_floor(n) * sqrt_floor(n) <= n && n < (sqrt_floor(n) + 1) * (sqrt_floor(
                n,
            ) + 1)) by (nonlinear_arith)
                requires
                    sqrt_floor(n) == p,
                    p * p <= n,
                    n < (p + 1) * (p + 1),
            ;
        }
    } else {
        assert(sqrt_floor(n) == 0);
        assert(sqrt_floor(n) * sqrt_floor(n) <= n && n < (sqrt_floor(n) + 1) * (sqrt_floor(
            n,
        ) + 1)) by (nonlinear_arith)
            requires
                sqrt_floor(n) == 0,
                n == 0,
        ;
    }
}

/// `sqrt_floor` is the only value squeezed between the two squares.
pub proof fn lemma_sqrt_floor_unique(n: nat, r: nat)
    requires
        r * r <= n,
        n < (r + 1) * (r + 1),
    ensures
        sqrt_floor(n) == r,
{
    lemma_sqrt_floor_bounds(n);
    let s = sqrt_floor(n);
    if s < r {
        assert((s + 1) * (s + 1) <= r * r) by (nonlinear_arith)
            requires
                s + 1 <= r,
        ;
    } else if r < s {
        assert((r + 1) * (r + 1) <= s * s) by (nonlinear_arith)
            requires
                r + 1 <= s,
        ;
    }
}

/// An upper bound on the root from an upper bound on the argument.
pub proof fn lemma_sqrt_floor_le(n: nat, b: nat)
    requires
        n < (b + 1) * (b + 1),
    ensures
        sqrt_floor(n) <= b,
{
    lemma_sqrt_floor_bounds(n);
    let s = sqrt_floor(n);
    if s > b {
        assert((b + 1) * (b + 1) <= s * s) by (nonlinear_arith)
            requires
                b + 1 <= s,
        ;
    }
}

/// Integer square root by bisection.
pub fn isqrt(n: u32) -> (r: u32)
    ensures
        r == sqrt_floor(n as nat),
{
    let mut lo: u32 = 0;
    let mut hi: u32 = 65536;
    while lo + 1 < hi
        invariant
            lo < hi,
            hi <= 65536,
            lo * lo <= n,
            (n as int) < (hi as int) * (hi as int),
        decreases hi - lo,
    {
        let mid: u32 = lo + (hi - lo) / 2;
        proof {
            assert(mid as int * mid as int <= 65536 * 65536) by (nonlinear_arith)
                requires
                    0 <= mid <= 65536,
            ;
        }
        let sq: u64 = (mid as u64) * (mid as u64);
        if sq <= n as u64 {
            lo = mid;
        } else {
            hi = mid;
        }
    }
    proof {
        lemma_sqrt_floor_unique(n as nat, lo as nat);
    }
    lo
}

/// The squared difference of two channels.
pub open spec fn channel_diff_sq(x: int, y: int) -> int {
    (x - y) * (x - y)
}

/// The squared Euclidean distance of two colors over the three color
/// channels, in squared thousandths. Alpha is excluded.
pub open spec fn color_dist_sq(p: ColorMillis, l: ColorMillis) -> int {
    channel_diff_sq(p.r as int, l.r as int) + channel_diff_sq(p.g as int, l.g as int)
        + channel_diff_sq(p.b as int, l.b as int)
}

/// The score a bucket contributes when it exits: the normalized color
/// distance `sqrt(dr^2 + dg^2 + db^2) / sqrt(3)` with channels in the
/// unit interval, expressed in thousandths and rounded down. With
/// channels in thousandths that is exactly `floor(sqrt(d2 / 3))`.
pub open spec fn score_contribution(p: ColorMillis, l: ColorMillis) -> nat {
    sqrt_floor((color_dist_sq(p, l) / 3) as nat)
}

proof fn lemma_abs_diff_sq(x: int, y: int, d: int)
    requires
        d == if x >= y {
            x - y
        } else {
            y - x
        },
    ensures
        d * d == channel_diff_sq(x, y),
        d * d >= 0,
{
    assert(d * d == (x - y) * (x - y) && d * d >= 0) by (nonlinear_arith)
        requires
            d == x - y || d == y - x,
    ;
}

/// Normalized Euclidean color distance in thousandths: `0` means the
/// paint matches its label exactly, `CHANNEL_MAX` means the colors are
/// maximally opposite on every channel.
pub fn color_distance_millis(paint: &ColorMillis, label: &ColorMillis) -> (d: u32)
    requires
        paint.wf(),
        label.wf(),
    ensures
        d as nat == score_contribution(*paint, *label),
        d <= CHANNEL_MAX,
{
    let dr: u32 = if paint.r >= label.r {
        paint.r - label.r
    } else {
        label.r - paint.r
    };
    let dg: u32 = if paint.g >= label.g {
        paint.g - label.g
    } else {
        label.g - paint.g
    };
    let db: u32 = if paint.b >= label.b {
        paint.b - label.b
    } else {
        label.b - paint.b
    };
    proof {
        lemma_abs_diff_sq(paint.r as int, label.r as int, dr as int);
        lemma_abs_diff_sq(paint.g as int, label.g as int, dg as int);
        lemma_abs_diff_sq(paint.b as int, label.b as int, db as int);
        assert(dr as int * dr as int <= 1_000_000) by (nonlinear_arith)
            requires
                0 <= dr <= 1000,
        ;
        assert(dg as int * dg as int <= 1_000_000) by (nonlinear_arith)
            requires
                0 <= dg <= 1000,
        ;
        assert(db as int * db as int <= 1_000_000) by (nonlinear_arith)
            requires
                0 <= db <= 1000,
        ;
    }
    let sq: u32 = dr * dr + dg * dg + db * db;
    let q: u32 = sq / 3;
    let d = isqrt(q);
    proof {
        assert(1_000_000 < (1000 + 1) * (1000 + 1)) by (nonlinear_arith);
        lemma_sqrt_floor_le(q as nat, 1000);
    }
    d
}

/// Law: a paint that matches its label exactly scores zero.
pub proof fn lemma_identical_colors_score_zero(c: ColorMillis)
    ensures
        score_contribution(c, c) == 0,
{
    assert(channel_diff_sq(c.r as int, c.r as int) == 0) by (nonlinear_arith);
    assert(channel_diff_sq(c.g as int, c.g as int) == 0) by (nonlinear_arith);
    assert(channel_diff_sq(c.b as int, c.b as int) == 0) by (nonlinear_arith);
    assert(score_contribution(c, c) == sqrt_floor(0));
}

/// Law: colors that are maximally opposite on every color channel score
/// the full `CHANNEL_MAX`, i.e. a distance of 1.0.
pub proof fn lemma_opposite_colors_score_full(p: ColorMillis, l: ColorMillis)
    requires
        p.r == 0 && l.r == CHANNEL_MAX || p.r == CHANNEL_MAX && l.r == 0,
        p.g == 0 && l.g == CHANNEL_MAX || p.g == CHANNEL_MAX && l.g == 0,
        p.b == 0 && l.b == CHANNEL_MAX || p.b == CHANNEL_MAX && l.b == 0,
    ensures
        score_contribution(p, l) == CHANNEL_MAX,
{
    assert(channel_diff_sq(p.r as int, l.r as int) == 1_000_000) by (nonlinear_arith)
        requires
            p.r == 0 && l.r == 1000 || p.r == 1000 && l.r == 0,
    ;
    assert(channel_diff_sq(p.g as int, l.g as int) == 1_000_000) by (nonlinear_arith)
        requires
            p.g == 0 && l.g == 1000 || p.g == 1000 && l.g == 0,
    ;
    assert(channel_diff_sq(p.b as int, l.b as int) == 1_000_000) by (nonlinear_arith)
        requires
            p.b == 0 && l.b == 1000 || p.b == 1000 && l.b == 0,
    ;
    assert(color_dist_sq(p, l) / 3 == 1_000_000);
    assert(1000 * 1000 <= 1_000_000 && 1_000_000 < (1000 + 1) * (1000 + 1)) by (nonlinear_arith);
    lemma_sqrt_floor_unique(1_000_000, 1000);
}

/// Law: one bucket's score contribution lies between 0 (a perfect match)
/// and `CHANNEL_MAX` (maximal divergence), for any well-formed colors.
pub proof fn lemma_score_contribution_le_max(p: ColorMillis, l: ColorMillis)
    requires
        p.wf(),
        l.wf(),
    ensures
        0 <= color_dist_sq(p, l) <= 3_000_000,
        score_contribution(p, l) <= CHANNEL_MAX,
{
    assert(0 <= channel_diff_sq(p.r as int, l.r as int) <= 1_000_000) by (nonlinear_arith)
        requires
            0 <= p.r <= 1000 && 0 <= l.r <= 1000,
    ;
    assert(0 <= channel_diff_sq(p.g as int, l.g as int) <= 1_000_000) by (nonlinear_arith)
        requires
            0 <= p.g <= 1000 && 0 <= l.g <= 1000,
    ;
    assert(0 <= channel_diff_sq(p.b as int, l.b as int) <= 1_000_000) by (nonlinear_arith)
        requires
            0 <= p.b <= 1000 && 0 <= l.b <= 1000,
    ;
    let d2 = color_dist_sq(p, l);
    vstd::arithmetic::div_mod::lemma_div_is_ordered(d2, 3_000_000, 3);
    vstd::arithmetic::div_mod::lemma_div_pos_is_pos(d2, 3);
    assert(((d2 / 3) as nat) < (1000 + 1) * (1000 + 1)) by (nonlinear_arith)
        requires
            0 <= d2 / 3 <= 1_000_000,
    ;
    lemma_sqrt_floor_le((d2 / 3) as nat, 1000);
}

/// The per-name hue offset of the decorative color animation: the sum of
/// the name's bytes, wrapped to eight bits.
pub open spec fn byte_sum(s: Seq<u8>) -> nat
    decreases s.len(),
{
    if s.len() == 0 {
        0
    } else {
        ((byte_sum(s.drop_last()) + s.last()) % 256) as nat
    }
}

/// Folds a decorative entity's name into the time offset that keeps its
/// animated hue distinct from its neighbours'.
pub fn name_color_offset(name: &Vec<u8>) -> (off: u8)
    ensures
        off as nat == byte_sum(name@),
{
    let mut off: u8 = 0;
    let mut i: usize = 0;
    while i < name.len()
        invariant
            i <= name.len(),
            off as nat == byte_sum(name@.take(i as int)),
        decreases name.len() - i,
    {
        proof {
            assert(name@.take(i + 1 as int).drop_last() =~= name@.take(i as int));
        }
        off = (((off as u16) + (name[i] as u16)) % 256) as u8;
        i = i + 1;
    }
    proof {
        assert(name@.take(name@.len() as int) =~= name@);
    }
    off
}

} // verus!
