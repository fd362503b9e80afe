//! Fixed-point 2D vectors.
//!
//! `V2` carries a position or direction as two `i64` coordinates in 1/`UNIT`
//! world units. `scale_to_length` rescales a nonzero vector to a requested
//! length; the lemmas at the end bound how far integer truncation can push
//! the resulting length from the request.

use vstd::prelude::*;
use crate::fixed::{
    div_trunc, sqrt_floor, isqrt, scale_div, lemma_sqrt_floor_bounds, lemma_sqrt_floor_at_least,
    lemma_sqrt_floor_at_most, lemma_div_bounds, lemma_div_mono, lemma_div_exact,
};

verus! {

/// Largest magnitude a model coordinate may take (2^30 quanta).
pub const COORD_LIMIT: i64 = 0x4000_0000;

/// Largest scale target `scale_to_length` accepts (2^26 quanta).
pub const SCALE_MAX: i64 = 0x400_0000;

#[derive(Clone, Copy, PartialEq, Eq, Structural, Debug)]
pub struct V2 {
    pub x: i64,
    pub y: i64,
}

impl V2 {
    /// Both coordinates within the model's coordinate range.
    pub open spec fn ok(self) -> bool {
        &&& -COORD_LIMIT <= self.x <= COORD_LIMIT
        &&& -COORD_LIMIT <= self.y <= COORD_LIMIT
    }
}

/// Squared Euclidean norm.
pub open spec fn norm_sq_spec(x: int, y: int) -> int {
    x * x + y * y
}

/// Squared distance between two points.
pub open spec fn dist_sq_spec(a: V2, b: V2) -> int {
    norm_sq_spec(a.x - b.x, a.y - b.y)
}

/// Euclidean distance, rounded down to an integer number of quanta.
pub open spec fn dist_spec(a: V2, b: V2) -> int {
    sqrt_floor(dist_sq_spec(a, b))
}

/// One coordinate of a vector rescaled toward length `s`: the exact value
/// `v * s / d` truncated toward zero, where `d` is the vector's length.
pub open spec fn scaled_coord(v: int, s: int, d: int) -> int {
    div_trunc(v * s, d)
}

/// The whole rescaled vector, `d` being `sqrt_floor` of the squared norm.
pub open spec fn scaled_v2(vx: int, vy: int, s: int) -> (int, int) {
    let d = sqrt_floor(norm_sq_spec(vx, vy));
    (scaled_coord(vx, s, d), scaled_coord(vy, s, d))
}

/// Squared distance between two in-range points.
pub fn dist_sq(a: &V2, b: &V2) -> (r: u64)
    requires
        a.ok(),
        b.ok(),
    ensures
        r == dist_sq_spec(*a, *b),
{
    let dx: i64 = a.x - b.x;
    let dy: i64 = a.y - b.y;
    let ax: u64 = if dx >= 0 {
        dx as u64
    } else {
        (-dx) as u64
    };
    let ay: u64 = if dy >= 0 {
        dy as u64
    } else {
        (-dy) as u64
    };
    proof {
        assert(ax as int * ax as int == dx as int * dx as int
            && ay as int * ay as int == dy as int * dy as int
            && ax as int * ax as int <= 0x4000_0000_0000_0000
            && ay as int * ay as int <= 0x4000_0000_0000_0000) by (nonlinear_arith)
            requires
                ax == if dx >= 0 { dx as int } else { -(dx as int) },
                ay == if dy >= 0 { dy as int } else { -(dy as int) },
                -0x8000_0000 <= dx as int <= 0x8000_0000,
                -0x8000_0000 <= dy as int <= 0x8000_0000,
        ;
    }
    ax * ax + ay * ay
}

/// Rescale the nonzero vector `(vx, vy)` so its length is `s`, up to the
/// truncation error bounded by `lemma_scale_to_length_norm`. Each resulting
/// coordinate keeps its sign and cannot exceed `s` in magnitude; when the
/// vector is already at least `s` long, no coordinate grows.
pub fn scale_to_length(vx: i64, vy: i64, s: i64) -> (r: V2)
    requires
        -0x8000_0000 <= vx <= 0x8000_0000,
        -0x8000_0000 <= vy <= 0x8000_0000,
        norm_sq_spec(vx as int, vy as int) >= 1,
        1 <= s <= SCALE_MAX,
    ensures
        (r.x as int, r.y as int) == scaled_v2(vx as int, vy as int, s as int),
        -s <= r.x <= s,
        -s <= r.y <= s,
        vx >= 0 ==> r.x >= 0,
        vx <= 0 ==> r.x <= 0,
        vy >= 0 ==> r.y >= 0,
        vy <= 0 ==> r.y <= 0,
        s <= sqrt_floor(norm_sq_spec(vx as int, vy as int)) ==> {
            &&& (if vx >= 0 { r.x <= vx } else { vx <= r.x })
            &&& (if vy >= 0 { r.y <= vy } else { vy <= r.y })
        },
{
    let ax: u64 = if vx >= 0 {
        vx as u64
    } else {
        (-vx) as u64
    };
    let ay: u64 = if vy >= 0 {
        vy as u64
    } else {
        (-vy) as u64
    };
    proof {
        assert(ax as int * ax as int == vx as int * vx as int
            && ay as int * ay as int == vy as int * vy as int
            && ax as int * ax as int <= 0x4000_0000_0000_0000
            && ay as int * ay as int <= 0x4000_0000_0000_0000) by (nonlinear_arith)
            requires
                ax == if vx >= 0 { vx as int } else { -(vx as int) },
                ay == if vy >= 0 { vy as int } else { -(vy as int) },
                -0x8000_0000 <= vx as int <= 0x8000_0000,
                -0x8000_0000 <= vy as int <= 0x8000_0000,
        ;
    }
    let nsq: u64 = ax * ax + ay * ay;
    let d: u64 = isqrt(nsq);
    proof {
        lemma_sqrt_floor_at_least(nsq as int, 1);
        lemma_sqrt_floor_at_most(nsq as int, 0x1_0000_0000);
        assert(vx * s <= 0x8000_0000i64 * 0x400_0000 && -(0x8000_0000i64 * 0x400_0000) <= vx * s
            && vy * s <= 0x8000_0000i64 * 0x400_0000 && -(0x8000_0000i64 * 0x400_0000) <= vy * s)
            by (nonlinear_arith)
            requires
                -0x8000_0000 <= vx <= 0x8000_0000,
                -0x8000_0000 <= vy <= 0x8000_0000,
                1 <= s <= 0x400_0000,
        ;
        lemma_scaled_coord_size(vx as int, s as int, d as int, nsq as int);
        lemma_scaled_coord_size(vy as int, s as int, d as int, nsq as int);
    }
    let rx: i64 = scale_div(vx, s, d as i64);
    let ry: i64 = scale_div(vy, s, d as i64);
    V2 { x: rx, y: ry }
}

/// A coordinate of a vector of length `d` is at most `d`; rescaled toward
/// `s` it is therefore at most `s`, and at most itself when `s <= d`.
pub proof fn lemma_scaled_coord_size(v: int, s: int, d: int, nsq: int)
    requires
        s >= 1,
        d >= 1,
        v * v <= nsq,
        nsq < (d + 1) * (d + 1),
    ensures
        -s <= scaled_coord(v, s, d) <= s,
        v >= 0 ==> scaled_coord(v, s, d) >= 0,
        v <= 0 ==> scaled_coord(v, s, d) <= 0,
        s <= d && v >= 0 ==> scaled_coord(v, s, d) <= v,
        s <= d && v <= 0 ==> v <= scaled_coord(v, s, d),
{
    let m = if v >= 0 {
        v
    } else {
        -v
    };
    assert(0 <= m <= d) by (nonlinear_arith)
        requires
            d >= 1,
            v * v <= nsq,
            nsq < (d + 1) * (d + 1),
            m == if v >= 0 { v } else { -v },
    ;
    assert(m * s <= s * d && m * s >= 0) by (nonlinear_arith)
        requires
            0 <= m <= d,
            s >= 1,
    ;
    lemma_div_mono(m * s, s * d, d);
    lemma_div_exact(s, d);
    lemma_div_bounds(m * s, d);
    vstd::arithmetic::div_mod::lemma_div_of0(d);
    assert(v * s == (if v >= 0 {
        m * s
    } else {
        -(m * s)
    }) && (v < 0 ==> m * s >= 1) && (v == 0 ==> v * s == 0)) by (nonlinear_arith)
        requires
            m == if v >= 0 { v } else { -v },
            s >= 1,
    ;
    if s <= d {
        assert(m * s <= m * d) by (nonlinear_arith)
            requires
                m >= 0,
                s <= d,
        ;
        lemma_div_mono(m * s, m * d, d);
        lemma_div_exact(m, d);
    }
}

/// Squared-norm bracketing for a rescaled magnitude vector: with `d` the
/// length of `(x, y)` and `q` the truncated rescaling toward `s`, the
/// squared norm of `q` is at least `s^2 - 4s` and at most about
/// `s^2 + 2 s^2 / d`.
proof fn lemma_scaled_mag_norm_sq(x: int, y: int, s: int)
    requires
        x >= 0,
        y >= 0,
        x * x + y * y >= 1,
        s >= 1,
    ensures
        ({
            let d = sqrt_floor(x * x + y * y);
            let qx = (x * s) / d;
            let qy = (y * s) / d;
            &&& s * s - 4 * s <= qx * qx + qy * qy
            &&& d * (qx * qx + qy * qy) <= s * s * d + 2 * (s * s)
        }),
{
    let dsq = x * x + y * y;
    lemma_sqrt_floor_bounds(dsq);
    lemma_sqrt_floor_at_least(dsq, 1);
    let d = sqrt_floor(dsq);
    assert(0 <= x <= d && 0 <= y <= d && x * s >= 0 && y * s >= 0) by (nonlinear_arith)
        requires
            x >= 0,
            y >= 0,
            s >= 1,
            d >= 1,
            dsq == x * x + y * y,
            dsq < (d + 1) * (d + 1),
    ;
    let qx = (x * s) / d;
    let qy = (y * s) / d;
    lemma_div_bounds(x * s, d);
    lemma_div_bounds(y * s, d);
    assert(d * d * (qx * qx) <= (x * s) * (x * s)) by (nonlinear_arith)
        requires
            qx >= 0,
            0 <= d * qx <= x * s,
    ;
    assert(d * d * (qy * qy) <= (y * s) * (y * s)) by (nonlinear_arith)
        requires
            qy >= 0,
            0 <= d * qy <= y * s,
    ;
    assert(d * d * (qx * qx + qy * qy) <= s * s * dsq) by (nonlinear_arith)
        requires
            d * d * (qx * qx) <= (x * s) * (x * s),
            d * d * (qy * qy) <= (y * s) * (y * s),
            dsq == x * x + y * y,
    ;
    assert(dsq <= d * d + 2 * d) by (nonlinear_arith)
        requires
            dsq < (d + 1) * (d + 1),
    ;
    assert(d * (qx * qx + qy * qy) <= s * s * d + 2 * (s * s)) by (nonlinear_arith)
        requires
            d >= 1,
            qx * qx + qy * qy >= 0,
            d * d * (qx * qx + qy * qy) <= s * s * dsq,
            dsq <= d * d + 2 * d,
    ;
    assert((d * qx) * (d * qx) >= (x * s) * (x * s) - 2 * ((x * s) * d)) by (nonlinear_arith)
        requires
            d >= 1,
            x * s >= 0,
            x * s - d <= d * qx,
            d * qx <= x * s,
    ;
    assert((d * qy) * (d * qy) >= (y * s) * (y * s) - 2 * ((y * s) * d)) by (nonlinear_arith)
        requires
            d >= 1,
            y * s >= 0,
            y * s - d <= d * qy,
            d * qy <= y * s,
    ;
    assert((d * qx) * (d * qx) == d * d * (qx * qx) && (x * s) * (x * s) == s * s * (x * x)
        && (x * s) * d == (s * d) * x) by (nonlinear_arith);
    assert((d * qy) * (d * qy) == d * d * (qy * qy) && (y * s) * (y * s) == s * s * (y * y)
        && (y * s) * d == (s * d) * y) by (nonlinear_arith);
    assert(d * d * (qx * qx + qy * qy) == d * d * (qx * qx) + d * d * (qy * qy)
        && s * s * dsq == s * s * (x * x) + s * s * (y * y)
        && 2 * (s * d) * (x + y) == 2 * ((s * d) * x) + 2 * ((s * d) * y)) by (nonlinear_arith)
        requires
            dsq == x * x + y * y,
    ;
    assert(d * d * (qx * qx + qy * qy) >= s * s * dsq - 2 * (s * d) * (x + y));
    assert(qx * qx + qy * qy >= s * s - 4 * s) by (nonlinear_arith)
        requires
            d >= 1,
            s >= 1,
            0 <= x <= d,
            0 <= y <= d,
            dsq >= d * d,
            d * d * (qx * qx + qy * qy) >= s * s * dsq - 2 * (s * d) * (x + y),
    ;
}

/// Length bracketing for a rescaled magnitude vector: the integer length of
/// the rescaled vector lies in `[s - 3, s + s/d + 1]`.
proof fn lemma_scaled_mag_norm(x: int, y: int, s: int)
    requires
        x >= 0,
        y >= 0,
        x * x + y * y >= 1,
        s >= 16,
    ensures
        ({
            let d = sqrt_floor(x * x + y * y);
            let qx = (x * s) / d;
            let qy = (y * s) / d;
            let nrm = sqrt_floor(qx * qx + qy * qy);
            &&& s - 3 <= nrm
            &&& nrm <= s + s / d + 1
        }),
{
    lemma_scaled_mag_norm_sq(x, y, s);
    let dsq = x * x + y * y;
    lemma_sqrt_floor_bounds(dsq);
    lemma_sqrt_floor_at_least(dsq, 1);
    let d = sqrt_floor(dsq);
    let qx = (x * s) / d;
    let qy = (y * s) / d;
    let qsq = qx * qx + qy * qy;
    assert(qsq >= (s - 3) * (s - 3)) by (nonlinear_arith)
        requires
            qsq >= s * s - 4 * s,
            s >= 16,
    ;
    lemma_sqrt_floor_at_least(qsq, s - 3);
    let t = s / d;
    lemma_div_bounds(s, d);
    assert(qsq <= s * s + 2 * (s * t) + 2 * s) by (nonlinear_arith)
        requires
            d >= 1,
            t >= 0,
            s >= 1,
            d * qsq <= s * s * d + 2 * (s * s),
            d * t <= s < d * t + d,
    ;
    assert(qsq < (s + t + 2) * (s + t + 2)) by (nonlinear_arith)
        requires
            qsq <= s * s + 2 * (s * t) + 2 * s,
            t >= 0,
            s >= 1,
    ;
    lemma_sqrt_floor_at_most(qsq, s + t + 1);
}

/// When the vector is at least half of `s` long, the rescaled length is
/// within 3 quanta of `s` on both sides.
proof fn lemma_scaled_mag_norm_tight(x: int, y: int, s: int)
    requires
        x >= 0,
        y >= 0,
        x * x + y * y >= 1,
        s >= 16,
        4 * (x * x + y * y) >= s * s,
    ensures
        ({
            let d = sqrt_floor(x * x + y * y);
            let qx = (x * s) / d;
            let qy = (y * s) / d;
            let nrm = sqrt_floor(qx * qx + qy * qy);
            &&& s - 3 <= nrm
            &&& nrm <= s + 3
        }),
{
    lemma_scaled_mag_norm(x, y, s);
    let dsq = x * x + y * y;
    lemma_sqrt_floor_bounds(dsq);
    lemma_sqrt_floor_at_least(dsq, 1);
    let d = sqrt_floor(dsq);
    assert(s <= 2 * d + 1) by (nonlinear_arith)
        requires
            s >= 1,
            d >= 0,
            4 * dsq >= s * s,
            dsq < (d + 1) * (d + 1),
    ;
    lemma_div_mono(s, 3 * d - 1, d);
    vstd::arithmetic::div_mod::lemma_fundamental_div_mod_converse_div(3 * d - 1, d, 2, d - 1);
}

/// Truncation-error bound for `scale_to_length`, on signed coordinates: the
/// rescaled vector's integer length never falls more than 3 quanta below
/// `s`, exceeds it by at most `s / d + 1` in general, and by at most 3 when
/// the vector was at least half of `s` long.
pub proof fn lemma_scale_norm(vx: int, vy: int, s: int)
    requires
        norm_sq_spec(vx, vy) >= 1,
        s >= 16,
    ensures
        ({
            let q = scaled_v2(vx, vy, s);
            let nrm = sqrt_floor(norm_sq_spec(q.0, q.1));
            &&& s - 3 <= nrm
            &&& nrm <= s + s / sqrt_floor(norm_sq_spec(vx, vy)) + 1
            &&& 4 * norm_sq_spec(vx, vy) >= s * s ==> nrm <= s + 3
        }),
{
    let x = if vx >= 0 {
        vx
    } else {
        -vx
    };
    let y = if vy >= 0 {
        vy
    } else {
        -vy
    };
    assert(x * x == vx * vx && y * y == vy * vy) by (nonlinear_arith)
        requires
            x == if vx >= 0 { vx } else { -vx },
            y == if vy >= 0 { vy } else { -vy },
    ;
    let dsq = norm_sq_spec(vx, vy);
    lemma_sqrt_floor_bounds(dsq);
    lemma_sqrt_floor_at_least(dsq, 1);
    let d = sqrt_floor(dsq);
    lemma_scaled_mag_norm(x, y, s);
    if 4 * dsq >= s * s {
        lemma_scaled_mag_norm_tight(x, y, s);
    }
    let qx = (x * s) / d;
    let qy = (y * s) / d;
    let cx = scaled_coord(vx, s, d);
    let cy = scaled_coord(vy, s, d);
    assert(vx * s == (if vx >= 0 {
        x * s
    } else {
        -(x * s)
    }) && x * s >= 0 && (vx < 0 ==> x * s >= 1)) by (nonlinear_arith)
        requires
            x == if vx >= 0 { vx } else { -vx },
            s >= 1,
    ;
    assert(vy * s == (if vy >= 0 {
        y * s
    } else {
        -(y * s)
    }) && y * s >= 0 && (vy < 0 ==> y * s >= 1)) by (nonlinear_arith)
        requires
            y == if vy >= 0 { vy } else { -vy },
            s >= 1,
    ;
    assert(cx == qx || cx == -qx);
    assert(cy == qy || cy == -qy);
    assert(cx * cx == qx * qx) by (nonlinear_arith)
        requires
            cx == qx || cx == -qx,
    ;
    assert(cy * cy == qy * qy) by (nonlinear_arith)
        requires
            cy == qy || cy == -qy,
    ;
}

} // verus!
