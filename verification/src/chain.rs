//! The chain model and the locomotion solver.
//!
//! A `Chain` is the creature's spine: segment 0 is the steerable head (the
//! construction in `builders` admits exactly one), every later segment is a
//! vertebra that follows its predecessor at the chain's `vertebra_dist`.
//! `control_vertebrae` steers the head toward a target point and then
//! propagates the distance constraint down the chain, one segment after the
//! other, exactly as `head_updated` and `follower_updated` state.
//!
//! Orientation is carried as a direction vector of approximately `UNIT`
//! length (`dir_ok`); a segment faces along `dir`, and its left-hand side is
//! the perpendicular `(-dir.y, dir.x)`.

use vstd::prelude::*;
use crate::fixed::{
    UNIT, div_trunc, sqrt_floor, lemma_sqrt_floor_bounds, lemma_sqrt_floor_at_least,
    lemma_div_bounds, lemma_div_mono, lemma_div_exact, scale_div, lerp2,
};
use crate::vec2::{
    V2, norm_sq_spec, dist_sq_spec, dist_spec, scaled_v2, dist_sq, scale_to_length,
    lemma_scale_norm,
};

verus! {

/// Largest magnitude a head coordinate may take.
pub const HEAD_LIMIT: i64 = 0x1000_0000;

/// Largest magnitude of `move_speed` and `turn_speed` (quanta per second).
pub const SPEED_LIMIT: i64 = 0x100_0000;

/// Largest magnitude a steering-target coordinate may take: far enough from
/// `HEAD_LIMIT` that one frame's movement cannot push the head outside it.
pub const TARGET_LIMIT: i64 = HEAD_LIMIT - SPEED_LIMIT;

/// Lower bound on the per-chain spacing: the truncation-error lemmas need
/// a scale target of at least 16 quanta.
pub const MIN_SPACING: i64 = 16;

/// Upper bound on the per-chain spacing between adjacent segments.
pub const MAX_SPACING: i64 = 0x40_0000;

/// Largest number of segments a chain may hold.
pub const MAX_SEGMENTS: usize = 64;

/// Largest segment width.
pub const WIDTH_LIMIT: i64 = 0x100_0000;

/// Squared radius of the head's dead zone (4 world units).
pub const DEAD_ZONE_SQ: u64 = 262144 * 262144;

/// Squared length of a quarter-unit vector: `(UNIT / 2)^2`; a direction is
/// renormalized only from a blend at least this long.
pub const QUARTER_UNIT_SQ: u64 = 32768 * 32768;

/// One link of the chain: a position, a facing direction of roughly `UNIT`
/// length, and the width of the skin cross-section at this link.
#[derive(Clone, Copy, PartialEq, Eq, Structural, Debug)]
pub struct Segment {
    pub pos: V2,
    pub dir: V2,
    pub width: i64,
}

/// Steering parameters of the single controllable (head) segment.
#[derive(Clone, Copy, PartialEq, Eq, Structural, Debug)]
pub struct Controllable {
    pub move_speed: i64,
    pub turn_speed: i64,
    pub vertebra_dist: i64,
}

/// The creature's spine. Exactly one segment is steerable: the head at
/// index 0; `builders` can construct a chain no other way, which discharges
/// the solver's one-steerable-segment precondition by construction.
pub struct Chain {
    pub segments: Vec<Segment>,
    pub control: Controllable,
}

/// Coordinate budget for the segment at chain index `i`: each follow step
/// moves a segment to within `vertebra_dist` of its leader, so bounds grow
/// linearly down the chain.
pub open spec fn pos_limit(i: int, spacing: int) -> int {
    HEAD_LIMIT + i * spacing
}

/// Both coordinates of `p` within `lim`.
pub open spec fn pos_within(p: V2, lim: int) -> bool {
    &&& -lim <= p.x <= lim
    &&& -lim <= p.y <= lim
}

/// A well-formed direction vector: length within 3 quanta of `UNIT`.
pub open spec fn dir_ok(v: V2) -> bool {
    &&& UNIT - 3 <= sqrt_floor(norm_sq_spec(v.x as int, v.y as int)) <= UNIT + 3
    &&& -(UNIT + 3) <= v.x <= UNIT + 3
    &&& -(UNIT + 3) <= v.y <= UNIT + 3
}

/// Well-formedness of the segment at chain index `i`.
pub open spec fn seg_wf(s: Segment, i: int, spacing: int) -> bool {
    &&& pos_within(s.pos, pos_limit(i, spacing))
    &&& dir_ok(s.dir)
    &&& 0 <= s.width <= WIDTH_LIMIT
}

impl Chain {
    /// The fixed distance each follower keeps from its predecessor.
    pub open spec fn spacing(self) -> int {
        self.control.vertebra_dist as int
    }

    /// Chain invariant: at least the head, bounded steering parameters, and
    /// every segment well-formed at its index.
    pub open spec fn wf(self) -> bool {
        &&& 1 <= self.segments.len() <= MAX_SEGMENTS
        &&& MIN_SPACING <= self.control.vertebra_dist <= MAX_SPACING
        &&& 0 <= self.control.move_speed <= SPEED_LIMIT
        &&& 0 <= self.control.turn_speed <= SPEED_LIMIT
        &&& forall|i: int|
            0 <= i < self.segments.len() ==> seg_wf(
                #[trigger] self.segments@[i],
                i,
                self.spacing(),
            )
    }
}

/// The target lies within the head's dead zone: closer than 4 world units.
pub open spec fn in_dead_zone(head: V2, target: V2) -> bool {
    dist_sq_spec(target, head) < DEAD_ZONE_SQ
}

/// What one solver pass does to the head when the target is outside the
/// dead zone: translate by the direction to the target rescaled to
/// `move_speed * dt`, and blend the facing direction toward the target
/// direction by `turn_speed * dt`, renormalizing the blend (or snapping to
/// the target direction when the blend nearly cancels).
pub open spec fn head_updated(
    pre: Segment,
    post: Segment,
    target: V2,
    move_speed: int,
    turn_speed: int,
    dt: int,
) -> bool {
    let dx = target.x - pre.pos.x;
    let dy = target.y - pre.pos.y;
    let step = (move_speed * dt) / (UNIT as int);
    let tfrac0 = (turn_speed * dt) / (UNIT as int);
    let tfrac = if tfrac0 > UNIT {
        UNIT as int
    } else {
        tfrac0
    };
    let q = scaled_v2(dx as int, dy as int, step);
    let tu = scaled_v2(dx as int, dy as int, UNIT as int);
    let bx = pre.dir.x + div_trunc((tu.0 - pre.dir.x) * tfrac, UNIT as int);
    let by = pre.dir.y + div_trunc((tu.1 - pre.dir.y) * tfrac, UNIT as int);
    &&& post.width == pre.width
    &&& post.pos.x == pre.pos.x + q.0
    &&& post.pos.y == pre.pos.y + q.1
    &&& if 4 * norm_sq_spec(bx, by) >= (UNIT as int) * (UNIT as int) {
        let u = scaled_v2(bx, by, UNIT as int);
        post.dir.x == u.0 && post.dir.y == u.1
    } else {
        post.dir.x == tu.0 && post.dir.y == tu.1
    }
}

/// What one solver pass does to a follower, given its leader's already
/// updated position: move onto the line toward the leader at distance
/// `spacing` (up to truncation), and face the leader. A follower whose
/// position coincides with its leader's is skipped (the direction toward it
/// is undefined), and a follower closer than half a unit keeps its old
/// facing rather than normalize an unreliably short vector.
pub open spec fn follower_updated(leader: V2, pre: Segment, post: Segment, spacing: int) -> bool {
    &&& post.width == pre.width
    &&& if pre.pos == leader {
        post.pos == pre.pos && post.dir == pre.dir
    } else {
        let q = scaled_v2(pre.pos.x - leader.x, pre.pos.y - leader.y, spacing);
        &&& post.pos.x == leader.x + q.0
        &&& post.pos.y == leader.y + q.1
        &&& if 4 * dist_sq_spec(pre.pos, leader) >= (UNIT as int) * (UNIT as int) {
            let u = scaled_v2(leader.x - pre.pos.x, leader.y - pre.pos.y, UNIT as int);
            post.dir.x == u.0 && post.dir.y == u.1
        } else {
            post.dir == pre.dir
        }
    }
}

/// Spacing invariant: a follow update places the follower within 3 quanta
/// of `spacing` from its leader, whenever the follower started at least
/// `spacing / 2` away (closer starts are the stabilizing transient).
pub proof fn lemma_spacing_invariant(leader: V2, pre: Segment, post: Segment, spacing: int)
    requires
        follower_updated(leader, pre, post, spacing),
        spacing >= 16,
        4 * dist_sq_spec(pre.pos, leader) >= spacing * spacing,
    ensures
        spacing - 3 <= dist_spec(post.pos, leader) <= spacing + 3,
{
    let dx = pre.pos.x - leader.x;
    let dy = pre.pos.y - leader.y;
    assert(spacing * spacing >= 256) by (nonlinear_arith)
        requires
            spacing >= 16,
    ;
    lemma_dist_zero(pre.pos, leader);
    lemma_scale_norm(dx as int, dy as int, spacing);
    let q = scaled_v2(dx as int, dy as int, spacing);
    assert(post.pos.x - leader.x == q.0 && post.pos.y - leader.y == q.1);
    assert(dist_sq_spec(post.pos, leader) == norm_sq_spec(q.0, q.1));
}

/// Monotone approach: whenever one step cannot overshoot the remaining
/// distance, a steered head's coordinates move toward the target's and
/// never past them.
pub proof fn lemma_head_monotone_approach(
    pre: Segment,
    post: Segment,
    target: V2,
    move_speed: int,
    turn_speed: int,
    dt: int,
)
    requires
        head_updated(pre, post, target, move_speed, turn_speed, dt),
        dist_sq_spec(target, pre.pos) >= 1,
        move_speed * dt >= 0,
        (move_speed * dt) / (UNIT as int) <= dist_spec(target, pre.pos),
    ensures
        pre.pos.x <= target.x ==> pre.pos.x <= post.pos.x <= target.x,
        target.x <= pre.pos.x ==> target.x <= post.pos.x <= pre.pos.x,
        pre.pos.y <= target.y ==> pre.pos.y <= post.pos.y <= target.y,
        target.y <= pre.pos.y ==> target.y <= post.pos.y <= pre.pos.y,
{
    let dx = target.x - pre.pos.x;
    let dy = target.y - pre.pos.y;
    let nsq = norm_sq_spec(dx as int, dy as int);
    lemma_sqrt_floor_bounds(nsq);
    lemma_sqrt_floor_at_least(nsq, 1);
    let d = sqrt_floor(nsq);
    let step = (move_speed * dt) / (UNIT as int);
    lemma_div_bounds(move_speed * dt, UNIT as int);
    assert(dx * dx <= nsq && dy * dy <= nsq) by (nonlinear_arith)
        requires
            nsq == dx * dx + dy * dy,
    ;
    if step >= 1 {
        crate::vec2::lemma_scaled_coord_size(dx as int, step, d, nsq);
        crate::vec2::lemma_scaled_coord_size(dy as int, step, d, nsq);
    } else {
        assert(dx as int * 0 == 0 && dy as int * 0 == 0) by (nonlinear_arith);
        vstd::arithmetic::div_mod::lemma_div_of0(d);
    }
}

/// Distance zero characterizes equal points.
pub proof fn lemma_dist_zero(a: V2, b: V2)
    ensures
        dist_sq_spec(a, b) == 0 <==> a == b,
        dist_sq_spec(a, b) >= 0,
{
    assert(dist_sq_spec(a, b) >= 0 && (dist_sq_spec(a, b) == 0 ==> a.x == b.x && a.y == b.y) && (
    a.x == b.x && a.y == b.y ==> dist_sq_spec(a, b) == 0)) by (nonlinear_arith)
        requires
            dist_sq_spec(a, b) == (a.x - b.x) * (a.x - b.x) + (a.y - b.y) * (a.y - b.y),
    ;
}

/// The head position after one solver pass, on plain coordinates: unchanged
/// inside the dead zone, otherwise translated toward the target.
pub open spec fn steered_head(hx: int, hy: int, tx: int, ty: int, step: int) -> (int, int) {
    if norm_sq_spec(tx - hx, ty - hy) < DEAD_ZONE_SQ {
        (hx, hy)
    } else {
        let q = scaled_v2(tx - hx, ty - hy, step);
        (hx + q.0, hy + q.1)
    }
}

/// The head position after `n` solver passes against a fixed target.
pub open spec fn steered_head_n(hx: int, hy: int, tx: int, ty: int, step: int, n: nat) -> (
    int,
    int,
)
    decreases n,
{
    if n == 0 {
        (hx, hy)
    } else {
        let prev = steered_head_n(hx, hy, tx, ty, step, (n - 1) as nat);
        steered_head(prev.0, prev.1, tx, ty, step)
    }
}

/// Dead-zone idempotence: while the target lies within the head's dead
/// zone, any number of solver passes leaves the head exactly in place.
pub proof fn lemma_dead_zone_idempotent(hx: int, hy: int, tx: int, ty: int, step: int, n: nat)
    requires
        norm_sq_spec(tx - hx, ty - hy) < DEAD_ZONE_SQ,
    ensures
        steered_head_n(hx, hy, tx, ty, step, n) == (hx, hy),
    decreases n,
{
    if n > 0 {
        lemma_dead_zone_idempotent(hx, hy, tx, ty, step, (n - 1) as nat);
    }
}

/// A position in range for chain index `i` is a valid model coordinate.
pub proof fn lemma_seg_pos_ok(s: Segment, i: int, spacing: int)
    requires
        seg_wf(s, i, spacing),
        0 <= i < MAX_SEGMENTS,
        0 <= spacing <= MAX_SPACING,
    ensures
        s.pos.ok(),
        pos_limit(i, spacing) <= 0x2000_0000,
{
    assert(i * spacing <= 64 * 0x40_0000) by (nonlinear_arith)
        requires
            0 <= i <= 64,
            0 <= spacing <= 0x40_0000,
    ;
    assert(i * spacing >= 0) by (nonlinear_arith)
        requires
            0 <= i,
            0 <= spacing,
    ;
}

/// One coordinate of the head after a move stays within `HEAD_LIMIT`: the
/// head either moves between its old coordinate and the target's, or
/// overshoots the target by less than one step.
proof fn lemma_head_coord_bound(px: int, tx: int, qx: int, s: int, d: int, vsq: int)
    requires
        1 <= s <= SPEED_LIMIT,
        -HEAD_LIMIT <= px <= HEAD_LIMIT,
        -TARGET_LIMIT <= tx <= TARGET_LIMIT,
        d >= 0,
        (tx - px) * (tx - px) <= vsq,
        vsq < (d + 1) * (d + 1),
        -s <= qx <= s,
        tx - px >= 0 ==> qx >= 0,
        tx - px <= 0 ==> qx <= 0,
        s <= d ==> (if tx - px >= 0 {
            qx <= tx - px
        } else {
            tx - px <= qx
        }),
    ensures
        -HEAD_LIMIT <= px + qx <= HEAD_LIMIT,
{
    let dx = tx - px;
    assert(-d <= dx <= d) by (nonlinear_arith)
        requires
            dx * dx <= vsq,
            vsq < (d + 1) * (d + 1),
            d >= 0,
    ;
}

/// The locomotion solver: one frame's pass over the whole chain.
///
/// If the target lies in the head's dead zone nothing moves. Otherwise the
/// head is steered (`head_updated`) and each vertebra in chain order is
/// pulled to `vertebra_dist` behind its updated leader
/// (`follower_updated`); the final clause is the per-frame spacing
/// invariant, which holds for every pair that was not compressed to under
/// half the spacing when its turn came.
#[verifier::rlimit(60)]
pub fn control_vertebrae(chain: &mut Chain, target: &V2, dt: i64)
    requires
        old(chain).wf(),
        -TARGET_LIMIT <= target.x <= TARGET_LIMIT,
        -TARGET_LIMIT <= target.y <= TARGET_LIMIT,
        0 <= dt <= UNIT,
    ensures
        final(chain).wf(),
        final(chain).control == old(chain).control,
        final(chain).segments.len() == old(chain).segments.len(),
        forall|i: int|
            0 <= i < old(chain).segments.len() ==> #[trigger] final(chain).segments@[i].width
                == old(chain).segments@[i].width,
        in_dead_zone(old(chain).segments@[0].pos, *target) ==> final(chain).segments@ == old(
            chain,
        ).segments@,
        !in_dead_zone(old(chain).segments@[0].pos, *target) ==> head_updated(
            old(chain).segments@[0],
            final(chain).segments@[0],
            *target,
            old(chain).control.move_speed as int,
            old(chain).control.turn_speed as int,
            dt as int,
        ),
        !in_dead_zone(old(chain).segments@[0].pos, *target) ==> forall|i: int|
            1 <= i < old(chain).segments.len() ==> follower_updated(
                final(chain).segments@[i - 1].pos,
                old(chain).segments@[i],
                #[trigger] final(chain).segments@[i],
                old(chain).spacing(),
            ),
        (final(chain).segments@[0].pos.x as int, final(chain).segments@[0].pos.y as int)
            == steered_head(
            old(chain).segments@[0].pos.x as int,
            old(chain).segments@[0].pos.y as int,
            target.x as int,
            target.y as int,
            (old(chain).control.move_speed * dt) / (UNIT as int),
        ),
        !in_dead_zone(old(chain).segments@[0].pos, *target) ==> forall|i: int|
            1 <= i < old(chain).segments.len() && 4 * dist_sq_spec(
                old(chain).segments@[i].pos,
                #[trigger] final(chain).segments@[i - 1].pos,
            ) >= old(chain).spacing() * old(chain).spacing() ==> old(chain).spacing() - 3
                <= dist_spec(final(chain).segments@[i].pos, final(chain).segments@[i - 1].pos)
                <= old(chain).spacing() + 3,
{
    let ghost pre = *chain;
    let head_seg: Segment = chain.segments[0];
    proof {
        lemma_seg_pos_ok(head_seg, 0, pre.spacing());
        assert(pos_limit(0, pre.spacing()) == HEAD_LIMIT);
    }
    let dz: u64 = dist_sq(target, &head_seg.pos);
    if dz < DEAD_ZONE_SQ {
        return ;
    }
    let diff_x: i64 = target.x - head_seg.pos.x;
    let diff_y: i64 = target.y - head_seg.pos.y;
    let ms: i64 = chain.control.move_speed;
    let ts: i64 = chain.control.turn_speed;
    proof {
        assert(ms * dt <= 0x100_0000i64 * 65536 && ms * dt >= 0 && ms * dt <= ms * 65536 && ts * dt
            <= 0x100_0000i64 * 65536 && ts * dt >= 0 && ts * dt <= ts * 65536)
            by (nonlinear_arith)
            requires
                0 <= ms <= 0x100_0000i64,
                0 <= ts <= 0x100_0000i64,
                0 <= dt <= 65536,
        ;
        lemma_div_mono(ms * dt, ms * 65536, 65536);
        lemma_div_exact(ms as int, 65536);
        lemma_div_mono(ts * dt, ts * 65536, 65536);
        lemma_div_exact(ts as int, 65536);
        lemma_div_bounds(ms * dt, 65536);
        lemma_div_bounds(ts * dt, 65536);
    }
    let step: i64 = scale_div(ms, dt, UNIT);
    let tfrac0: i64 = scale_div(ts, dt, UNIT);
    let tfrac: i64 = if tfrac0 > UNIT {
        UNIT
    } else {
        tfrac0
    };
    proof {
        lemma_sqrt_floor_bounds(norm_sq_spec(diff_x as int, diff_y as int));
        lemma_sqrt_floor_at_least(norm_sq_spec(diff_x as int, diff_y as int), 1);
        assert(diff_x as int * diff_x as int <= norm_sq_spec(diff_x as int, diff_y as int)
            && diff_y as int * diff_y as int <= norm_sq_spec(diff_x as int, diff_y as int))
            by (nonlinear_arith)
            requires
                norm_sq_spec(diff_x as int, diff_y as int) == diff_x as int * diff_x as int
                    + diff_y as int * diff_y as int,
        ;
    }
    let ghost nd = sqrt_floor(norm_sq_spec(diff_x as int, diff_y as int));
    let new_head_pos: V2;
    if step >= 1 {
        let q: V2 = scale_to_length(diff_x, diff_y, step);
        proof {
            lemma_head_coord_bound(
                head_seg.pos.x as int,
                target.x as int,
                q.x as int,
                step as int,
                nd,
                norm_sq_spec(diff_x as int, diff_y as int),
            );
            lemma_head_coord_bound(
                head_seg.pos.y as int,
                target.y as int,
                q.y as int,
                step as int,
                nd,
                norm_sq_spec(diff_x as int, diff_y as int),
            );
        }
        new_head_pos = V2 { x: head_seg.pos.x + q.x, y: head_seg.pos.y + q.y };
    } else {
        proof {
            assert(diff_x as int * 0 == 0 && diff_y as int * 0 == 0) by (nonlinear_arith);
            vstd::arithmetic::div_mod::lemma_div_of0(nd);
        }
        new_head_pos = head_seg.pos;
    }
    let tdir: V2 = scale_to_length(diff_x, diff_y, UNIT);
    proof {
        lemma_scale_norm(diff_x as int, diff_y as int, UNIT as int);
    }
    let bx: i64 = lerp2(head_seg.dir.x, tdir.x, tfrac);
    let by: i64 = lerp2(head_seg.dir.y, tdir.y, tfrac);
    let bsq: u64 = dist_sq(&V2 { x: bx, y: by }, &V2 { x: 0, y: 0 });
    let new_dir: V2;
    if bsq >= QUARTER_UNIT_SQ {
        new_dir = scale_to_length(bx, by, UNIT);
        proof {
            lemma_scale_norm(bx as int, by as int, UNIT as int);
        }
    } else {
        new_dir = tdir;
    }
    chain.segments[0] = Segment { pos: new_head_pos, dir: new_dir, width: head_seg.width };
    let n: usize = chain.segments.len();
    let spacing: i64 = chain.control.vertebra_dist;
    let mut i: usize = 1;
    while i < n
        invariant
            1 <= i <= n,
            n == chain.segments.len(),
            pre.wf(),
            n == pre.segments.len(),
            chain.control == pre.control,
            spacing == pre.control.vertebra_dist,
            !in_dead_zone(pre.segments@[0].pos, *target),
            -TARGET_LIMIT <= target.x <= TARGET_LIMIT,
            -TARGET_LIMIT <= target.y <= TARGET_LIMIT,
            forall|j: int| i <= j < n ==> chain.segments@[j] == pre.segments@[j],
            head_updated(
                pre.segments@[0],
                chain.segments@[0],
                *target,
                pre.control.move_speed as int,
                pre.control.turn_speed as int,
                dt as int,
            ),
            (chain.segments@[0].pos.x as int, chain.segments@[0].pos.y as int) == steered_head(
                pre.segments@[0].pos.x as int,
                pre.segments@[0].pos.y as int,
                target.x as int,
                target.y as int,
                (pre.control.move_speed * dt) / (UNIT as int),
            ),
            forall|j: int|
                1 <= j < i ==> follower_updated(
                    chain.segments@[j - 1].pos,
                    pre.segments@[j],
                    #[trigger] chain.segments@[j],
                    pre.spacing(),
                ),
            forall|j: int|
                0 <= j < i ==> seg_wf(#[trigger] chain.segments@[j], j, pre.spacing()),
        decreases n - i,
    {
        let leader: V2 = chain.segments[i - 1].pos;
        let prev: Segment = chain.segments[i];
        proof {
            assert(chain.segments@[i as int] == pre.segments@[i as int]);
            assert(seg_wf(pre.segments@[i as int], i as int, pre.spacing()));
            lemma_seg_pos_ok(chain.segments@[i - 1 as int], i - 1 as int, pre.spacing());
            lemma_seg_pos_ok(prev, i as int, pre.spacing());
        }
        let dsq: u64 = dist_sq(&prev.pos, &leader);
        proof {
            lemma_dist_zero(prev.pos, leader);
        }
        if dsq > 0 {
            let dx: i64 = prev.pos.x - leader.x;
            let dy: i64 = prev.pos.y - leader.y;
            let q: V2 = scale_to_length(dx, dy, spacing);
            let new_pos = V2 { x: leader.x + q.x, y: leader.y + q.y };
            let new_dir: V2;
            if dsq >= QUARTER_UNIT_SQ {
                proof {
                    assert(norm_sq_spec(-(dx as int), -(dy as int)) == norm_sq_spec(
                        dx as int,
                        dy as int,
                    )) by (nonlinear_arith);
                    lemma_scale_norm(-(dx as int), -(dy as int), UNIT as int);
                }
                new_dir = scale_to_length(-dx, -dy, UNIT);
            } else {
                new_dir = prev.dir;
            }
            chain.segments[i] = Segment { pos: new_pos, dir: new_dir, width: prev.width };
            proof {
                assert((i - 1) * pre.spacing() + pre.spacing() == i * pre.spacing())
                    by (nonlinear_arith);
                assert(seg_wf(chain.segments@[i as int], i as int, pre.spacing()));
            }
        }
        i = i + 1;
    }
    proof {
        assert forall|j: int|
            1 <= j < pre.segments.len() && 4 * dist_sq_spec(
                pre.segments@[j].pos,
                #[trigger] chain.segments@[j - 1].pos,
            ) >= pre.spacing() * pre.spacing() implies pre.spacing() - 3 <= dist_spec(
            chain.segments@[j].pos,
            chain.segments@[j - 1].pos,
        ) <= pre.spacing() + 3 by {
            lemma_spacing_invariant(
                chain.segments@[j - 1].pos,
                pre.segments@[j],
                chain.segments@[j],
                pre.spacing(),
            );
        }
    }
}

} // verus!
