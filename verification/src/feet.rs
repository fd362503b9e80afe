//! The foot-stepping state machine.
//!
//! A vertebra owns its feet in pairs: this model admits no single foot, the
//! policy chosen for the ambiguous lone-foot configuration, so the
//! alternating-gait rule always has a partner to consult and the two feet
//! of a pair can never alias. Each foot is either grounded or lifted; the
//! trigger test lifts a foot whose resting anchor has drifted more than
//! `step_length` from its current target, but only while the opposite foot
//! stands, and a lifted foot glides toward its target until it lands
//! within the grounding epsilon.

use vstd::prelude::*;
use crate::fixed::{UNIT, div_trunc, lemma_div_bounds, lemma_div_mono, scale_div, lerp2};
use crate::vec2::{V2, dist_sq_spec, dist_sq};
use crate::chain::{Segment, pos_within, dir_ok, SPEED_LIMIT};

verus! {

/// Largest magnitude of a local foot-anchor offset component.
pub const OFFSET_LIMIT: i64 = 0x40_0000;

/// Largest step length.
pub const STEP_LENGTH_MAX: i64 = 0x100_0000;

/// Largest magnitude a foot coordinate may take: a segment coordinate plus
/// the rotated anchor offset.
pub const FOOT_LIMIT: i64 = 0x2100_0000;

/// Squared grounding epsilon (about 50 square world units): a lifted foot
/// this close to its target lands.
pub const GROUND_EPS_SQ: u64 = 50 * 65536 * 65536;

/// One foot actuator: its own transform lifecycle, independent of the
/// owning vertebra's.
#[derive(Clone, Copy, PartialEq, Eq, Structural, Debug)]
pub struct Foot {
    pub pos: V2,
    pub target_pos: V2,
    pub grounded: bool,
    pub foot_speed: i64,
}

/// A vertebra's pair of feet with the shared stepping parameters;
/// `vertebra` is the owning segment's index in the chain.
#[derive(Clone, Copy, PartialEq, Eq, Structural, Debug)]
pub struct FootPair {
    pub vertebra: usize,
    pub foot_offset: V2,
    pub step_length: i64,
    pub foot_l: Foot,
    pub foot_r: Foot,
}

/// Well-formedness of one foot.
pub open spec fn foot_wf(f: Foot) -> bool {
    &&& pos_within(f.pos, FOOT_LIMIT as int)
    &&& pos_within(f.target_pos, FOOT_LIMIT as int)
    &&& 0 <= f.foot_speed <= SPEED_LIMIT
}

/// Well-formedness of a pair against the owning chain's length.
pub open spec fn pair_wf(p: FootPair, chain_len: int) -> bool {
    &&& 1 <= p.vertebra < chain_len
    &&& 0 <= p.foot_offset.x <= OFFSET_LIMIT
    &&& 0 <= p.foot_offset.y <= OFFSET_LIMIT
    &&& 1 <= p.step_length <= STEP_LENGTH_MAX
    &&& foot_wf(p.foot_l)
    &&& foot_wf(p.foot_r)
}

/// The alternating-gait invariant: the two feet of a pair are never both
/// lifted.
pub open spec fn gait_ok(p: FootPair) -> bool {
    p.foot_l.grounded || p.foot_r.grounded
}

/// The resting anchor of one foot: the vertebra's position displaced by the
/// local offset rotated into the vertebra's frame. The vertebra faces along
/// `dir`; its left side is the perpendicular `(-dir.y, dir.x)`, its right
/// side the opposite.
pub open spec fn anchor_spec(pos: V2, dir: V2, off: V2, right_side: bool) -> (int, int) {
    let sx = if right_side {
        dir.y as int
    } else {
        -(dir.y as int)
    };
    let sy = if right_side {
        -(dir.x as int)
    } else {
        dir.x as int
    };
    (
        pos.x + div_trunc(sx * off.x, UNIT as int) + div_trunc(dir.x * off.y, UNIT as int),
        pos.y + div_trunc(sy * off.x, UNIT as int) + div_trunc(dir.y * off.y, UNIT as int),
    )
}

/// The anchor as a vector value; both components always fit (see
/// `anchor_point`).
pub open spec fn anchor_v2(pos: V2, dir: V2, off: V2, right_side: bool) -> V2 {
    let a = anchor_spec(pos, dir, off, right_side);
    V2 { x: a.0 as i64, y: a.1 as i64 }
}

/// The trigger test for one foot: lift it and retarget to the anchor when
/// the anchor has drifted beyond `step_length` and the opposite foot is
/// grounded; otherwise leave it alone.
pub open spec fn foot_triggered(f: Foot, anchor: V2, step_length: int, opposite_grounded: bool) -> Foot {
    if dist_sq_spec(anchor, f.target_pos) > step_length * step_length && opposite_grounded {
        Foot { pos: f.pos, target_pos: anchor, grounded: false, foot_speed: f.foot_speed }
    } else {
        f
    }
}

/// The trigger test for a whole pair, left foot first, the right foot
/// consulting the left's fresh state — so lifting the left in this frame
/// already blocks the right.
pub open spec fn pair_triggered(p: FootPair, anchor_l: V2, anchor_r: V2) -> FootPair {
    let l2 = foot_triggered(p.foot_l, anchor_l, p.step_length as int, p.foot_r.grounded);
    let r2 = foot_triggered(p.foot_r, anchor_r, p.step_length as int, l2.grounded);
    FootPair {
        vertebra: p.vertebra,
        foot_offset: p.foot_offset,
        step_length: p.step_length,
        foot_l: l2,
        foot_r: r2,
    }
}

/// The interpolation fraction a foot covers in one frame: `foot_speed * dt`
/// as a fraction of `UNIT`, capped at `UNIT` (arrival).
pub open spec fn transit_frac(foot_speed: int, dt: int) -> int {
    let t0 = (foot_speed * dt) / (UNIT as int);
    if t0 > UNIT {
        UNIT as int
    } else {
        t0
    }
}

/// One transit step of a foot: the position moves toward the target by the
/// fraction `tfrac` of the remaining distance, and the foot grounds when
/// the new position is within the grounding epsilon of the target.
pub open spec fn foot_transited(pre: Foot, post: Foot, tfrac: int) -> bool {
    &&& post.foot_speed == pre.foot_speed
    &&& post.target_pos == pre.target_pos
    &&& post.pos.x == pre.pos.x + div_trunc((pre.target_pos.x - pre.pos.x) * tfrac, UNIT as int)
    &&& post.pos.y == pre.pos.y + div_trunc((pre.target_pos.y - pre.pos.y) * tfrac, UNIT as int)
    &&& post.grounded == (pre.grounded || dist_sq_spec(post.pos, pre.target_pos) < GROUND_EPS_SQ)
}

/// Alternating-gait invariant, preserved by the trigger test: a pair with
/// at least one grounded foot still has one after the test, because a foot
/// lifts only while its partner stands.
pub proof fn lemma_alternating_gait(p: FootPair, anchor_l: V2, anchor_r: V2)
    requires
        gait_ok(p),
    ensures
        gait_ok(pair_triggered(p, anchor_l, anchor_r)),
{
}

/// Transit never un-grounds a foot, so it preserves the gait invariant.
pub proof fn lemma_gait_transit(p: FootPair, l2: Foot, r2: Foot, tl: int, tr: int)
    requires
        gait_ok(p),
        foot_transited(p.foot_l, l2, tl),
        foot_transited(p.foot_r, r2, tr),
    ensures
        l2.grounded || r2.grounded,
{
}

/// Step-trigger determinism: with the anchor drifted beyond `step_length`
/// and both feet grounded, the trigger lifts the left foot and sets its
/// target to the anchor exactly once — a second invocation against the
/// same anchors changes nothing.
pub proof fn lemma_step_trigger_once(p: FootPair, anchor_l: V2, anchor_r: V2)
    requires
        p.foot_l.grounded,
        p.foot_r.grounded,
        p.step_length >= 1,
        dist_sq_spec(anchor_l, p.foot_l.target_pos) > p.step_length * p.step_length,
    ensures
        ({
            let p1 = pair_triggered(p, anchor_l, anchor_r);
            &&& !p1.foot_l.grounded
            &&& p1.foot_l.target_pos == anchor_l
            &&& p1.foot_l.pos == p.foot_l.pos
            &&& p1.foot_r == p.foot_r
            &&& pair_triggered(p1, anchor_l, anchor_r) == p1
        }),
{
    let p1 = pair_triggered(p, anchor_l, anchor_r);
    crate::chain::lemma_dist_zero(anchor_l, anchor_l);
    assert(p.step_length * p.step_length >= 0) by (nonlinear_arith)
        requires
            p.step_length >= 1,
    ;
}

/// A product of a direction component and an offset, scaled down by
/// `UNIT`, stays within a small fixed bound.
proof fn lemma_rot_term(v: int, o: int)
    requires
        -65539 <= v <= 65539,
        0 <= o <= OFFSET_LIMIT,
    ensures
        -4194496 <= div_trunc(v * o, UNIT as int) <= 4194496,
{
    let m = if v >= 0 {
        v
    } else {
        -v
    };
    assert(0 <= m * o <= 274890489856 && v * o == (if v >= 0 {
        m * o
    } else {
        -(m * o)
    })) by (nonlinear_arith)
        requires
            m == if v >= 0 { v } else { -v },
            0 <= m <= 65539,
            0 <= o <= 0x40_0000,
    ;
    lemma_div_mono(m * o, 274890489856, 65536);
    lemma_div_bounds(m * o, 65536);
    assert(274890489856int / 65536 == 4194496);
}

/// Compute one foot's resting anchor from its vertebra's transform.
pub fn anchor_point(seg: &Segment, off: &V2, right_side: bool) -> (r: V2)
    requires
        pos_within(seg.pos, 0x2000_0000),
        dir_ok(seg.dir),
        0 <= off.x <= OFFSET_LIMIT,
        0 <= off.y <= OFFSET_LIMIT,
    ensures
        (r.x as int, r.y as int) == anchor_spec(seg.pos, seg.dir, *off, right_side),
        r == anchor_v2(seg.pos, seg.dir, *off, right_side),
        pos_within(r, FOOT_LIMIT as int),
{
    let sx: i64 = if right_side {
        seg.dir.y
    } else {
        -seg.dir.y
    };
    let sy: i64 = if right_side {
        -seg.dir.x
    } else {
        seg.dir.x
    };
    proof {
        assert(sx * off.x <= 65539i64 * 0x40_0000 && -(65539i64 * 0x40_0000) <= sx * off.x
            && sy * off.x <= 65539i64 * 0x40_0000 && -(65539i64 * 0x40_0000) <= sy * off.x
            && seg.dir.x * off.y <= 65539i64 * 0x40_0000 && -(65539i64 * 0x40_0000) <= seg.dir.x
            * off.y && seg.dir.y * off.y <= 65539i64 * 0x40_0000 && -(65539i64 * 0x40_0000)
            <= seg.dir.y * off.y) by (nonlinear_arith)
            requires
                -65539 <= sx <= 65539,
                -65539 <= sy <= 65539,
                -65539 <= seg.dir.x <= 65539,
                -65539 <= seg.dir.y <= 65539,
                0 <= off.x <= 0x40_0000,
                0 <= off.y <= 0x40_0000,
        ;
        lemma_rot_term(sx as int, off.x as int);
        lemma_rot_term(sy as int, off.x as int);
        lemma_rot_term(seg.dir.x as int, off.y as int);
        lemma_rot_term(seg.dir.y as int, off.y as int);
    }
    let side_x: i64 = scale_div(sx, off.x, UNIT);
    let side_y: i64 = scale_div(sy, off.x, UNIT);
    let fwd_x: i64 = scale_div(seg.dir.x, off.y, UNIT);
    let fwd_y: i64 = scale_div(seg.dir.y, off.y, UNIT);
    V2 { x: seg.pos.x + side_x + fwd_x, y: seg.pos.y + side_y + fwd_y }
}

/// The per-frame trigger test for one pair, given the two fresh anchors.
pub fn step_trigger_pair(pair: &mut FootPair, anchor_l: &V2, anchor_r: &V2)
    requires
        foot_wf(old(pair).foot_l),
        foot_wf(old(pair).foot_r),
        1 <= old(pair).step_length <= STEP_LENGTH_MAX,
        pos_within(*anchor_l, FOOT_LIMIT as int),
        pos_within(*anchor_r, FOOT_LIMIT as int),
    ensures
        *final(pair) == pair_triggered(*old(pair), *anchor_l, *anchor_r),
        gait_ok(*old(pair)) ==> gait_ok(*final(pair)),
        foot_wf(final(pair).foot_l),
        foot_wf(final(pair).foot_r),
{
    proof {
        if gait_ok(*pair) {
            lemma_alternating_gait(*pair, *anchor_l, *anchor_r);
        }
        assert(pair.step_length as int * pair.step_length as int
            <= 0x100_0000i64 * 0x100_0000i64) by (nonlinear_arith)
            requires
                1 <= pair.step_length <= 0x100_0000i64,
        ;
    }
    let sl_sq: u64 = (pair.step_length as u64) * (pair.step_length as u64);
    let drift_l: u64 = dist_sq(anchor_l, &pair.foot_l.target_pos);
    if drift_l > sl_sq && pair.foot_r.grounded {
        pair.foot_l.grounded = false;
        pair.foot_l.target_pos = *anchor_l;
    }
    let drift_r: u64 = dist_sq(anchor_r, &pair.foot_r.target_pos);
    if drift_r > sl_sq && pair.foot_l.grounded {
        pair.foot_r.grounded = false;
        pair.foot_r.target_pos = *anchor_r;
    }
}

/// One transit step for one foot: glide toward the target by
/// `foot_speed * dt`, grounding on arrival within the epsilon. The glide
/// is an asymptotic approach: the distance to the target never grows.
pub fn lerp_foot(foot: &mut Foot, dt: i64)
    requires
        foot_wf(*old(foot)),
        0 <= dt <= UNIT,
    ensures
        foot_transited(*old(foot), *final(foot), transit_frac(old(foot).foot_speed as int, dt as int)),
        foot_wf(*final(foot)),
        old(foot).grounded ==> final(foot).grounded,
        dist_sq_spec(final(foot).pos, old(foot).target_pos) <= dist_sq_spec(
            old(foot).pos,
            old(foot).target_pos,
        ),
{
    proof {
        assert(foot.foot_speed * dt >= 0 && foot.foot_speed * dt <= 0x100_0000i64 * 65536
            && foot.foot_speed * dt <= foot.foot_speed * 65536) by (nonlinear_arith)
            requires
                0 <= foot.foot_speed <= 0x100_0000i64,
                0 <= dt <= 65536,
        ;
        lemma_div_bounds(foot.foot_speed * dt, 65536);
    }
    let tfrac0: i64 = scale_div(foot.foot_speed, dt, UNIT);
    let tfrac: i64 = if tfrac0 > UNIT {
        UNIT
    } else {
        tfrac0
    };
    let nx: i64 = lerp2(foot.pos.x, foot.target_pos.x, tfrac);
    let ny: i64 = lerp2(foot.pos.y, foot.target_pos.y, tfrac);
    let new_pos = V2 { x: nx, y: ny };
    proof {
        assert((nx - foot.target_pos.x) * (nx - foot.target_pos.x) <= (foot.pos.x
            - foot.target_pos.x) * (foot.pos.x - foot.target_pos.x)) by (nonlinear_arith)
            requires
                foot.pos.x <= foot.target_pos.x ==> foot.pos.x <= nx <= foot.target_pos.x,
                foot.target_pos.x <= foot.pos.x ==> foot.target_pos.x <= nx <= foot.pos.x,
        ;
        assert((ny - foot.target_pos.y) * (ny - foot.target_pos.y) <= (foot.pos.y
            - foot.target_pos.y) * (foot.pos.y - foot.target_pos.y)) by (nonlinear_arith)
            requires
                foot.pos.y <= foot.target_pos.y ==> foot.pos.y <= ny <= foot.target_pos.y,
                foot.target_pos.y <= foot.pos.y ==> foot.target_pos.y <= ny <= foot.pos.y,
        ;
    }
    let close: u64 = dist_sq(&new_pos, &foot.target_pos);
    foot.pos = new_pos;
    if close < GROUND_EPS_SQ {
        foot.grounded = true;
    }
}

} // verus!
