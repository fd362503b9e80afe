//! The gaze controller.
//!
//! A decorative eye attached to the head keeps facing the target point in
//! world space regardless of how the head itself has turned. The controller
//! therefore takes the world direction from the eye to the target and
//! rotates it back by the head's own orientation, returning the direction
//! the eye must face in the head's local frame.

use vstd::prelude::*;
use crate::fixed::{UNIT, div_trunc};
use crate::vec2::{V2, dist_sq_spec, dist_sq, scale_to_length, scaled_v2};
use crate::chain::{dir_ok, lemma_dist_zero, pos_within};
use crate::feet::FOOT_LIMIT;

verus! {

/// A world direction `g` expressed in the local frame of a head whose up
/// axis points along `h` (both of roughly `UNIT` length): the rotation of
/// `g` by the inverse of the head's orientation, scaled back down by
/// `UNIT`. With an unrotated head (`h == (0, UNIT)`) the local direction
/// equals the world direction.
pub open spec fn gaze_local_spec(g: V2, h: V2) -> (int, int) {
    (
        div_trunc(h.y * g.x - h.x * g.y, UNIT as int),
        div_trunc(h.x * g.x + h.y * g.y, UNIT as int),
    )
}

/// Turn one eye toward the target: the returned vector is the direction
/// the eye must face in the head's local frame, of roughly `UNIT` length.
/// When the target sits exactly on the eye the facing is undefined and the
/// eye looks straight ahead.
pub fn control_eyes(target: &V2, eye_pos: &V2, head_dir: &V2) -> (r: V2)
    requires
        pos_within(*target, FOOT_LIMIT as int),
        pos_within(*eye_pos, FOOT_LIMIT as int),
        dir_ok(*head_dir),
    ensures
        dist_sq_spec(*target, *eye_pos) == 0 ==> (r.x as int, r.y as int) == (0int, UNIT as int),
        dist_sq_spec(*target, *eye_pos) > 0 ==> ({
            let g = scaled_v2(
                target.x - eye_pos.x,
                target.y - eye_pos.y,
                UNIT as int,
            );
            (r.x as int, r.y as int) == gaze_local_spec(
                V2 { x: g.0 as i64, y: g.1 as i64 },
                *head_dir,
            )
        }),
{
    let dsq: u64 = dist_sq(target, eye_pos);
    proof {
        lemma_dist_zero(*target, *eye_pos);
    }
    if dsq == 0 {
        return V2 { x: 0, y: UNIT };
    }
    let gx_raw: i64 = target.x - eye_pos.x;
    let gy_raw: i64 = target.y - eye_pos.y;
    let g: V2 = scale_to_length(gx_raw, gy_raw, UNIT);
    proof {
        assert(-0x1_0000_0000_0000i64 <= g.x * head_dir.x <= 0x1_0000_0000_0000i64
            && -0x1_0000_0000_0000i64 <= g.y * head_dir.y <= 0x1_0000_0000_0000i64
            && -0x1_0000_0000_0000i64 <= g.y * head_dir.x <= 0x1_0000_0000_0000i64
            && -0x1_0000_0000_0000i64 <= g.x * head_dir.y <= 0x1_0000_0000_0000i64)
            by (nonlinear_arith)
            requires
                -65536 <= g.x <= 65536,
                -65536 <= g.y <= 65536,
                -65539 <= head_dir.x <= 65539,
                -65539 <= head_dir.y <= 65539,
        ;
    }
    let num_x: i64 = head_dir.y * g.x - head_dir.x * g.y;
    let num_y: i64 = head_dir.x * g.x + head_dir.y * g.y;
    let rx: i64 = crate::fixed::scale_div(num_x, 1, UNIT);
    let ry: i64 = crate::fixed::scale_div(num_y, 1, UNIT);
    proof {
        assert(num_x * 1 == num_x && num_y * 1 == num_y);
    }
    V2 { x: rx, y: ry }
}

} // verus!
