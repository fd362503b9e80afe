//! Builders: the spawn collaborator's side of the model.
//!
//! A creature is assembled once at startup from a static body plan: the
//! head first (the only steerable segment — `spawn_head` demands an empty
//! chain, so a chain can never hold two heads), then vertebrae in chain
//! order, some with a pair of feet. Every spawned segment faces up
//! (`dir == (0, UNIT)`), and every foot spawns grounded with its target at
//! its own position.
//!
//! Purely visual quantities of a body plan (colors, z-layers, eye and
//! foot radii) have no bearing on the motion model and do not appear
//! here.

use vstd::prelude::*;
use crate::fixed::{UNIT, lemma_sqrt_floor_unique};
use crate::vec2::{V2, norm_sq_spec, dist_sq_spec};
use crate::chain::{
    Chain, Segment, Controllable, pos_within, dir_ok, pos_limit, HEAD_LIMIT, SPEED_LIMIT,
    WIDTH_LIMIT, MIN_SPACING, MAX_SPACING, MAX_SEGMENTS,
};
use crate::feet::{Foot, FootPair, OFFSET_LIMIT, STEP_LENGTH_MAX};
use crate::creature::Creature;

verus! {

/// Body plan of the head: its spawn position, the width of the neck where
/// the skin ribbon attaches, and the steering parameters.
#[derive(Clone, Copy, PartialEq, Eq, Structural, Debug)]
pub struct HeadParams {
    pub position: V2,
    pub neck_width: i64,
    pub turn_speed: i64,
    pub move_speed: i64,
    pub vertebra_dist: i64,
}

/// Body plan of one plain vertebra: its cross-section width and spawn
/// position.
#[derive(Clone, Copy, PartialEq, Eq, Structural, Debug)]
pub struct BodyPartParams {
    pub size: i64,
    pub position: V2,
}

/// Body plan of a vertebra that carries a foot pair.
#[derive(Clone, Copy, PartialEq, Eq, Structural, Debug)]
pub struct FootBodyPartParams {
    pub size: i64,
    pub position: V2,
    pub foot_offset: V2,
    pub step_length: i64,
    pub foot_speed: i64,
}

/// Validity of head parameters.
pub open spec fn head_params_ok(p: HeadParams) -> bool {
    &&& pos_within(p.position, HEAD_LIMIT as int)
    &&& 0 <= p.neck_width <= WIDTH_LIMIT
    &&& 0 <= p.turn_speed <= SPEED_LIMIT
    &&& 0 <= p.move_speed <= SPEED_LIMIT
    &&& MIN_SPACING <= p.vertebra_dist <= MAX_SPACING
}

/// Validity of plain vertebra parameters.
pub open spec fn body_params_ok(p: BodyPartParams) -> bool {
    &&& pos_within(p.position, HEAD_LIMIT as int)
    &&& 0 <= p.size <= WIDTH_LIMIT
}

/// Validity of footed vertebra parameters.
pub open spec fn foot_params_ok(p: FootBodyPartParams) -> bool {
    &&& pos_within(p.position, HEAD_LIMIT as int)
    &&& 0 <= p.size <= WIDTH_LIMIT
    &&& 0 <= p.foot_offset.x <= OFFSET_LIMIT
    &&& 0 <= p.foot_offset.y <= OFFSET_LIMIT
    &&& 1 <= p.step_length <= STEP_LENGTH_MAX
    &&& 0 <= p.foot_speed <= SPEED_LIMIT
}

/// The spawn orientation: straight up, exactly `UNIT` long.
pub proof fn lemma_up_dir_ok()
    ensures
        dir_ok(V2 { x: 0, y: UNIT }),
{
    assert(norm_sq_spec(0, 65536) == 4294967296);
    lemma_sqrt_floor_unique(4294967296, 65536);
}

/// A coordinate within the head's budget is within any segment's budget.
proof fn lemma_head_pos_fits(p: V2, i: int, spacing: int)
    requires
        pos_within(p, HEAD_LIMIT as int),
        0 <= i,
        0 <= spacing,
    ensures
        pos_within(p, pos_limit(i, spacing)),
{
    assert(i * spacing >= 0) by (nonlinear_arith)
        requires
            0 <= i,
            0 <= spacing,
    ;
}

/// Spawn the head into an empty creature: the chain's one steerable
/// segment, carrying the steering parameters.
pub fn spawn_head(params: HeadParams, creature: &mut Creature)
    requires
        old(creature).chain.segments.len() == 0,
        old(creature).feet.len() == 0,
        head_params_ok(params),
    ensures
        final(creature).wf(),
        final(creature).gait_all(),
        final(creature).chain.segments.len() == 1,
        final(creature).feet.len() == 0,
        final(creature).chain.segments@[0] == (Segment {
            pos: params.position,
            dir: V2 { x: 0, y: UNIT },
            width: params.neck_width,
        }),
        final(creature).chain.control == (Controllable {
            move_speed: params.move_speed,
            turn_speed: params.turn_speed,
            vertebra_dist: params.vertebra_dist,
        }),
{
    proof {
        lemma_up_dir_ok();
        lemma_head_pos_fits(params.position, 0, params.vertebra_dist as int);
    }
    creature.chain.control = Controllable {
        move_speed: params.move_speed,
        turn_speed: params.turn_speed,
        vertebra_dist: params.vertebra_dist,
    };
    creature.chain.segments.push(
        Segment { pos: params.position, dir: V2 { x: 0, y: UNIT }, width: params.neck_width },
    );
}

/// Spawn one plain vertebra at the tail of the chain.
pub fn spawn_vertebra(params: BodyPartParams, creature: &mut Creature)
    requires
        old(creature).wf(),
        old(creature).chain.segments.len() < MAX_SEGMENTS,
        body_params_ok(params),
    ensures
        final(creature).wf(),
        final(creature).chain.segments.len() == old(creature).chain.segments.len() + 1,
        final(creature).chain.segments@ == old(creature).chain.segments@.push(
            Segment { pos: params.position, dir: V2 { x: 0, y: UNIT }, width: params.size },
        ),
        final(creature).chain.control == old(creature).chain.control,
        final(creature).feet@ == old(creature).feet@,
        old(creature).gait_all() ==> final(creature).gait_all(),
{
    proof {
        lemma_up_dir_ok();
        lemma_head_pos_fits(
            params.position,
            old(creature).chain.segments.len() as int,
            old(creature).chain.spacing(),
        );
    }
    creature.chain.segments.push(
        Segment { pos: params.position, dir: V2 { x: 0, y: UNIT }, width: params.size },
    );
}

/// Spawn a run of plain vertebrae, in the order given.
pub fn spawn_vertebra_many(params_vec: Vec<BodyPartParams>, creature: &mut Creature)
    requires
        old(creature).wf(),
        old(creature).chain.segments.len() + params_vec.len() <= MAX_SEGMENTS,
        forall|i: int| 0 <= i < params_vec.len() ==> body_params_ok(#[trigger] params_vec@[i]),
    ensures
        final(creature).wf(),
        final(creature).chain.segments.len() == old(creature).chain.segments.len()
            + params_vec.len(),
        final(creature).chain.control == old(creature).chain.control,
        final(creature).feet@ == old(creature).feet@,
        forall|i: int|
            0 <= i < old(creature).chain.segments.len() ==> final(creature).chain.segments@[i]
                == old(creature).chain.segments@[i],
        forall|i: int|
            0 <= i < params_vec.len()
                ==> final(creature).chain.segments@[old(creature).chain.segments.len() + i] == (
            Segment {
                pos: params_vec@[i].position,
                dir: V2 { x: 0, y: UNIT },
                width: #[trigger] params_vec@[i].size,
            }),
        old(creature).gait_all() ==> final(creature).gait_all(),
{
    let m: usize = params_vec.len();
    let mut i: usize = 0;
    while i < m
        invariant
            i <= m,
            m == params_vec.len(),
            old(creature).chain.segments.len() + m <= MAX_SEGMENTS,
            forall|k: int| 0 <= k < m ==> body_params_ok(#[trigger] params_vec@[k]),
            creature.wf(),
            creature.chain.segments.len() == old(creature).chain.segments.len() + i,
            creature.chain.control == old(creature).chain.control,
            creature.feet@ == old(creature).feet@,
            forall|k: int|
                0 <= k < old(creature).chain.segments.len() ==> creature.chain.segments@[k] == old(
                    creature,
                ).chain.segments@[k],
            forall|k: int|
                0 <= k < i ==> creature.chain.segments@[old(creature).chain.segments.len() + k]
                    == (Segment {
                    pos: params_vec@[k].position,
                    dir: V2 { x: 0, y: UNIT },
                    width: #[trigger] params_vec@[k].size,
                }),
            old(creature).gait_all() ==> creature.gait_all(),
        decreases m - i,
    {
        let params: BodyPartParams = params_vec[i];
        spawn_vertebra(params, creature);
        i = i + 1;
    }
}

/// Spawn a vertebra together with its two feet, both grounded at their
/// resting spots beside the vertebra, each foot's target its own spawn
/// position.
pub fn spawn_vertebra_feet(params: FootBodyPartParams, creature: &mut Creature)
    requires
        old(creature).wf(),
        old(creature).chain.segments.len() < MAX_SEGMENTS,
        foot_params_ok(params),
    ensures
        final(creature).wf(),
        final(creature).chain.segments.len() == old(creature).chain.segments.len() + 1,
        final(creature).chain.segments@ == old(creature).chain.segments@.push(
            Segment { pos: params.position, dir: V2 { x: 0, y: UNIT }, width: params.size },
        ),
        final(creature).chain.control == old(creature).chain.control,
        final(creature).feet.len() == old(creature).feet.len() + 1,
        forall|i: int|
            0 <= i < old(creature).feet.len() ==> final(creature).feet@[i] == old(
                creature,
            ).feet@[i],
        ({
            let left_spot = V2 {
                x: (params.position.x - params.foot_offset.x) as i64,
                y: params.position.y,
            };
            let right_spot = V2 {
                x: (params.position.x + params.foot_offset.x) as i64,
                y: params.position.y,
            };
            final(creature).feet@[old(creature).feet.len() as int] == (FootPair {
                vertebra: old(creature).chain.segments.len(),
                foot_offset: params.foot_offset,
                step_length: params.step_length,
                foot_l: Foot {
                    pos: left_spot,
                    target_pos: left_spot,
                    grounded: true,
                    foot_speed: params.foot_speed,
                },
                foot_r: Foot {
                    pos: right_spot,
                    target_pos: right_spot,
                    grounded: true,
                    foot_speed: params.foot_speed,
                },
            })
        }),
        old(creature).gait_all() ==> final(creature).gait_all(),
{
    proof {
        lemma_up_dir_ok();
        lemma_head_pos_fits(
            params.position,
            old(creature).chain.segments.len() as int,
            old(creature).chain.spacing(),
        );
    }
    let idx: usize = creature.chain.segments.len();
    creature.chain.segments.push(
        Segment { pos: params.position, dir: V2 { x: 0, y: UNIT }, width: params.size },
    );
    let left_spot = V2 { x: params.position.x - params.foot_offset.x, y: params.position.y };
    let right_spot = V2 { x: params.position.x + params.foot_offset.x, y: params.position.y };
    creature.feet.push(
        FootPair {
            vertebra: idx,
            foot_offset: params.foot_offset,
            step_length: params.step_length,
            foot_l: Foot {
                pos: left_spot,
                target_pos: left_spot,
                grounded: true,
                foot_speed: params.foot_speed,
            },
            foot_r: Foot {
                pos: right_spot,
                target_pos: right_spot,
                grounded: true,
                foot_speed: params.foot_speed,
            },
        },
    );
}

/// The cross-section width of stock segment `i`: the head's neck, then the
/// torso swelling around each footed vertebra, then a tapering tail.
pub open spec fn stock_width(i: int) -> i64 {
    if i == 0 {
        655360
    } else if i == 1 {
        819200
    } else if i == 2 {
        983040
    } else if i == 3 {
        819200
    } else if i == 4 {
        704512
    } else if i == 5 {
        655360
    } else if i == 6 {
        655360
    } else if i == 7 {
        704512
    } else if i == 8 {
        819200
    } else if i == 9 {
        983040
    } else if i == 10 {
        819200
    } else if i == 11 {
        655360
    } else if i == 12 {
        540672
    } else if i == 13 {
        409600
    } else if i == 14 {
        327680
    } else if i == 15 {
        983040
    } else if i == 16 {
        720896
    } else if i == 17 {
        458752
    } else if i == 18 {
        262144
    } else {
        131072
    }
}

/// Stock segment `i`: on the y axis, exactly one spacing (7.5 units) below
/// its predecessor, facing up.
pub open spec fn stock_segment(i: int) -> Segment {
    Segment {
        pos: V2 { x: 0, y: (491520 - i * 491520) as i64 },
        dir: V2 { x: 0, y: UNIT },
        width: stock_width(i),
    }
}

/// A stock foot: grounded, resting exactly on its own target.
pub open spec fn stock_foot(x: i64, y: i64) -> Foot {
    Foot {
        pos: V2 { x: x, y: y },
        target_pos: V2 { x: x, y: y },
        grounded: true,
        foot_speed: 294912,
    }
}

/// The two stock foot pairs: on vertebrae 2 and 9, both feet grounded
/// beside their vertebra.
pub open spec fn stock_pair(k: int) -> FootPair {
    if k == 0 {
        FootPair {
            vertebra: 2,
            foot_offset: V2 { x: 983040, y: 1228800 },
            step_length: 1966080,
            foot_l: stock_foot(-983040i64, -491520i64),
            foot_r: stock_foot(983040i64, -491520i64),
        }
    } else {
        FootPair {
            vertebra: 9,
            foot_offset: V2 { x: 860160, y: 1228800 },
            step_length: 1966080,
            foot_l: stock_foot(-860160i64, -3932160i64),
            foot_r: stock_foot(860160i64, -3932160i64),
        }
    }
}

/// The stock body plan: a 20-segment crawler with two footed vertebrae,
/// 7.5 world units between segments, built once at startup. The contract
/// pins the whole plan — every segment and both foot pairs — and states
/// the spawn invariants: every foot grounded on its own target, and every
/// adjacent pair exactly one spacing apart.
pub fn spawn_crawler() -> (creature: Creature)
    ensures
        creature.wf(),
        creature.gait_all(),
        creature.chain.segments.len() == 20,
        forall|i: int| 0 <= i < 20 ==> #[trigger] creature.chain.segments@[i] == stock_segment(i),
        creature.feet.len() == 2,
        creature.feet@[0] == stock_pair(0),
        creature.feet@[1] == stock_pair(1),
        creature.chain.control == (Controllable {
            move_speed: 5734400,
            turn_speed: 131072,
            vertebra_dist: 491520,
        }),
        forall|k: int|
            0 <= k < creature.feet.len() ==> (#[trigger] creature.feet@[k]).foot_l.grounded
                && creature.feet@[k].foot_r.grounded && creature.feet@[k].foot_l.pos
                == creature.feet@[k].foot_l.target_pos && creature.feet@[k].foot_r.pos
                == creature.feet@[k].foot_r.target_pos,
        forall|i: int|
            1 <= i < 20 ==> dist_sq_spec(
                creature.chain.segments@[i - 1].pos,
                #[trigger] creature.chain.segments@[i].pos,
            ) == creature.chain.spacing() * creature.chain.spacing(),
{
    let mut creature = Creature {
        chain: Chain {
            segments: Vec::new(),
            control: Controllable { move_speed: 0, turn_speed: 0, vertebra_dist: UNIT },
        },
        feet: Vec::new(),
    };
    spawn_head(
        HeadParams {
            position: V2 { x: 0, y: 491520 },
            neck_width: 655360,
            turn_speed: 131072,
            move_speed: 5734400,
            vertebra_dist: 491520,
        },
        &mut creature,
    );
    spawn_vertebra(
        BodyPartParams { size: 819200, position: V2 { x: 0, y: 0 } },
        &mut creature,
    );
    spawn_vertebra_feet(
        FootBodyPartParams {
            size: 983040,
            position: V2 { x: 0, y: -491520 },
            foot_offset: V2 { x: 983040, y: 1228800 },
            step_length: 1966080,
            foot_speed: 294912,
        },
        &mut creature,
    );
    let mut body_parts: Vec<BodyPartParams> = Vec::new();
    body_parts.push(BodyPartParams { size: 819200, position: V2 { x: 0, y: -983040 } });
    body_parts.push(BodyPartParams { size: 704512, position: V2 { x: 0, y: -1474560 } });
    body_parts.push(BodyPartParams { size: 655360, position: V2 { x: 0, y: -1966080 } });
    body_parts.push(BodyPartParams { size: 655360, position: V2 { x: 0, y: -2457600 } });
    body_parts.push(BodyPartParams { size: 704512, position: V2 { x: 0, y: -2949120 } });
    body_parts.push(BodyPartParams { size: 819200, position: V2 { x: 0, y: -3440640 } });
    let ghost bp = body_parts@;
    spawn_vertebra_many(body_parts, &mut creature);
    spawn_vertebra_feet(
        FootBodyPartParams {
            size: 983040,
            position: V2 { x: 0, y: -3932160 },
            foot_offset: V2 { x: 860160, y: 1228800 },
            step_length: 1966080,
            foot_speed: 294912,
        },
        &mut creature,
    );
    let mut tail_parts: Vec<BodyPartParams> = Vec::new();
    tail_parts.push(BodyPartParams { size: 819200, position: V2 { x: 0, y: -4423680 } });
    tail_parts.push(BodyPartParams { size: 655360, position: V2 { x: 0, y: -4915200 } });
    tail_parts.push(BodyPartParams { size: 540672, position: V2 { x: 0, y: -5406720 } });
    tail_parts.push(BodyPartParams { size: 409600, position: V2 { x: 0, y: -5898240 } });
    tail_parts.push(BodyPartParams { size: 327680, position: V2 { x: 0, y: -6389760 } });
    tail_parts.push(BodyPartParams { size: 983040, position: V2 { x: 0, y: -6881280 } });
    tail_parts.push(BodyPartParams { size: 720896, position: V2 { x: 0, y: -7372800 } });
    tail_parts.push(BodyPartParams { size: 458752, position: V2 { x: 0, y: -7864320 } });
    tail_parts.push(BodyPartParams { size: 262144, position: V2 { x: 0, y: -8355840 } });
    tail_parts.push(BodyPartParams { size: 131072, position: V2 { x: 0, y: -8847360 } });
    let ghost tp = tail_parts@;
    spawn_vertebra_many(tail_parts, &mut creature);
    proof {
        assert(bp.len() == 6 && tp.len() == 10);
        assert(bp[0].size == 819200 && bp[1].size == 704512 && bp[2].size == 655360
            && bp[3].size == 655360 && bp[4].size == 704512 && bp[5].size == 819200);
        assert(tp[0].size == 819200 && tp[1].size == 655360 && tp[2].size == 540672
            && tp[3].size == 409600 && tp[4].size == 327680 && tp[5].size == 983040
            && tp[6].size == 720896 && tp[7].size == 458752 && tp[8].size == 262144
            && tp[9].size == 131072);
        assert forall|i: int| 0 <= i < 20 implies #[trigger] creature.chain.segments@[i]
            == stock_segment(i) by {
            assert(491520 - i * 491520 == (1 - i) * 491520 && -0x1000_0000 <= 491520 - i * 491520
                <= 491520) by (nonlinear_arith)
                requires
                    0 <= i < 20,
            ;
        }
        assert forall|i: int| 1 <= i < 20 implies dist_sq_spec(
            creature.chain.segments@[i - 1].pos,
            #[trigger] creature.chain.segments@[i].pos,
        ) == creature.chain.spacing() * creature.chain.spacing() by {
            assert(creature.chain.segments@[i - 1] == stock_segment(i - 1));
            assert(creature.chain.segments@[i] == stock_segment(i));
            assert((491520 - (i - 1) * 491520) - (491520 - i * 491520) == 491520
                && -0x1000_0000 <= 491520 - i * 491520 <= 491520
                && -0x1000_0000 <= 491520 - (i - 1) * 491520 <= 491520) by (nonlinear_arith)
                requires
                    1 <= i < 20,
            ;
            assert(stock_segment(i - 1).pos.y - stock_segment(i).pos.y == 491520);
            assert(dist_sq_spec(stock_segment(i - 1).pos, stock_segment(i).pos) == 491520int
                * 491520);
        }
    }
    creature
}

} // verus!
