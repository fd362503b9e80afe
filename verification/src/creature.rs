//! The whole creature and its per-frame pipeline.
//!
//! A `Creature` owns its chain and its foot pairs exclusively; nothing else
//! may mutate them between the stages of a frame. `advance_frame` runs the
//! four stages in their one hard-dependency order — locomotion, foot
//! triggers, foot transit, skin mesh — each stage reading the transforms
//! the previous one just wrote.

use vstd::prelude::*;
use crate::fixed::UNIT;
use crate::vec2::V2;
use crate::chain::{
    Chain, in_dead_zone, head_updated, follower_updated, control_vertebrae, lemma_seg_pos_ok,
    TARGET_LIMIT,
};
use crate::vec2::{dist_sq_spec, dist_spec};
use crate::feet::{
    FootPair, pair_wf, gait_ok, pair_triggered, anchor_v2, foot_transited, transit_frac,
    anchor_point, step_trigger_pair, lerp_foot,
};
use crate::mesh::{BodyMesh, mesh_topology_ok, mesh_positions_ok, update_mesh};

verus! {

/// The per-frame input context: the steering target in world space, the
/// frame's elapsed time, and whether steering is active this frame. The
/// solver runs only while `steering` holds; feet and mesh always run.
#[derive(Clone, Copy, PartialEq, Eq, Structural, Debug)]
pub struct FrameInput {
    pub target_point: V2,
    pub dt: i64,
    pub steering: bool,
}

/// The creature: one chain and the foot pairs bound to its vertebrae.
pub struct Creature {
    pub chain: Chain,
    pub feet: Vec<FootPair>,
}

impl Creature {
    /// Chain well-formed and every foot pair bound to a real vertebra.
    pub open spec fn wf(self) -> bool {
        &&& self.chain.wf()
        &&& forall|i: int|
            0 <= i < self.feet.len() ==> pair_wf(
                #[trigger] self.feet@[i],
                self.chain.segments.len() as int,
            )
    }

    /// The alternating-gait invariant over every pair.
    pub open spec fn gait_all(self) -> bool {
        forall|i: int| 0 <= i < self.feet.len() ==> gait_ok(#[trigger] self.feet@[i])
    }
}

/// The per-frame trigger stage: for every pair, compute both resting
/// anchors from the owning vertebra's fresh transform and run the trigger
/// test. The chain itself is read, never written.
pub fn control_feet(creature: &mut Creature)
    requires
        old(creature).wf(),
    ensures
        final(creature).wf(),
        final(creature).chain.segments@ == old(creature).chain.segments@,
        final(creature).chain.control == old(creature).chain.control,
        final(creature).feet.len() == old(creature).feet.len(),
        forall|i: int|
            0 <= i < old(creature).feet.len() ==> ({
                let p = old(creature).feet@[i];
                let seg = old(creature).chain.segments@[p.vertebra as int];
                #[trigger] final(creature).feet@[i] == pair_triggered(
                    p,
                    anchor_v2(seg.pos, seg.dir, p.foot_offset, false),
                    anchor_v2(seg.pos, seg.dir, p.foot_offset, true),
                )
            }),
        old(creature).gait_all() ==> final(creature).gait_all(),
{
    let m: usize = creature.feet.len();
    let mut i: usize = 0;
    while i < m
        invariant
            i <= m,
            m == creature.feet.len(),
            m == old(creature).feet.len(),
            old(creature).wf(),
            creature.chain.segments@ == old(creature).chain.segments@,
            creature.chain.control == old(creature).chain.control,
            forall|j: int| i <= j < m ==> creature.feet@[j] == old(creature).feet@[j],
            forall|j: int|
                0 <= j < i ==> ({
                    let p = old(creature).feet@[j];
                    let seg = old(creature).chain.segments@[p.vertebra as int];
                    #[trigger] creature.feet@[j] == pair_triggered(
                        p,
                        anchor_v2(seg.pos, seg.dir, p.foot_offset, false),
                        anchor_v2(seg.pos, seg.dir, p.foot_offset, true),
                    )
                }),
            forall|j: int|
                0 <= j < m ==> pair_wf(
                    #[trigger] creature.feet@[j],
                    creature.chain.segments.len() as int,
                ),
            forall|j: int|
                0 <= j < i && gait_ok(old(creature).feet@[j]) ==> gait_ok(
                    #[trigger] creature.feet@[j],
                ),
        decreases m - i,
    {
        let p: FootPair = creature.feet[i];
        let vi: usize = p.vertebra;
        let seg = creature.chain.segments[vi];
        proof {
            assert(seg == old(creature).chain.segments@[vi as int]);
            lemma_seg_pos_ok(seg, vi as int, creature.chain.spacing());
        }
        let al: V2 = anchor_point(&seg, &p.foot_offset, false);
        let ar: V2 = anchor_point(&seg, &p.foot_offset, true);
        let mut pair: FootPair = p;
        step_trigger_pair(&mut pair, &al, &ar);
        creature.feet[i] = pair;
        i = i + 1;
    }
}

/// The per-frame transit stage: every foot glides toward its target and
/// grounds on arrival. Feet that are already grounded stay grounded, so the
/// gait invariant survives.
pub fn lerp_feet(creature: &mut Creature, dt: i64)
    requires
        old(creature).wf(),
        0 <= dt <= UNIT,
    ensures
        final(creature).wf(),
        final(creature).chain.segments@ == old(creature).chain.segments@,
        final(creature).chain.control == old(creature).chain.control,
        final(creature).feet.len() == old(creature).feet.len(),
        forall|i: int|
            0 <= i < old(creature).feet.len() ==> ({
                let p = old(creature).feet@[i];
                let q = #[trigger] final(creature).feet@[i];
                &&& q.vertebra == p.vertebra
                &&& q.foot_offset == p.foot_offset
                &&& q.step_length == p.step_length
                &&& foot_transited(p.foot_l, q.foot_l, transit_frac(p.foot_l.foot_speed as int, dt as int))
                &&& foot_transited(p.foot_r, q.foot_r, transit_frac(p.foot_r.foot_speed as int, dt as int))
            }),
        old(creature).gait_all() ==> final(creature).gait_all(),
{
    let m: usize = creature.feet.len();
    let mut i: usize = 0;
    while i < m
        invariant
            i <= m,
            m == creature.feet.len(),
            m == old(creature).feet.len(),
            old(creature).wf(),
            0 <= dt <= UNIT,
            creature.chain.segments@ == old(creature).chain.segments@,
            creature.chain.control == old(creature).chain.control,
            forall|j: int| i <= j < m ==> creature.feet@[j] == old(creature).feet@[j],
            forall|j: int|
                0 <= j < i ==> ({
                    let p = old(creature).feet@[j];
                    let q = #[trigger] creature.feet@[j];
                    &&& q.vertebra == p.vertebra
                    &&& q.foot_offset == p.foot_offset
                    &&& q.step_length == p.step_length
                    &&& foot_transited(
                        p.foot_l,
                        q.foot_l,
                        transit_frac(p.foot_l.foot_speed as int, dt as int),
                    )
                    &&& foot_transited(
                        p.foot_r,
                        q.foot_r,
                        transit_frac(p.foot_r.foot_speed as int, dt as int),
                    )
                }),
            forall|j: int|
                0 <= j < m ==> pair_wf(
                    #[trigger] creature.feet@[j],
                    creature.chain.segments.len() as int,
                ),
            forall|j: int|
                0 <= j < i && gait_ok(old(creature).feet@[j]) ==> gait_ok(
                    #[trigger] creature.feet@[j],
                ),
        decreases m - i,
    {
        let mut pair: FootPair = creature.feet[i];
        lerp_foot(&mut pair.foot_l, dt);
        lerp_foot(&mut pair.foot_r, dt);
        creature.feet[i] = pair;
        i = i + 1;
    }
}

/// One whole frame, the four stages in their hard-dependency order:
/// locomotion (only while steering is active), foot triggers, foot transit,
/// then the skin-mesh refresh. The contract carries each stage's guarantee:
/// the chain stays well-formed, the gait alternates, the mesh topology is
/// bit-identical, the vertex positions track the fresh transforms, a target
/// in the dead zone moves nothing, every adjacent pair that was not
/// compressed under half the spacing ends the frame within 3 quanta of the
/// chain's spacing, and each foot pair ends the frame as the transit of its
/// trigger result against the freshly solved vertebra.
pub fn advance_frame(creature: &mut Creature, mesh: &mut BodyMesh, input: &FrameInput)
    requires
        old(creature).wf(),
        mesh_topology_ok(*old(mesh), old(creature).chain.segments.len() as int),
        -TARGET_LIMIT <= input.target_point.x <= TARGET_LIMIT,
        -TARGET_LIMIT <= input.target_point.y <= TARGET_LIMIT,
        0 <= input.dt <= UNIT,
    ensures
        final(creature).wf(),
        old(creature).gait_all() ==> final(creature).gait_all(),
        final(creature).chain.segments.len() == old(creature).chain.segments.len(),
        final(creature).chain.control == old(creature).chain.control,
        mesh_topology_ok(*final(mesh), final(creature).chain.segments.len() as int),
        final(mesh).uvs@ == old(mesh).uvs@,
        final(mesh).normals@ == old(mesh).normals@,
        final(mesh).indices@ == old(mesh).indices@,
        mesh_positions_ok(*final(mesh), final(creature).chain.segments@),
        !input.steering ==> final(creature).chain.segments@ == old(creature).chain.segments@,
        input.steering && in_dead_zone(old(creature).chain.segments@[0].pos, input.target_point)
            ==> final(creature).chain.segments@ == old(creature).chain.segments@,
        input.steering && !in_dead_zone(old(creature).chain.segments@[0].pos, input.target_point)
            ==> head_updated(
            old(creature).chain.segments@[0],
            final(creature).chain.segments@[0],
            input.target_point,
            old(creature).chain.control.move_speed as int,
            old(creature).chain.control.turn_speed as int,
            input.dt as int,
        ),
        input.steering && !in_dead_zone(old(creature).chain.segments@[0].pos, input.target_point)
            ==> forall|i: int|
            1 <= i < old(creature).chain.segments.len() ==> follower_updated(
                final(creature).chain.segments@[i - 1].pos,
                old(creature).chain.segments@[i],
                #[trigger] final(creature).chain.segments@[i],
                old(creature).chain.spacing(),
            ),
        input.steering && !in_dead_zone(old(creature).chain.segments@[0].pos, input.target_point)
            ==> forall|i: int|
            1 <= i < old(creature).chain.segments.len() && 4 * dist_sq_spec(
                old(creature).chain.segments@[i].pos,
                #[trigger] final(creature).chain.segments@[i - 1].pos,
            ) >= old(creature).chain.spacing() * old(creature).chain.spacing() ==> old(
                creature,
            ).chain.spacing() - 3 <= dist_spec(
                final(creature).chain.segments@[i].pos,
                final(creature).chain.segments@[i - 1].pos,
            ) <= old(creature).chain.spacing() + 3,
        final(creature).feet.len() == old(creature).feet.len(),
        forall|i: int|
            0 <= i < old(creature).feet.len() ==> ({
                let p0 = old(creature).feet@[i];
                let seg = final(creature).chain.segments@[p0.vertebra as int];
                let pt = pair_triggered(
                    p0,
                    anchor_v2(seg.pos, seg.dir, p0.foot_offset, false),
                    anchor_v2(seg.pos, seg.dir, p0.foot_offset, true),
                );
                let q = #[trigger] final(creature).feet@[i];
                &&& q.vertebra == pt.vertebra
                &&& q.foot_offset == pt.foot_offset
                &&& q.step_length == pt.step_length
                &&& foot_transited(
                    pt.foot_l,
                    q.foot_l,
                    transit_frac(pt.foot_l.foot_speed as int, input.dt as int),
                )
                &&& foot_transited(
                    pt.foot_r,
                    q.foot_r,
                    transit_frac(pt.foot_r.foot_speed as int, input.dt as int),
                )
            }),
{
    if input.steering {
        control_vertebrae(&mut creature.chain, &input.target_point, input.dt);
    }
    control_feet(creature);
    lerp_feet(creature, input.dt);
    update_mesh(&creature.chain, mesh);
}

} // verus!
