//! Behavioral tests over whole frames: the dead zone, the stepping state
//! machine, the gait invariant, mesh-topology stability, and the
//! end-to-end steering scenario.

use crawler::fixed::UNIT;
use crawler::vec2::V2;
use crawler::chain::control_vertebrae;
use crawler::feet::{step_trigger_pair, Foot, FootPair};
use crawler::mesh::generate_mesh;
use crawler::builders::{spawn_crawler, spawn_head, spawn_vertebra, BodyPartParams, HeadParams};
use crawler::creature::{advance_frame, Creature, FrameInput};

fn three_segment_creature(spacing: i64, move_speed: i64) -> Creature {
    let mut creature = spawn_empty();
    spawn_head(
        HeadParams {
            position: V2 { x: 0, y: spacing },
            neck_width: 655360,
            turn_speed: 131072,
            move_speed,
            vertebra_dist: spacing,
        },
        &mut creature,
    );
    spawn_vertebra(BodyPartParams { size: 819200, position: V2 { x: 0, y: 0 } }, &mut creature);
    spawn_vertebra(
        BodyPartParams { size: 655360, position: V2 { x: 0, y: -spacing } },
        &mut creature,
    );
    creature
}

fn spawn_empty() -> Creature {
    Creature {
        chain: crawler::chain::Chain {
            segments: Vec::new(),
            control: crawler::chain::Controllable {
                move_speed: 0,
                turn_speed: 0,
                vertebra_dist: UNIT,
            },
        },
        feet: Vec::new(),
    }
}

fn world_dist(a: &V2, b: &V2) -> f64 {
    let dx = (a.x - b.x) as f64 / 65536.0;
    let dy = (a.y - b.y) as f64 / 65536.0;
    (dx * dx + dy * dy).sqrt()
}

#[test]
fn dead_zone_leaves_chain_in_place() {
    let mut creature = three_segment_creature(491520, 5734400);
    let before: Vec<V2> = creature.chain.segments.iter().map(|s| s.pos).collect();
    // 2 world units from the head: inside the 4-unit dead zone
    let target = V2 { x: 131072, y: 491520 };
    for _ in 0..5 {
        control_vertebrae(&mut creature.chain, &target, 1092);
        let after: Vec<V2> = creature.chain.segments.iter().map(|s| s.pos).collect();
        assert_eq!(before, after);
    }
}

#[test]
fn step_trigger_fires_exactly_once() {
    let resting = V2 { x: 0, y: 0 };
    let foot = Foot { pos: resting, target_pos: resting, grounded: true, foot_speed: 294912 };
    let mut pair = FootPair {
        vertebra: 1,
        foot_offset: V2 { x: 983040, y: 1228800 },
        step_length: 1966080,
        foot_l: foot,
        foot_r: Foot { pos: V2 { x: 100, y: 0 }, target_pos: V2 { x: 100, y: 0 }, ..foot },
    };
    // the left anchor drifted 3000000 quanta, beyond the 1966080 step length
    let anchor_l = V2 { x: 3000000, y: 0 };
    let anchor_r = V2 { x: 100, y: 0 };
    step_trigger_pair(&mut pair, &anchor_l, &anchor_r);
    assert!(!pair.foot_l.grounded);
    assert_eq!(pair.foot_l.target_pos, anchor_l);
    assert!(pair.foot_r.grounded);
    assert_eq!(pair.foot_r.target_pos, anchor_r);
    // re-invoking against the same anchors must not reset anything
    let once = pair;
    step_trigger_pair(&mut pair, &anchor_l, &anchor_r);
    assert_eq!(pair, once);
}

#[test]
fn lifted_partner_blocks_the_trigger() {
    let resting = V2 { x: 0, y: 0 };
    let lifted = Foot {
        pos: resting,
        target_pos: V2 { x: 2500000, y: 0 },
        grounded: false,
        foot_speed: 294912,
    };
    let standing = Foot { pos: resting, target_pos: resting, grounded: true, foot_speed: 294912 };
    let mut pair = FootPair {
        vertebra: 1,
        foot_offset: V2 { x: 983040, y: 1228800 },
        step_length: 1966080,
        foot_l: lifted,
        foot_r: standing,
    };
    // both anchors far out: the right foot may still not lift, its partner
    // is airborne
    let far_l = V2 { x: 5000000, y: 0 };
    let far_r = V2 { x: 5000000, y: 100 };
    step_trigger_pair(&mut pair, &far_l, &far_r);
    assert!(pair.foot_r.grounded);
    assert!(pair.foot_l.grounded || pair.foot_r.grounded);
}

#[test]
fn gait_alternates_across_a_walk() {
    let mut creature = spawn_crawler();
    let mut mesh = generate_mesh(&creature.chain);
    let mut saw_a_lifted_foot = false;
    for frame in 0..400 {
        // steer right, then up, so both pairs have to step
        let target = if frame < 200 {
            V2 { x: 60 * UNIT, y: 0 }
        } else {
            V2 { x: 60 * UNIT, y: 80 * UNIT }
        };
        let input = FrameInput { target_point: target, dt: 1092, steering: true };
        advance_frame(&mut creature, &mut mesh, &input);
        for pair in &creature.feet {
            assert!(
                pair.foot_l.grounded || pair.foot_r.grounded,
                "both feet of a pair lifted at frame {}",
                frame
            );
            if !pair.foot_l.grounded || !pair.foot_r.grounded {
                saw_a_lifted_foot = true;
            }
        }
    }
    assert!(saw_a_lifted_foot, "the walk never lifted any foot");
}

#[test]
fn mesh_topology_survives_refreshes() {
    let mut creature = spawn_crawler();
    let mut mesh = generate_mesh(&creature.chain);
    let uvs = mesh.uvs.clone();
    let normals = mesh.normals.clone();
    let indices = mesh.indices.clone();
    let first_positions: Vec<V2> = mesh.positions.clone();
    for _ in 0..120 {
        let input = FrameInput {
            target_point: V2 { x: 30 * UNIT, y: 30 * UNIT },
            dt: 1092,
            steering: true,
        };
        advance_frame(&mut creature, &mut mesh, &input);
        assert_eq!(mesh.uvs, uvs);
        assert_eq!(mesh.normals, normals);
        assert_eq!(mesh.indices, indices);
        assert_eq!(mesh.positions.len(), first_positions.len());
    }
    // but the geometry itself did deform
    assert_ne!(mesh.positions, first_positions);
}

#[test]
fn steering_gate_freezes_the_chain() {
    let mut creature = spawn_crawler();
    let mut mesh = generate_mesh(&creature.chain);
    let before: Vec<V2> = creature.chain.segments.iter().map(|s| s.pos).collect();
    let input = FrameInput {
        target_point: V2 { x: 100 * UNIT, y: 100 * UNIT },
        dt: 1092,
        steering: false,
    };
    advance_frame(&mut creature, &mut mesh, &input);
    let after: Vec<V2> = creature.chain.segments.iter().map(|s| s.pos).collect();
    assert_eq!(before, after);
}

#[test]
fn end_to_end_straight_walk() {
    // a chain of 3 segments, 60 units apart, head at (0, 60), steered to
    // (500, 60) for 10 simulated seconds at 60 frames per second
    let spacing: i64 = 60 * UNIT;
    let mut creature = three_segment_creature(spacing, 5734400);
    let target = V2 { x: 500 * UNIT, y: spacing };
    let dt: i64 = 1092;  // one sixtieth of a second
    let step: i64 = 5734400 * dt / UNIT;
    let mut last_x = creature.chain.segments[0].pos.x;
    for _ in 0..600 {
        control_vertebrae(&mut creature.chain, &target, dt);
        let x = creature.chain.segments[0].pos.x;
        assert!(x >= last_x, "head x moved backward");
        assert!(x - last_x <= step, "head x jumped by more than one step");
        last_x = x;
    }
    // the head came within the dead zone of x = 500 and never overshot by
    // more than one step
    assert!(last_x >= 500 * UNIT - 4 * UNIT - step);
    assert!(last_x <= 500 * UNIT + step);
    // the head never left the target's row
    assert_eq!(creature.chain.segments[0].pos.y, spacing);
    // adjacent spacings settle within a thousandth of a unit of 60
    let segs = &creature.chain.segments;
    let d01 = world_dist(&segs[0].pos, &segs[1].pos);
    let d12 = world_dist(&segs[1].pos, &segs[2].pos);
    assert!((d01 - 60.0).abs() < 1e-3, "head-vertebra distance {}", d01);
    assert!((d12 - 60.0).abs() < 1e-3, "vertebra-vertebra distance {}", d12);
}

#[test]
fn spacing_holds_through_turns() {
    let mut creature = spawn_crawler();
    let mut mesh = generate_mesh(&creature.chain);
    let corners = [
        V2 { x: 50 * UNIT, y: 0 },
        V2 { x: 50 * UNIT, y: 50 * UNIT },
        V2 { x: -50 * UNIT, y: 50 * UNIT },
        V2 { x: -50 * UNIT, y: -50 * UNIT },
    ];
    for frame in 0..480 {
        let input = FrameInput {
            target_point: corners[(frame / 120) as usize],
            dt: 1092,
            steering: true,
        };
        advance_frame(&mut creature, &mut mesh, &input);
        if frame >= 60 {
            // after the stabilizing transient every adjacent pair sits
            // within a whisker of the chain spacing
            for i in 1..creature.chain.segments.len() {
                let d = world_dist(
                    &creature.chain.segments[i - 1].pos,
                    &creature.chain.segments[i].pos,
                );
                assert!(
                    (d - 7.5).abs() < 1e-3,
                    "pair {} at distance {} on frame {}",
                    i,
                    d,
                    frame
                );
            }
        }
    }
}

#[test]
fn coincident_follower_is_skipped() {
    // head at the origin, one vertebra placed exactly where the head will
    // land after one step of 1 unit: the follow correction has no direction
    // there and must leave the vertebra untouched for the frame
    let mut creature = spawn_empty();
    spawn_head(
        HeadParams {
            position: V2 { x: 0, y: 0 },
            neck_width: 655360,
            turn_speed: 131072,
            move_speed: UNIT,
            vertebra_dist: 2 * UNIT,
        },
        &mut creature,
    );
    spawn_vertebra(
        BodyPartParams { size: 819200, position: V2 { x: UNIT, y: 0 } },
        &mut creature,
    );
    let old_dir = creature.chain.segments[1].dir;
    // one full second: the head walks exactly 1 unit toward the target
    control_vertebrae(&mut creature.chain, &V2 { x: 10 * UNIT, y: 0 }, UNIT);
    assert_eq!(creature.chain.segments[0].pos, V2 { x: UNIT, y: 0 });
    assert_eq!(creature.chain.segments[1].pos, V2 { x: UNIT, y: 0 });
    assert_eq!(creature.chain.segments[1].dir, old_dir);
}

#[test]
fn single_segment_chain_has_an_empty_mesh() {
    let mut creature = spawn_empty();
    spawn_head(
        HeadParams {
            position: V2 { x: 0, y: 0 },
            neck_width: 655360,
            turn_speed: 131072,
            move_speed: 5734400,
            vertebra_dist: 491520,
        },
        &mut creature,
    );
    let mut mesh = generate_mesh(&creature.chain);
    assert_eq!(mesh.positions.len(), 0);
    assert_eq!(mesh.uvs.len(), 0);
    assert_eq!(mesh.normals.len(), 0);
    assert_eq!(mesh.indices.len(), 0);
    let input = FrameInput { target_point: V2 { x: 30 * UNIT, y: 0 }, dt: 1092, steering: true };
    advance_frame(&mut creature, &mut mesh, &input);
    assert_eq!(mesh.positions.len(), 0);
    assert_eq!(mesh.indices.len(), 0);
}
