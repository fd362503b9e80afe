//! Exact-value tests of the scalar and vector primitives, the builders and
//! the mesh generator.

use crawler::fixed::{isqrt, lerp, lerp2, scale_div, UNIT};
use crawler::vec2::{dist_sq, scale_to_length, V2};
use crawler::chain::Segment;
use crawler::feet::anchor_point;
use crawler::gaze::control_eyes;
use crawler::mesh::generate_mesh;
use crawler::builders::spawn_crawler;

#[test]
fn isqrt_exact_values() {
    assert_eq!(isqrt(0), 0);
    assert_eq!(isqrt(1), 1);
    assert_eq!(isqrt(3), 1);
    assert_eq!(isqrt(4), 2);
    assert_eq!(isqrt(15), 3);
    assert_eq!(isqrt(16), 4);
    assert_eq!(isqrt(4294967295), 65535);
    assert_eq!(isqrt(4294967296), 65536);
    assert_eq!(isqrt(u64::MAX), 4294967295);
}

#[test]
fn lerp_exact_values() {
    assert_eq!(lerp(0, 65536, 32768), 32768);
    assert_eq!(lerp(-65536, 65536, 32768), 0);
    assert_eq!(lerp(100, 100, 12345), 99);
    assert_eq!(lerp(0, 1000, 0), 0);
    assert_eq!(lerp(0, 1000, UNIT), 1000);
}

#[test]
fn lerp2_exact_values() {
    assert_eq!(lerp2(0, 65536, 32768), 32768);
    assert_eq!(lerp2(10, 20, 0), 10);
    assert_eq!(lerp2(10, 20, UNIT), 20);
    assert_eq!(lerp2(100, 100, 12345), 100);
    assert_eq!(lerp2(20, 10, 32768), 15);
    assert_eq!(lerp2(-1000, 1000, 16384), -500);
}

#[test]
fn scale_div_truncates_toward_zero() {
    assert_eq!(scale_div(7, 3, 2), 10);
    assert_eq!(scale_div(-7, 3, 2), -10);
    assert_eq!(scale_div(0, 3, 2), 0);
    assert_eq!(scale_div(1, 1, 65536), 0);
}

#[test]
fn dist_sq_exact() {
    assert_eq!(dist_sq(&V2 { x: 3, y: 4 }, &V2 { x: 0, y: 0 }), 25);
    assert_eq!(dist_sq(&V2 { x: -3, y: 4 }, &V2 { x: 0, y: 0 }), 25);
    assert_eq!(dist_sq(&V2 { x: 10, y: -10 }, &V2 { x: 10, y: -10 }), 0);
}

#[test]
fn scale_to_length_345_triangle() {
    let q = scale_to_length(30000, 40000, 5000);
    assert_eq!(q, V2 { x: 3000, y: 4000 });
    let q2 = scale_to_length(-30000, 40000, 5000);
    assert_eq!(q2, V2 { x: -3000, y: 4000 });
    let q3 = scale_to_length(0, -50000, 123);
    assert_eq!(q3, V2 { x: 0, y: -123 });
}

#[test]
fn scale_to_length_error_is_tiny() {
    // an awkward direction: the resulting length stays within 3 quanta
    let q = scale_to_length(123457, -654321, 491520);
    let nsq = (q.x as i128 * q.x as i128 + q.y as i128 * q.y as i128) as u64;
    let len = isqrt(nsq) as i64;
    assert!((len - 491520).abs() <= 3, "length {} strays from 491520", len);
}

#[test]
fn anchor_points_of_upright_vertebra() {
    let seg = Segment { pos: V2 { x: 0, y: 0 }, dir: V2 { x: 0, y: UNIT }, width: 0 };
    let off = V2 { x: 983040, y: 1228800 };
    let left = anchor_point(&seg, &off, false);
    let right = anchor_point(&seg, &off, true);
    assert_eq!(left, V2 { x: -983040, y: 1228800 });
    assert_eq!(right, V2 { x: 983040, y: 1228800 });
}

#[test]
fn anchor_points_follow_rotation() {
    // the vertebra faces +x (rotated a quarter turn clockwise from up):
    // its left side points up, forward points +x
    let seg = Segment { pos: V2 { x: 1000, y: 2000 }, dir: V2 { x: UNIT, y: 0 }, width: 0 };
    let off = V2 { x: 65536, y: 131072 };
    let left = anchor_point(&seg, &off, false);
    let right = anchor_point(&seg, &off, true);
    assert_eq!(left, V2 { x: 1000 + 131072, y: 2000 + 65536 });
    assert_eq!(right, V2 { x: 1000 + 131072, y: 2000 - 65536 });
}

#[test]
fn gaze_tracks_target_through_head_rotation() {
    // unrotated head, target straight up: look straight ahead
    let ahead = control_eyes(&V2 { x: 0, y: 655360 }, &V2 { x: 0, y: 0 }, &V2 { x: 0, y: UNIT });
    assert_eq!(ahead, V2 { x: 0, y: UNIT });
    // head turned to face +x, target in the +x direction: still straight ahead
    let ahead2 = control_eyes(&V2 { x: 655360, y: 0 }, &V2 { x: 0, y: 0 }, &V2 { x: UNIT, y: 0 });
    assert_eq!(ahead2, V2 { x: 0, y: UNIT });
    // unrotated head, target to the right: look right
    let side = control_eyes(&V2 { x: 655360, y: 0 }, &V2 { x: 0, y: 0 }, &V2 { x: 0, y: UNIT });
    assert_eq!(side, V2 { x: UNIT, y: 0 });
    // degenerate: target on the eye: look straight ahead
    let degen = control_eyes(&V2 { x: 7, y: 9 }, &V2 { x: 7, y: 9 }, &V2 { x: 0, y: UNIT });
    assert_eq!(degen, V2 { x: 0, y: UNIT });
}

#[test]
fn spawn_crawler_body_plan() {
    let creature = spawn_crawler();
    assert_eq!(creature.chain.segments.len(), 20);
    assert_eq!(creature.feet.len(), 2);
    assert_eq!(creature.chain.control.move_speed, 5734400);
    assert_eq!(creature.chain.control.turn_speed, 131072);
    assert_eq!(creature.chain.control.vertebra_dist, 491520);
    // the footed vertebrae sit at chain indices 2 and 9
    assert_eq!(creature.feet[0].vertebra, 2);
    assert_eq!(creature.feet[1].vertebra, 9);
    // feet spawn grounded, resting where they stand
    for pair in &creature.feet {
        assert!(pair.foot_l.grounded && pair.foot_r.grounded);
        assert_eq!(pair.foot_l.pos, pair.foot_l.target_pos);
        assert_eq!(pair.foot_r.pos, pair.foot_r.target_pos);
    }
    assert_eq!(creature.feet[0].foot_l.pos, V2 { x: -983040, y: -491520 });
    assert_eq!(creature.feet[0].foot_r.pos, V2 { x: 983040, y: -491520 });
    // the head carries the neck width; the tail thins to 2 units
    assert_eq!(creature.chain.segments[0].width, 655360);
    assert_eq!(creature.chain.segments[19].width, 131072);
    assert_eq!(creature.chain.segments[19].pos, V2 { x: 0, y: -8847360 });
}

#[test]
fn mesh_shape_and_topology() {
    let creature = spawn_crawler();
    let mesh = generate_mesh(&creature.chain);
    // 20 segments: 19 links, 4 vertices and 6 indices each
    assert_eq!(mesh.positions.len(), 76);
    assert_eq!(mesh.uvs.len(), 76);
    assert_eq!(mesh.normals.len(), 76);
    assert_eq!(mesh.indices.len(), 114);
    assert_eq!(&mesh.indices[0..6], &[0, 1, 3, 3, 2, 0]);
    assert_eq!(&mesh.indices[6..12], &[4, 5, 7, 7, 6, 4]);
    assert_eq!(&mesh.indices[108..114], &[72, 73, 75, 75, 74, 72]);
    // UV rows count down from the tail; the side flag alternates
    assert_eq!(mesh.uvs[0], (18, 0));
    assert_eq!(mesh.uvs[1], (18, 1));
    assert_eq!(mesh.uvs[2], (19, 0));
    assert_eq!(mesh.uvs[3], (19, 1));
    assert_eq!(mesh.uvs[4], (17, 0));
    assert_eq!(mesh.uvs[72], (0, 0));
    for nrm in &mesh.normals {
        assert_eq!(*nrm, (0, 0, 1));
    }
}

#[test]
fn mesh_corner_positions() {
    let creature = spawn_crawler();
    let mesh = generate_mesh(&creature.chain);
    // link 0, upper-left: the head's cross-section, half the neck width to
    // the left of the head
    assert_eq!(mesh.positions[2], V2 { x: -327680, y: 491520 });
    assert_eq!(mesh.positions[3], V2 { x: 327680, y: 491520 });
    // link 0, lower-left: the first vertebra (width 12.5 units) at the origin
    assert_eq!(mesh.positions[0], V2 { x: -409600, y: 0 });
    assert_eq!(mesh.positions[1], V2 { x: 409600, y: 0 });
}
