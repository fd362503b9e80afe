//! The skin-mesh generator.
//!
//! The mesh is a triangulated ribbon over the chain: one quad per link
//! between a segment and its predecessor, four vertices and six indices per
//! quad. `generate_mesh` builds the whole mesh once; `update_mesh` rewrites
//! only the vertex positions every frame, and its contract states that the
//! index, UV and normal buffers come out bit-identical — a renderer may
//! keep them uploaded for the chain's lifetime.
//!
//! Vertices of link `j` (between segment `j + 1`, the "lower" cross-section,
//! and segment `j`, the "upper" one): `4j` lower-left, `4j + 1` lower-right,
//! `4j + 2` upper-left, `4j + 3` upper-right. The UV's first coordinate
//! counts links from the tail; its second tells the side. Normals all face
//! `+z`.

use vstd::prelude::*;
use crate::fixed::{UNIT, div_trunc, lemma_div_bounds, lemma_div_mono, scale_div};
use crate::vec2::V2;
use crate::chain::{Chain, Segment, pos_within, dir_ok, WIDTH_LIMIT};

verus! {

/// Largest magnitude a mesh-vertex coordinate may take: a segment
/// coordinate plus half the widest cross-section.
pub const MESH_LIMIT: i64 = 0x2100_0000;

/// The ribbon geometry: per-vertex positions recomputed every frame, and
/// the immutable UV, normal and index buffers.
pub struct BodyMesh {
    pub positions: Vec<V2>,
    pub uvs: Vec<(u32, u32)>,
    pub normals: Vec<(i64, i64, i64)>,
    pub indices: Vec<u32>,
}

/// One edge point of a segment's cross-section: the position displaced
/// sideways by half the width along the segment's left (or right)
/// perpendicular.
pub open spec fn corner_spec(seg: Segment, right_side: bool) -> (int, int) {
    let hw = (seg.width as int) / 2;
    let sx = if right_side {
        seg.dir.y as int
    } else {
        -(seg.dir.y as int)
    };
    let sy = if right_side {
        -(seg.dir.x as int)
    } else {
        seg.dir.x as int
    };
    (seg.pos.x + div_trunc(sx * hw, UNIT as int), seg.pos.y + div_trunc(sy * hw, UNIT as int))
}

/// The four vertex positions of link `j` against the current chain.
pub open spec fn link_positions_at(positions: Seq<V2>, segs: Seq<Segment>, j: int) -> bool {
    &&& (positions[4 * j].x as int, positions[4 * j].y as int) == corner_spec(segs[j + 1], false)
    &&& (positions[4 * j + 1].x as int, positions[4 * j + 1].y as int) == corner_spec(
        segs[j + 1],
        true,
    )
    &&& (positions[4 * j + 2].x as int, positions[4 * j + 2].y as int) == corner_spec(
        segs[j],
        false,
    )
    &&& (positions[4 * j + 3].x as int, positions[4 * j + 3].y as int) == corner_spec(
        segs[j],
        true,
    )
}

/// The immutable per-link topology: UV rows counting down from the tail,
/// `+z` normals, and the two triangles `(4j, 4j+1, 4j+3)` and
/// `(4j+3, 4j+2, 4j)` with a consistent winding.
pub open spec fn link_topology_at(
    uvs: Seq<(u32, u32)>,
    normals: Seq<(i64, i64, i64)>,
    indices: Seq<u32>,
    n: int,
    j: int,
) -> bool {
    &&& (uvs[4 * j].0 as int, uvs[4 * j].1 as int) == (n - 2 - j, 0int)
    &&& (uvs[4 * j + 1].0 as int, uvs[4 * j + 1].1 as int) == (n - 2 - j, 1int)
    &&& (uvs[4 * j + 2].0 as int, uvs[4 * j + 2].1 as int) == (n - 1 - j, 0int)
    &&& (uvs[4 * j + 3].0 as int, uvs[4 * j + 3].1 as int) == (n - 1 - j, 1int)
    &&& normals[4 * j] == (0i64, 0i64, 1i64)
    &&& normals[4 * j + 1] == (0i64, 0i64, 1i64)
    &&& normals[4 * j + 2] == (0i64, 0i64, 1i64)
    &&& normals[4 * j + 3] == (0i64, 0i64, 1i64)
    &&& indices[6 * j] as int == 4 * j
    &&& indices[6 * j + 1] as int == 4 * j + 1
    &&& indices[6 * j + 2] as int == 4 * j + 3
    &&& indices[6 * j + 3] as int == 4 * j + 3
    &&& indices[6 * j + 4] as int == 4 * j + 2
    &&& indices[6 * j + 5] as int == 4 * j
}

/// The whole topology of a mesh over a chain of `n` segments: buffer sizes
/// `4 (n - 1)` vertices and `6 (n - 1)` indices, every link as
/// `link_topology_at` states.
pub open spec fn mesh_topology_ok(mesh: BodyMesh, n: int) -> bool {
    &&& mesh.positions.len() == 4 * (n - 1)
    &&& mesh.uvs.len() == 4 * (n - 1)
    &&& mesh.normals.len() == 4 * (n - 1)
    &&& mesh.indices.len() == 6 * (n - 1)
    &&& forall|j: int|
        0 <= j < n - 1 ==> #[trigger] link_topology_at(
            mesh.uvs@,
            mesh.normals@,
            mesh.indices@,
            n,
            j,
        )
}

/// Every vertex position agrees with the chain's current cross-sections.
pub open spec fn mesh_positions_ok(mesh: BodyMesh, segs: Seq<Segment>) -> bool {
    &&& mesh.positions.len() == 4 * (segs.len() - 1)
    &&& forall|j: int|
        0 <= j < segs.len() - 1 ==> #[trigger] link_positions_at(mesh.positions@, segs, j)
    &&& forall|v: int|
        0 <= v < mesh.positions.len() ==> pos_within(#[trigger] mesh.positions@[v], MESH_LIMIT as int)
}

/// A direction component times half a width, scaled down by `UNIT`, stays
/// within a small fixed bound.
proof fn lemma_width_term(v: int, hw: int)
    requires
        -65539 <= v <= 65539,
        0 <= hw <= 0x80_0000,
    ensures
        -8388992 <= div_trunc(v * hw, UNIT as int) <= 8388992,
{
    let m = if v >= 0 {
        v
    } else {
        -v
    };
    assert(0 <= m * hw <= 549780979712 && v * hw == (if v >= 0 {
        m * hw
    } else {
        -(m * hw)
    })) by (nonlinear_arith)
        requires
            m == if v >= 0 { v } else { -v },
            0 <= m <= 65539,
            0 <= hw <= 0x80_0000,
    ;
    lemma_div_mono(m * hw, 549780979712, 65536);
    lemma_div_bounds(m * hw, 65536);
    assert(549780979712int / 65536 == 8388992);
}

/// Compute both cross-section edge points of one segment: left, then
/// right.
fn corner_points(seg: &Segment) -> (r: (V2, V2))
    requires
        pos_within(seg.pos, 0x2000_0000),
        dir_ok(seg.dir),
        0 <= seg.width <= WIDTH_LIMIT,
    ensures
        (r.0.x as int, r.0.y as int) == corner_spec(*seg, false),
        (r.1.x as int, r.1.y as int) == corner_spec(*seg, true),
        pos_within(r.0, MESH_LIMIT as int),
        pos_within(r.1, MESH_LIMIT as int),
{
    let hw: i64 = ((seg.width as u64) / 2) as i64;
    proof {
        assert(seg.dir.y * hw <= 65539i64 * 0x80_0000 && -(65539i64 * 0x80_0000) <= seg.dir.y * hw
            && seg.dir.x * hw <= 65539i64 * 0x80_0000 && -(65539i64 * 0x80_0000) <= seg.dir.x * hw
            && (-seg.dir.y) * hw == -(seg.dir.y * hw) && (-seg.dir.x) * hw == -(seg.dir.x * hw))
            by (nonlinear_arith)
            requires
                -65539 <= seg.dir.x <= 65539,
                -65539 <= seg.dir.y <= 65539,
                0 <= hw <= 0x80_0000,
        ;
        lemma_width_term(seg.dir.y as int, hw as int);
        lemma_width_term(seg.dir.x as int, hw as int);
        lemma_width_term(-(seg.dir.y as int), hw as int);
        lemma_width_term(-(seg.dir.x as int), hw as int);
    }
    let left_x: i64 = scale_div(-seg.dir.y, hw, UNIT);
    let left_y: i64 = scale_div(seg.dir.x, hw, UNIT);
    let right_x: i64 = scale_div(seg.dir.y, hw, UNIT);
    let right_y: i64 = scale_div(-seg.dir.x, hw, UNIT);
    (
        V2 { x: seg.pos.x + left_x, y: seg.pos.y + left_y },
        V2 { x: seg.pos.x + right_x, y: seg.pos.y + right_y },
    )
}

/// Build the ribbon mesh once, from the already instantiated chain: walk
/// the links, emitting four vertices (positions, UVs, normals) and six
/// indices per link.
pub fn generate_mesh(chain: &Chain) -> (mesh: BodyMesh)
    requires
        chain.wf(),
    ensures
        mesh_topology_ok(mesh, chain.segments.len() as int),
        mesh_positions_ok(mesh, chain.segments@),
{
    let n: usize = chain.segments.len();
    let mut positions: Vec<V2> = Vec::new();
    let mut uvs: Vec<(u32, u32)> = Vec::new();
    let mut normals: Vec<(i64, i64, i64)> = Vec::new();
    let mut indices: Vec<u32> = Vec::new();
    let mut j: usize = 1;
    while j < n
        invariant
            1 <= j <= n,
            n == chain.segments.len(),
            chain.wf(),
            positions.len() == 4 * (j - 1),
            uvs.len() == 4 * (j - 1),
            normals.len() == 4 * (j - 1),
            indices.len() == 6 * (j - 1),
            forall|k: int|
                0 <= k < j - 1 ==> #[trigger] link_topology_at(uvs@, normals@, indices@, n as int, k),
            forall|k: int|
                0 <= k < j - 1 ==> #[trigger] link_positions_at(positions@, chain.segments@, k),
            forall|v: int|
                0 <= v < positions.len() ==> pos_within(#[trigger] positions@[v], MESH_LIMIT as int),
        decreases n - j,
    {
        let ghost positions0 = positions@;
        let ghost uvs0 = uvs@;
        let ghost normals0 = normals@;
        let ghost indices0 = indices@;
        let lower: Segment = chain.segments[j];
        let upper: Segment = chain.segments[j - 1];
        proof {
            crate::chain::lemma_seg_pos_ok(lower, j as int, chain.spacing());
            crate::chain::lemma_seg_pos_ok(upper, j - 1 as int, chain.spacing());
        }
        let (lower_l, lower_r) = corner_points(&lower);
        let (upper_l, upper_r) = corner_points(&upper);
        positions.push(lower_l);
        positions.push(lower_r);
        positions.push(upper_l);
        positions.push(upper_r);
        let row: u32 = (n - 1 - j) as u32;
        uvs.push((row, 0));
        uvs.push((row, 1));
        uvs.push((row + 1, 0));
        uvs.push((row + 1, 1));
        normals.push((0, 0, 1));
        normals.push((0, 0, 1));
        normals.push((0, 0, 1));
        normals.push((0, 0, 1));
        let base: u32 = (4 * (j - 1)) as u32;
        indices.push(base);
        indices.push(base + 1);
        indices.push(base + 3);
        indices.push(base + 3);
        indices.push(base + 2);
        indices.push(base);
        proof {
            assert(link_topology_at(uvs@, normals@, indices@, n as int, j - 1));
            assert(link_positions_at(positions@, chain.segments@, j - 1));
            assert forall|k: int| 0 <= k < j - 1 implies #[trigger] link_topology_at(
                uvs@,
                normals@,
                indices@,
                n as int,
                k,
            ) by {
                assert(link_topology_at(uvs0, normals0, indices0, n as int, k));
            }
            assert forall|k: int| 0 <= k < j - 1 implies #[trigger] link_positions_at(
                positions@,
                chain.segments@,
                k,
            ) by {
                assert(link_positions_at(positions0, chain.segments@, k));
            }
        }
        j = j + 1;
    }
    BodyMesh { positions, uvs, normals, indices }
}

/// Refresh only the vertex positions from the chain's current transforms.
/// The UV, normal and index buffers are returned bit-identical: the mesh
/// topology is invariant for the chain's lifetime.
pub fn update_mesh(chain: &Chain, mesh: &mut BodyMesh)
    requires
        chain.wf(),
        mesh_topology_ok(*old(mesh), chain.segments.len() as int),
    ensures
        mesh_topology_ok(*final(mesh), chain.segments.len() as int),
        mesh_positions_ok(*final(mesh), chain.segments@),
        final(mesh).uvs@ == old(mesh).uvs@,
        final(mesh).normals@ == old(mesh).normals@,
        final(mesh).indices@ == old(mesh).indices@,
        final(mesh).positions.len() == old(mesh).positions.len(),
{
    let n: usize = chain.segments.len();
    let mut j: usize = 1;
    while j < n
        invariant
            1 <= j <= n,
            n == chain.segments.len(),
            chain.wf(),
            mesh.positions.len() == 4 * (n - 1),
            mesh.uvs@ == old(mesh).uvs@,
            mesh.normals@ == old(mesh).normals@,
            mesh.indices@ == old(mesh).indices@,
            mesh_topology_ok(*mesh, n as int),
            forall|k: int|
                0 <= k < j - 1 ==> #[trigger] link_positions_at(mesh.positions@, chain.segments@, k),
            forall|v: int|
                0 <= v < 4 * (j - 1) ==> pos_within(#[trigger] mesh.positions@[v], MESH_LIMIT as int),
        decreases n - j,
    {
        let ghost positions0 = mesh.positions@;
        let lower: Segment = chain.segments[j];
        let upper: Segment = chain.segments[j - 1];
        proof {
            crate::chain::lemma_seg_pos_ok(lower, j as int, chain.spacing());
            crate::chain::lemma_seg_pos_ok(upper, j - 1 as int, chain.spacing());
        }
        let (lower_l, lower_r) = corner_points(&lower);
        let (upper_l, upper_r) = corner_points(&upper);
        let base: usize = 4 * (j - 1);
        mesh.positions[base] = lower_l;
        mesh.positions[base + 1] = lower_r;
        mesh.positions[base + 2] = upper_l;
        mesh.positions[base + 3] = upper_r;
        proof {
            assert(link_positions_at(mesh.positions@, chain.segments@, j - 1));
            assert forall|k: int| 0 <= k < j - 1 implies #[trigger] link_positions_at(
                mesh.positions@,
                chain.segments@,
                k,
            ) by {
                assert(link_positions_at(positions0, chain.segments@, k));
            }
        }
        j = j + 1;
    }
}

} // verus!
