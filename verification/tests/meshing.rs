use std::collections::HashMap;

use greedy_mesh::buffer::QuadBuffer;
use greedy_mesh::face::OrientedBlockFace;
use greedy_mesh::face::right_handed_y_up_faces;
use greedy_mesh::greedy::MeshError;
use greedy_mesh::greedy::greedy_quads;
use greedy_mesh::shape::Shape3;
use greedy_mesh::voxel::GridVoxel;
use greedy_mesh::voxel::VoxelVisibility;

fn coord(face: &OrientedBlockFace, n: u32, u: u32, v: u32) -> [u32; 3] {
    let mut p = [0u32; 3];
    p[face.n_axis] = n;
    p[face.u_axis] = u;
    p[face.v_axis] = v;
    p
}

fn visible(voxel: &GridVoxel, neighbour: &GridVoxel) -> bool {
    voxel.visibility != VoxelVisibility::Empty
        && (neighbour.visibility == VoxelVisibility::Empty
            || (neighbour.visibility == VoxelVisibility::Translucent
                && voxel.visibility == VoxelVisibility::Opaque))
}

/// Exhaustive per-voxel-face enumeration of one direction: every visible face
/// of an interior voxel, keyed by its grid position.
fn naive_faces(
    voxels: &[GridVoxel],
    shape: &Shape3,
    min_b: [u32; 3],
    max_b: [u32; 3],
    face: &OrientedBlockFace,
) -> Vec<[u32; 3]> {
    let mut found = Vec::new();
    for n in min_b[face.n_axis] + 1..max_b[face.n_axis] {
        for v in min_b[face.v_axis] + 1..max_b[face.v_axis] {
            for u in min_b[face.u_axis] + 1..max_b[face.u_axis] {
                let p = coord(face, n, u, v);
                let nn = if face.n_sign == 1 { n + 1 } else { n - 1 };
                let q = coord(face, nn, u, v);
                let vox = &voxels[shape.linearize(p[0], p[1], p[2]) as usize];
                let nb = &voxels[shape.linearize(q[0], q[1], q[2]) as usize];
                if visible(vox, nb) {
                    found.push(p);
                }
            }
        }
    }
    found
}

/// Checks a meshed buffer against the naive enumeration: every visible face
/// is covered by exactly one quad of its direction's group and quads cover
/// nothing else (no gaps, no double coverage, no overlap).
fn check_exact_cover(
    voxels: &[GridVoxel],
    shape: &Shape3,
    min_b: [u32; 3],
    max_b: [u32; 3],
    faces: &[OrientedBlockFace; 6],
    buffer: &QuadBuffer,
) {
    for d in 0..6 {
        let face = &faces[d];
        let mut covered: HashMap<[u32; 3], u32> = HashMap::new();
        for quad in buffer.group(d).iter() {
            let n = quad.minimum[face.n_axis];
            let u0 = quad.minimum[face.u_axis];
            let v0 = quad.minimum[face.v_axis];
            assert!(quad.width >= 1 && quad.height >= 1);
            for du in 0..quad.width {
                for dv in 0..quad.height {
                    let p = coord(face, n, u0 + du, v0 + dv);
                    *covered.entry(p).or_insert(0) += 1;
                }
            }
        }
        let wanted = naive_faces(voxels, shape, min_b, max_b, face);
        for p in wanted.iter() {
            assert_eq!(covered.get(p), Some(&1), "face at {:?} not covered exactly once", p);
        }
        let total: u32 = covered.values().sum();
        assert_eq!(total as usize, wanted.len(), "group {} covers cells it should not", d);
    }
}

fn solid_cube_voxels(side: u32, lo: u32, hi: u32) -> (Shape3, Vec<GridVoxel>) {
    let shape = Shape3::new(side, side, side).unwrap();
    let mut voxels = vec![GridVoxel::empty(); shape.size() as usize];
    for z in lo..=hi {
        for y in lo..=hi {
            for x in lo..=hi {
                voxels[shape.linearize(x, y, z) as usize] = GridVoxel::opaque(1);
            }
        }
    }
    (shape, voxels)
}

#[test]
fn single_voxel_six_unit_quads() {
    // Scenario: one opaque voxel with a 1-voxel empty padding shell.
    let (shape, voxels) = solid_cube_voxels(3, 1, 1);
    let faces = right_handed_y_up_faces();
    let mut buffer = QuadBuffer::new();
    greedy_quads(&voxels, &shape, [0, 0, 0], [2, 2, 2], &faces, &mut buffer).unwrap();
    assert_eq!(buffer.num_quads(), 6);
    for d in 0..6 {
        let group = buffer.group(d);
        assert_eq!(group.len(), 1);
        assert_eq!(group[0].minimum, [1, 1, 1]);
        assert_eq!(group[0].width, 1);
        assert_eq!(group[0].height, 1);
    }
    check_exact_cover(&voxels, &shape, [0, 0, 0], [2, 2, 2], &faces, &buffer);
}

#[test]
fn filled_cube_one_quad_per_direction() {
    // Scenario: a filled 20x20x20 cube inside a 22x22x22 padded shape.
    let (shape, voxels) = solid_cube_voxels(22, 1, 20);
    let faces = right_handed_y_up_faces();
    let mut buffer = QuadBuffer::new();
    greedy_quads(&voxels, &shape, [0, 0, 0], [21, 21, 21], &faces, &mut buffer).unwrap();
    assert_eq!(buffer.num_quads(), 6);
    for d in 0..6 {
        let group = buffer.group(d);
        assert_eq!(group.len(), 1);
        assert_eq!(group[0].width, 20);
        assert_eq!(group[0].height, 20);
    }
    check_exact_cover(&voxels, &shape, [0, 0, 0], [21, 21, 21], &faces, &buffer);
}

#[test]
fn surface_hole_splits_faces() {
    // Scenario: the filled cube with one voxel of the top surface removed.
    let (shape, voxels_full) = solid_cube_voxels(22, 1, 20);
    let mut voxels = voxels_full.clone();
    voxels[shape.linearize(10, 10, 20) as usize] = GridVoxel::empty();
    let faces = right_handed_y_up_faces();
    let mut buffer = QuadBuffer::new();
    greedy_quads(&voxels, &shape, [0, 0, 0], [21, 21, 21], &faces, &mut buffer).unwrap();
    // the +Z group held one 20x20 quad; the punctured surface now needs at
    // least four rectangles around the hole, plus the face at its bottom
    let plus_z = 5;
    assert_eq!(faces[plus_z].n_axis, 2);
    assert_eq!(faces[plus_z].n_sign, 1);
    assert!(buffer.group(plus_z).len() >= 5);
    assert!(buffer.num_quads() > 6);
    check_exact_cover(&voxels, &shape, [0, 0, 0], [21, 21, 21], &faces, &buffer);
}

#[test]
fn differing_keys_never_merge() {
    // Scenario: two adjacent opaque voxels with different merge keys.
    let shape = Shape3::new(4, 3, 3).unwrap();
    let mut voxels = vec![GridVoxel::empty(); shape.size() as usize];
    voxels[shape.linearize(1, 1, 1) as usize] = GridVoxel::opaque(1);
    voxels[shape.linearize(2, 1, 1) as usize] = GridVoxel::opaque(2);
    let faces = right_handed_y_up_faces();
    let mut buffer = QuadBuffer::new();
    greedy_quads(&voxels, &shape, [0, 0, 0], [3, 2, 2], &faces, &mut buffer).unwrap();
    for d in 0..6 {
        let face = &faces[d];
        if face.n_axis == 0 {
            // the end caps: one unit quad each
            assert_eq!(buffer.group(d).len(), 1);
        } else {
            // faces along the pair: two unit quads, never a merged 2x1
            let group = buffer.group(d);
            assert_eq!(group.len(), 2);
            for quad in group.iter() {
                assert_eq!(quad.width, 1);
                assert_eq!(quad.height, 1);
            }
        }
    }
    check_exact_cover(&voxels, &shape, [0, 0, 0], [3, 2, 2], &faces, &buffer);
}

#[test]
fn equal_keys_merge_along_run() {
    // Two adjacent same-key faces always land in one rectangle.
    let shape = Shape3::new(4, 3, 3).unwrap();
    let mut voxels = vec![GridVoxel::empty(); shape.size() as usize];
    voxels[shape.linearize(1, 1, 1) as usize] = GridVoxel::opaque(1);
    voxels[shape.linearize(2, 1, 1) as usize] = GridVoxel::opaque(1);
    let faces = right_handed_y_up_faces();
    let mut buffer = QuadBuffer::new();
    greedy_quads(&voxels, &shape, [0, 0, 0], [3, 2, 2], &faces, &mut buffer).unwrap();
    for d in 0..6 {
        let face = &faces[d];
        if face.n_axis != 0 {
            // a single 2x1 rectangle spans both voxels
            assert_eq!(buffer.group(d).len(), 1);
            let quad = &buffer.group(d)[0];
            assert_eq!(quad.width * quad.height, 2);
        }
    }
    check_exact_cover(&voxels, &shape, [0, 0, 0], [3, 2, 2], &faces, &buffer);
}

#[test]
fn translucent_neighbour_rule_in_mesh() {
    // An opaque voxel next to a translucent one is meshed; the reverse not.
    let shape = Shape3::new(4, 3, 3).unwrap();
    let mut voxels = vec![GridVoxel::empty(); shape.size() as usize];
    voxels[shape.linearize(1, 1, 1) as usize] = GridVoxel::opaque(1);
    voxels[shape.linearize(2, 1, 1) as usize] = GridVoxel::translucent(2);
    let faces = right_handed_y_up_faces();
    let mut buffer = QuadBuffer::new();
    greedy_quads(&voxels, &shape, [0, 0, 0], [3, 2, 2], &faces, &mut buffer).unwrap();
    check_exact_cover(&voxels, &shape, [0, 0, 0], [3, 2, 2], &faces, &buffer);
    // the +X group holds the opaque voxel's face against the glass and the
    // glass's own face against the padding
    let plus_x = 3;
    assert_eq!(buffer.group(plus_x).len(), 2);
    // the -X group holds only the opaque voxel's outer face: the glass
    // produces no face against the opaque voxel
    let minus_x = 0;
    assert_eq!(buffer.group(minus_x).len(), 1);
}

#[test]
fn reset_and_rerun_is_identical() {
    // Re-running after reset() reproduces the buffer exactly.
    let (shape, mut voxels) = solid_cube_voxels(8, 1, 6);
    voxels[shape.linearize(3, 3, 3) as usize] = GridVoxel::empty();
    voxels[shape.linearize(4, 3, 6) as usize] = GridVoxel::opaque(2);
    let faces = right_handed_y_up_faces();
    let mut buffer = QuadBuffer::new();
    greedy_quads(&voxels, &shape, [0, 0, 0], [7, 7, 7], &faces, &mut buffer).unwrap();
    let first: Vec<Vec<_>> = (0..6).map(|d| buffer.group(d).clone()).collect();
    let first_count = buffer.num_quads();
    buffer.reset();
    assert_eq!(buffer.num_quads(), 0);
    greedy_quads(&voxels, &shape, [0, 0, 0], [7, 7, 7], &faces, &mut buffer).unwrap();
    assert_eq!(buffer.num_quads(), first_count);
    for d in 0..6 {
        assert_eq!(buffer.group(d), &first[d]);
    }
}

#[test]
fn count_never_exceeds_naive_and_checkerboard_equals_it() {
    let faces = right_handed_y_up_faces();
    // a merged solid stays far below the naive count
    let (shape, voxels) = solid_cube_voxels(8, 1, 6);
    let mut buffer = QuadBuffer::new();
    greedy_quads(&voxels, &shape, [0, 0, 0], [7, 7, 7], &faces, &mut buffer).unwrap();
    let naive: usize = (0..6)
        .map(|d| naive_faces(&voxels, &shape, [0, 0, 0], [7, 7, 7], &faces[d]).len())
        .sum();
    assert!(buffer.num_quads() <= naive);
    assert!(buffer.num_quads() < naive);
    // a checkerboard of merge keys leaves nothing to merge: counts are equal
    let shape2 = Shape3::new(6, 6, 6).unwrap();
    let mut voxels2 = vec![GridVoxel::empty(); shape2.size() as usize];
    for z in 1..=4 {
        for y in 1..=4 {
            for x in 1..=4 {
                let key = ((x + y + z) % 2) as u64;
                voxels2[shape2.linearize(x, y, z) as usize] = GridVoxel::opaque(key);
            }
        }
    }
    let mut buffer2 = QuadBuffer::new();
    greedy_quads(&voxels2, &shape2, [0, 0, 0], [5, 5, 5], &faces, &mut buffer2).unwrap();
    let naive2: usize = (0..6)
        .map(|d| naive_faces(&voxels2, &shape2, [0, 0, 0], [5, 5, 5], &faces[d]).len())
        .sum();
    assert_eq!(buffer2.num_quads(), naive2);
    check_exact_cover(&voxels2, &shape2, [0, 0, 0], [5, 5, 5], &faces, &buffer2);
}

#[test]
fn no_overlap_within_groups() {
    // Within one group, no two quads of the same layer share a cell: the
    // coverage map counts each covered cell exactly once.
    let (shape, mut voxels) = solid_cube_voxels(10, 1, 8);
    for x in 2..=6 {
        voxels[shape.linearize(x, 4, 8) as usize] = GridVoxel::empty();
        voxels[shape.linearize(x, 4, 7) as usize] = GridVoxel::opaque(2);
    }
    let faces = right_handed_y_up_faces();
    let mut buffer = QuadBuffer::new();
    greedy_quads(&voxels, &shape, [0, 0, 0], [9, 9, 9], &faces, &mut buffer).unwrap();
    check_exact_cover(&voxels, &shape, [0, 0, 0], [9, 9, 9], &faces, &buffer);
}

#[test]
fn invalid_bounds_reject_and_leave_buffer() {
    let (shape, voxels) = solid_cube_voxels(4, 1, 2);
    let faces = right_handed_y_up_faces();
    let mut buffer = QuadBuffer::new();
    buffer.push(1, greedy_mesh::quad::UnorientedQuad::from_minimum([0, 0, 0]));
    // empty region: no interior voxel between the padding layers
    let r = greedy_quads(&voxels, &shape, [0, 0, 0], [1, 3, 3], &faces, &mut buffer);
    assert_eq!(r, Err(MeshError::InvalidBounds));
    // region leaves the shape's extents
    let r2 = greedy_quads(&voxels, &shape, [0, 0, 0], [4, 3, 3], &faces, &mut buffer);
    assert_eq!(r2, Err(MeshError::InvalidBounds));
    // min on some axis at or past max
    let r3 = greedy_quads(&voxels, &shape, [2, 0, 0], [2, 3, 3], &faces, &mut buffer);
    assert_eq!(r3, Err(MeshError::InvalidBounds));
    // the buffer is untouched by a failed call
    assert_eq!(buffer.num_quads(), 1);
    assert_eq!(buffer.group(1).len(), 1);
    // the same buffer still works for a valid call afterwards
    let ok = greedy_quads(&voxels, &shape, [0, 0, 0], [3, 3, 3], &faces, &mut buffer);
    assert_eq!(ok, Ok(()));
    assert!(buffer.num_quads() > 1);
}

#[test]
fn empty_volume_produces_no_quads() {
    let shape = Shape3::new(5, 5, 5).unwrap();
    let voxels = vec![GridVoxel::empty(); shape.size() as usize];
    let faces = right_handed_y_up_faces();
    let mut buffer = QuadBuffer::new();
    greedy_quads(&voxels, &shape, [0, 0, 0], [4, 4, 4], &faces, &mut buffer).unwrap();
    assert_eq!(buffer.num_quads(), 0);
    check_exact_cover(&voxels, &shape, [0, 0, 0], [4, 4, 4], &faces, &buffer);
}

#[test]
fn appends_to_existing_groups() {
    let (shape, voxels) = solid_cube_voxels(3, 1, 1);
    let faces = right_handed_y_up_faces();
    let mut buffer = QuadBuffer::new();
    let marker = greedy_mesh::quad::UnorientedQuad::new([9, 9, 9], 1, 1);
    buffer.push(0, marker);
    greedy_quads(&voxels, &shape, [0, 0, 0], [2, 2, 2], &faces, &mut buffer).unwrap();
    assert_eq!(buffer.num_quads(), 7);
    assert_eq!(buffer.group(0).len(), 2);
    assert_eq!(buffer.group(0)[0], marker);
}
