use greedy_mesh::buffer::QuadBuffer;
use greedy_mesh::buffer::UnitQuadBuffer;
use greedy_mesh::face::OrientedBlockFace;
use greedy_mesh::face::right_handed_y_up_faces;
use greedy_mesh::quad::Quad;
use greedy_mesh::quad::UnorientedQuad;
use greedy_mesh::shape::Shape3;
use greedy_mesh::voxel::GridVoxel;
use greedy_mesh::voxel::VoxelVisibility;
use greedy_mesh::voxel::face_needs_mesh;

#[test]
fn quad_accessors_and_constructors() {
    let q = UnorientedQuad::new([3, 4, 5], 7, 2);
    assert_eq!(q.minimum(), [3, 4, 5]);
    assert_eq!(q.width(), 7);
    assert_eq!(q.height(), 2);
    let unit = UnorientedQuad::from_minimum([9, 0, 1]);
    assert_eq!(unit.minimum(), [9, 0, 1]);
    assert_eq!(unit.width(), 1);
    assert_eq!(unit.height(), 1);
}

#[test]
fn quad_buffer_push_count_reset() {
    let mut buf = QuadBuffer::new();
    assert_eq!(buf.num_quads(), 0);
    buf.push(0, UnorientedQuad::from_minimum([0, 0, 0]));
    buf.push(0, UnorientedQuad::from_minimum([1, 0, 0]));
    buf.push(5, UnorientedQuad::from_minimum([2, 0, 0]));
    assert_eq!(buf.num_quads(), 3);
    assert_eq!(buf.group(0).len(), 2);
    assert_eq!(buf.group(1).len(), 0);
    assert_eq!(buf.group(5).len(), 1);
    buf.reset();
    assert_eq!(buf.num_quads(), 0);
    for d in 0..6 {
        assert_eq!(buf.group(d).len(), 0);
    }
}

#[test]
fn unit_quad_buffer_push_count_reset() {
    let mut buf: UnitQuadBuffer<UnorientedQuad> = UnitQuadBuffer::new();
    assert_eq!(buf.num_quads(), 0);
    buf.push(2, UnorientedQuad::from_minimum([0, 1, 2]));
    buf.push(3, UnorientedQuad::from_minimum([3, 4, 5]));
    assert_eq!(buf.num_quads(), 2);
    assert_eq!(buf.group(2).len(), 1);
    assert_eq!(buf.group(2)[0].minimum(), [0, 1, 2]);
    buf.reset();
    assert_eq!(buf.num_quads(), 0);
}

#[test]
fn shape_validation() {
    assert!(Shape3::new(0, 4, 4).is_none());
    assert!(Shape3::new(4, 0, 4).is_none());
    assert!(Shape3::new(4, 4, 0).is_none());
    assert!(Shape3::new(1, 1, 1).is_some());
    // 2^11 * 2^11 * 2^11 = 2^33 does not fit in u32
    assert!(Shape3::new(2048, 2048, 2048).is_none());
    // 2^10 * 2^10 * 2^12 = 2^32 just exceeds u32::MAX
    assert!(Shape3::new(1024, 1024, 4096).is_none());
    let s = Shape3::new(16, 16, 16).unwrap();
    assert_eq!(s.size(), 4096);
}

#[test]
fn shape_linearize_exact() {
    let s = Shape3::new(4, 5, 6).unwrap();
    assert_eq!(s.size(), 120);
    // row-major with x fastest: x + 4 * (y + 5 * z)
    assert_eq!(s.linearize(0, 0, 0), 0);
    assert_eq!(s.linearize(3, 0, 0), 3);
    assert_eq!(s.linearize(0, 1, 0), 4);
    assert_eq!(s.linearize(0, 0, 1), 20);
    assert_eq!(s.linearize(2, 3, 4), 2 + 4 * (3 + 5 * 4));
}

#[test]
fn shape_delinearize_roundtrip() {
    let s = Shape3::new(4, 5, 6).unwrap();
    for i in 0..120 {
        let (x, y, z) = s.delinearize(i);
        assert!(x < 4 && y < 5 && z < 6);
        assert_eq!(s.linearize(x, y, z), i);
    }
    assert_eq!(s.delinearize(0), (0, 0, 0));
    assert_eq!(s.delinearize(23), (3, 0, 1));
}

#[test]
fn face_visibility_rule() {
    let empty = GridVoxel::empty();
    let opaque = GridVoxel::opaque(1);
    let glass = GridVoxel::translucent(1);
    // a present voxel against an absent neighbour is meshed
    assert!(face_needs_mesh(&opaque, &empty));
    assert!(face_needs_mesh(&glass, &empty));
    // an absent voxel never produces a face
    assert!(!face_needs_mesh(&empty, &opaque));
    assert!(!face_needs_mesh(&empty, &empty));
    // opaque behind translucent is perceptible, the reverse is not
    assert!(face_needs_mesh(&opaque, &glass));
    assert!(!face_needs_mesh(&glass, &opaque));
    // equal non-empty visibilities produce no face
    assert!(!face_needs_mesh(&opaque, &opaque));
    assert!(!face_needs_mesh(&glass, &glass));
}

#[test]
fn grid_voxel_constructors() {
    let v = GridVoxel::opaque(7);
    assert_eq!(v.visibility, VoxelVisibility::Opaque);
    assert_eq!(v.merge_key, 7);
    assert_eq!(v.neighbour_key, 7);
    let e = GridVoxel::empty();
    assert_eq!(e.visibility, VoxelVisibility::Empty);
    let t = GridVoxel::translucent(3);
    assert_eq!(t.visibility, VoxelVisibility::Translucent);
    assert_eq!(t.merge_key, 3);
}

#[test]
fn oriented_face_normals() {
    let faces = right_handed_y_up_faces();
    assert_eq!(faces.len(), 6);
    // the first three look down the axes, the last three up
    assert_eq!(faces[0].signed_normal(), [-1, 0, 0]);
    assert_eq!(faces[1].signed_normal(), [0, -1, 0]);
    assert_eq!(faces[2].signed_normal(), [0, 0, -1]);
    assert_eq!(faces[3].signed_normal(), [1, 0, 0]);
    assert_eq!(faces[4].signed_normal(), [0, 1, 0]);
    assert_eq!(faces[5].signed_normal(), [0, 0, 1]);
}

#[test]
fn quad_corners_positive_y_face() {
    let faces = right_handed_y_up_faces();
    let up = faces[4];
    assert_eq!(up.n_axis, 1);
    assert_eq!(up.u_axis, 0);
    assert_eq!(up.v_axis, 2);
    let q = UnorientedQuad::new([2, 3, 4], 5, 6);
    let corners = up.quad_corners(&q);
    // a positive face is pushed one voxel out along its normal axis
    assert_eq!(corners[0], [2, 4, 4]);
    assert_eq!(corners[1], [7, 4, 4]);
    assert_eq!(corners[2], [2, 4, 10]);
    assert_eq!(corners[3], [7, 4, 10]);
}

#[test]
fn quad_corners_negative_x_face() {
    let faces = right_handed_y_up_faces();
    let left = faces[0];
    assert_eq!(left.n_axis, 0);
    assert_eq!(left.u_axis, 2);
    assert_eq!(left.v_axis, 1);
    let q = UnorientedQuad::new([2, 3, 4], 5, 6);
    let corners = left.quad_corners(&q);
    // a negative face stays on the anchor layer
    assert_eq!(corners[0], [2, 3, 4]);
    assert_eq!(corners[1], [2, 3, 9]);
    assert_eq!(corners[2], [2, 9, 4]);
    assert_eq!(corners[3], [2, 9, 9]);
}

#[test]
fn quad_mesh_normals_repeat() {
    let faces = right_handed_y_up_faces();
    let normals = faces[5].quad_mesh_normals();
    for n in normals.iter() {
        assert_eq!(*n, [0, 0, 1]);
    }
}

#[test]
fn quad_mesh_indices_windings() {
    let face = OrientedBlockFace::new(1, 1, 0, 2, false);
    assert_eq!(face.quad_mesh_indices(8), [8, 9, 10, 9, 11, 10]);
    let flipped = OrientedBlockFace::new(1, 1, 0, 2, true);
    assert_eq!(flipped.quad_mesh_indices(8), [8, 10, 9, 9, 10, 11]);
}

#[test]
fn tex_coords_flip_cases() {
    let q = UnorientedQuad::new([0, 0, 0], 3, 2);
    let plain = OrientedBlockFace::new(1, 1, 0, 2, false);
    // positive normal, flip axis differs from the U axis: U mirrored
    let coords = plain.tex_coords(1, false, &q);
    assert_eq!(coords, [[3, 0], [0, 0], [3, 2], [0, 2]]);
    // the same with V mirrored as well
    let coords_v = plain.tex_coords(1, true, &q);
    assert_eq!(coords_v, [[3, 2], [0, 2], [3, 0], [0, 0]]);
    // positive normal, flip axis equal to the U axis: no U mirror
    let coords_u = plain.tex_coords(0, false, &q);
    assert_eq!(coords_u, [[0, 0], [3, 0], [0, 2], [3, 2]]);
    // negative normal, flip axis equal to the U axis: U mirrored
    let neg = OrientedBlockFace::new(-1, 1, 0, 2, false);
    let coords_n = neg.tex_coords(0, false, &q);
    assert_eq!(coords_n, [[3, 0], [0, 0], [3, 2], [0, 2]]);
    // negative normal, flip axis differs from the U axis: no U mirror
    let coords_n2 = neg.tex_coords(2, false, &q);
    assert_eq!(coords_n2, [[0, 0], [3, 0], [0, 2], [3, 2]]);
}

#[test]
fn default_buffers_are_empty() {
    let buf: QuadBuffer = Default::default();
    assert_eq!(buf.num_quads(), 0);
    let unit: UnitQuadBuffer<UnorientedQuad> = Default::default();
    assert_eq!(unit.num_quads(), 0);
}
