//! Orientation metadata for one of the six face directions: which axis the
//! face looks along, which two grid axes span its plane, and the conventions
//! for winding and texture-coordinate flips. Combining a descriptor with an
//! [`UnorientedQuad`] yields concrete corners, normals, UVs and indices.
use vstd::prelude::*;

use crate::quad::UnorientedQuad;

verus! {

/// Metadata for one face direction.
#[derive(Debug, Clone, Copy, PartialEq, Eq)]
pub struct OrientedBlockFace {
    /// +1 when the face looks along the positive normal axis, -1 otherwise.
    pub n_sign: i32,
    /// The axis (0, 1 or 2) the face normal lies on.
    pub n_axis: usize,
    /// The grid axis measured by a quad's `width`.
    pub u_axis: usize,
    /// The grid axis measured by a quad's `height`.
    pub v_axis: usize,
    /// Swaps the two triangles' winding in `quad_mesh_indices`.
    pub flip_winding: bool,
}

impl OrientedBlockFace {
    /// Well-formedness: the sign is a unit and the three axes are a
    /// permutation of {0, 1, 2}.
    pub open spec fn wf(self) -> bool {
        &&& (self.n_sign == 1 || self.n_sign == -1)
        &&& self.n_axis < 3
        &&& self.u_axis < 3
        &&& self.v_axis < 3
        &&& self.n_axis != self.u_axis
        &&& self.n_axis != self.v_axis
        &&& self.u_axis != self.v_axis
    }

    /// Builds a face descriptor from its sign, axes and winding convention.
    pub fn new(n_sign: i32, n_axis: usize, u_axis: usize, v_axis: usize, flip_winding: bool) -> (f:
        Self)
        requires
            n_sign == 1 || n_sign == -1,
            n_axis < 3,
            u_axis < 3,
            v_axis < 3,
            n_axis != u_axis,
            n_axis != v_axis,
            u_axis != v_axis,
        ensures
            f == (OrientedBlockFace { n_sign, n_axis, u_axis, v_axis, flip_winding }),
            f.wf(),
    {
        Self { n_sign, n_axis, u_axis, v_axis, flip_winding }
    }

    /// The outward unit normal, one signed component on the normal axis.
    pub fn signed_normal(&self) -> (r: [i32; 3])
        requires
            self.wf(),
        ensures
            r@.len() == 3,
            r[self.n_axis as int] == self.n_sign,
            forall|a: int| 0 <= a < 3 && a != self.n_axis ==> r[a] == 0,
    {
        match self.n_axis {
            0 => [self.n_sign, 0, 0],
            1 => [0, self.n_sign, 0],
            _ => [0, 0, self.n_sign],
        }
    }

    /// Where corner `k` (0..4) of a quad lies on axis `a`: the quad's anchor,
    /// pushed one voxel out of the volume for positive faces, plus the quad's
    /// width (corners 1 and 3) and height (corners 2 and 3) along the two
    /// in-plane axes.
    pub open spec fn corner_spec(self, q: UnorientedQuad, k: int, a: int) -> int {
        q.minimum[a] + (if a == self.n_axis && self.n_sign == 1 {
            1int
        } else {
            0int
        }) + (if a == self.u_axis && (k == 1 || k == 3) {
            q.width as int
        } else {
            0int
        }) + (if a == self.v_axis && (k == 2 || k == 3) {
            q.height as int
        } else {
            0int
        })
    }

    /// The four corner positions of a quad, in grid units. Corner order is
    /// anchor, anchor+width, anchor+height, anchor+width+height.
    pub fn quad_corners(&self, quad: &UnorientedQuad) -> (r: [[u32; 3]; 4])
        requires
            self.wf(),
            quad.minimum[self.n_axis as int] < u32::MAX,
            quad.minimum[self.u_axis as int] + quad.width <= u32::MAX,
            quad.minimum[self.v_axis as int] + quad.height <= u32::MAX,
        ensures
            forall|k: int, a: int|
                0 <= k < 4 && 0 <= a < 3 ==> r[k][a] == self.corner_spec(*quad, k, a),
    {
        let base = add_on_axis(quad.minimum, self.n_axis, if self.n_sign == 1 {
            1
        } else {
            0
        });
        let cw = add_on_axis(base, self.u_axis, quad.width);
        let ch = add_on_axis(base, self.v_axis, quad.height);
        let cwh = add_on_axis(cw, self.v_axis, quad.height);
        [base, cw, ch, cwh]
    }

    /// The face's outward normal, repeated for each of the four vertices.
    pub fn quad_mesh_normals(&self) -> (r: [[i32; 3]; 4])
        requires
            self.wf(),
        ensures
            forall|k: int| 0 <= k < 4 ==> r[k][self.n_axis as int] == self.n_sign,
            forall|k: int, a: int|
                0 <= k < 4 && 0 <= a < 3 && a != self.n_axis ==> r[k][a] == 0,
    {
        let n = self.signed_normal();
        [n, n, n, n]
    }

    /// Indices of the quad's two triangles, sharing the corner-1/corner-2
    /// diagonal, for vertices appended starting at `start`. The winding of
    /// both triangles follows the face's `flip_winding` convention.
    pub fn quad_mesh_indices(&self, start: u32) -> (r: [u32; 6])
        requires
            start + 3 <= u32::MAX,
        ensures
            !self.flip_winding ==> r@ == seq![
                start,
                (start + 1) as u32,
                (start + 2) as u32,
                (start + 1) as u32,
                (start + 3) as u32,
                (start + 2) as u32,
            ],
            self.flip_winding ==> r@ == seq![
                start,
                (start + 2) as u32,
                (start + 1) as u32,
                (start + 1) as u32,
                (start + 2) as u32,
                (start + 3) as u32,
            ],
    {
        let r = if !self.flip_winding {
            [start, start + 1, start + 2, start + 1, start + 3, start + 2]
        } else {
            [start, start + 2, start + 1, start + 1, start + 2, start + 3]
        };
        proof {
            if !self.flip_winding {
                assert(r@ =~= seq![
                    start,
                    (start + 1) as u32,
                    (start + 2) as u32,
                    (start + 1) as u32,
                    (start + 3) as u32,
                    (start + 2) as u32,
                ]);
            } else {
                assert(r@ =~= seq![
                    start,
                    (start + 2) as u32,
                    (start + 1) as u32,
                    (start + 1) as u32,
                    (start + 2) as u32,
                    (start + 3) as u32,
                ]);
            }
        }
        r
    }

    /// Whether `tex_coords` mirrors the U coordinate: faces whose first
    /// in-plane axis is the flip axis are mirrored on negative sides, all
    /// other faces on positive sides, so that texturing stays continuous
    /// around the volume.
    pub open spec fn flip_u_spec(self, u_flip_axis: int) -> bool {
        (self.n_sign < 0) == (u_flip_axis == self.u_axis)
    }

    /// Per-vertex texture coordinates for a quad, in voxel units, before any
    /// caller-chosen tiling scale: corner `k`'s U is 0 or the quad's width and
    /// its V is 0 or the quad's height, mirrored according to
    /// `flip_u_spec(u_flip_axis)` and `flip_v`.
    pub fn tex_coords(&self, u_flip_axis: usize, flip_v: bool, quad: &UnorientedQuad) -> (r:
        [[u32; 2]; 4])
        requires
            self.wf(),
        ensures
            forall|k: int|
                0 <= k < 4 ==> r[k][0] == (if (k == 1 || k == 3) != self.flip_u_spec(
                    u_flip_axis as int,
                ) {
                    quad.width as int
                } else {
                    0int
                }),
            forall|k: int|
                0 <= k < 4 ==> r[k][1] == (if (k == 2 || k == 3) != flip_v {
                    quad.height as int
                } else {
                    0int
                }),
    {
        let flip_u: bool = (self.n_sign < 0) == (u_flip_axis == self.u_axis);
        let w = quad.width;
        let h = quad.height;
        match (flip_u, flip_v) {
            (false, false) => [[0, 0], [w, 0], [0, h], [w, h]],
            (true, false) => [[w, 0], [0, 0], [w, h], [0, h]],
            (false, true) => [[0, h], [w, h], [0, 0], [w, 0]],
            (true, true) => [[w, h], [0, h], [w, 0], [0, 0]],
        }
    }
}

/// `p` with `d` added to its component on `axis`, other components unchanged.
fn add_on_axis(p: [u32; 3], axis: usize, d: u32) -> (r: [u32; 3])
    requires
        axis < 3,
        p[axis as int] + d <= u32::MAX,
    ensures
        r@.len() == 3,
        r[axis as int] == p[axis as int] + d,
        forall|a: int| 0 <= a < 3 && a != axis ==> r[a] == p[a],
{
    match axis {
        0 => [p[0] + d, p[1], p[2]],
        1 => [p[0], p[1] + d, p[2]],
        _ => [p[0], p[1], p[2] + d],
    }
}

/// The six face descriptors of the conventional right-handed, Y-up basis:
/// the three negative faces first, then the three positive ones, each with
/// its two in-plane axes and winding convention.
pub open spec fn right_handed_y_up_faces_spec() -> Seq<OrientedBlockFace> {
    seq![
        OrientedBlockFace { n_sign: -1i32, n_axis: 0, u_axis: 2, v_axis: 1, flip_winding: true },
        OrientedBlockFace { n_sign: -1i32, n_axis: 1, u_axis: 0, v_axis: 2, flip_winding: true },
        OrientedBlockFace { n_sign: -1i32, n_axis: 2, u_axis: 0, v_axis: 1, flip_winding: false },
        OrientedBlockFace { n_sign: 1, n_axis: 0, u_axis: 2, v_axis: 1, flip_winding: false },
        OrientedBlockFace { n_sign: 1, n_axis: 1, u_axis: 0, v_axis: 2, flip_winding: false },
        OrientedBlockFace { n_sign: 1, n_axis: 2, u_axis: 0, v_axis: 1, flip_winding: true },
    ]
}

/// The six face descriptors of the conventional right-handed, Y-up basis.
pub fn right_handed_y_up_faces() -> (r: [OrientedBlockFace; 6])
    ensures
        r@ == right_handed_y_up_faces_spec(),
        forall|d: int| 0 <= d < 6 ==> r[d].wf(),
{
    let r = [
        OrientedBlockFace { n_sign: -1, n_axis: 0, u_axis: 2, v_axis: 1, flip_winding: true },
        OrientedBlockFace { n_sign: -1, n_axis: 1, u_axis: 0, v_axis: 2, flip_winding: true },
        OrientedBlockFace { n_sign: -1, n_axis: 2, u_axis: 0, v_axis: 1, flip_winding: false },
        OrientedBlockFace { n_sign: 1, n_axis: 0, u_axis: 2, v_axis: 1, flip_winding: false },
        OrientedBlockFace { n_sign: 1, n_axis: 1, u_axis: 0, v_axis: 2, flip_winding: false },
        OrientedBlockFace { n_sign: 1, n_axis: 2, u_axis: 0, v_axis: 1, flip_winding: true },
    ];
    proof {
        assert(r@ =~= right_handed_y_up_faces_spec());
    }
    r
}

} // verus!
