//! The greedy merge engine: per face direction it builds a 2D mask of the
//! visible faces in each cross-section of the volume, then sweeps the mask in
//! row-major order, growing each unvisited active cell into a maximal
//! same-key rectangle, and emits one quad per rectangle.
use vstd::prelude::*;

use crate::buffer::QuadBuffer;
use crate::face::OrientedBlockFace;
use crate::quad::UnorientedQuad;
use crate::shape::Shape3;
use crate::voxel::MergeVoxel;
use crate::voxel::Voxel;
use crate::voxel::face_needs_mesh;
use crate::voxel::face_visible_spec;

verus! {

/// Why a meshing call produced nothing.
#[derive(Debug, Clone, Copy, PartialEq, Eq, Structural)]
pub enum MeshError {
    /// The requested region is empty or leaves the shape's extents.
    InvalidBounds,
}

/// One cell of a cross-section mask: whether the face straddling the cell is
/// visible, and the two merge keys that decide whether it can join a
/// neighbouring cell's rectangle.
#[derive(Debug, Clone, Copy, PartialEq, Eq)]
pub struct MaskCell {
    /// The visibility-pair rule holds for the voxel pair at this cell.
    pub active: bool,
    /// The meshed voxel's own merge key.
    pub key: u64,
    /// The facing-neighbour key of the voxel the face looks out on.
    pub neighbour_key: u64,
}

/// A merged rectangle inside one mask, in mask coordinates: `u`/`v` are the
/// column and row of its seed cell, `w`/`h` its extents.
#[derive(Debug, Clone, Copy, PartialEq, Eq)]
pub struct MaskRect {
    /// Column of the seed cell.
    pub u: usize,
    /// Row of the seed cell.
    pub v: usize,
    /// Number of columns covered.
    pub w: usize,
    /// Number of rows covered.
    pub h: usize,
}

/// Flat index of row `jv`, column `ju` in a row-major grid of `cols` columns.
pub open spec fn flat(cols: int, jv: int, ju: int) -> int {
    jv * cols + ju
}

/// The mask cell at row `jv`, column `ju`.
pub open spec fn cell_at(cells: Seq<MaskCell>, cols: int, jv: int, ju: int) -> MaskCell {
    cells[flat(cols, jv, ju)]
}

/// The visited flag at row `jv`, column `ju`.
pub open spec fn vis_at(vis: Seq<bool>, cols: int, jv: int, ju: int) -> bool {
    vis[flat(cols, jv, ju)]
}

/// How many cells of `cells` are active.
pub open spec fn count_active(cells: Seq<MaskCell>) -> int
    decreases cells.len(),
{
    if cells.len() == 0 {
        0
    } else {
        count_active(cells.drop_last()) + if cells.last().active {
            1int
        } else {
            0int
        }
    }
}

/// How many entries of `s` are true.
pub open spec fn count_true(s: Seq<bool>) -> int
    decreases s.len(),
{
    if s.len() == 0 {
        0
    } else {
        count_true(s.drop_last()) + if s.last() {
            1int
        } else {
            0int
        }
    }
}

/// The total area of a list of rectangles.
pub open spec fn rects_area(rs: Seq<MaskRect>) -> int
    decreases rs.len(),
{
    if rs.len() == 0 {
        0
    } else {
        rects_area(rs.drop_last()) + rs.last().w * rs.last().h
    }
}

/// A rectangle lies inside a `rows` by `cols` grid and is not degenerate.
pub open spec fn rect_wf(r: MaskRect, rows: int, cols: int) -> bool {
    &&& r.w >= 1
    &&& r.h >= 1
    &&& r.u + r.w <= cols
    &&& r.v + r.h <= rows
}

/// The cell at row `jv`, column `ju` lies inside rectangle `r`.
pub open spec fn in_rect(r: MaskRect, jv: int, ju: int) -> bool {
    &&& r.v <= jv < r.v + r.h
    &&& r.u <= ju < r.u + r.w
}

/// No cell lies inside both rectangles.
pub open spec fn rects_disjoint(r1: MaskRect, r2: MaskRect) -> bool {
    forall|jv: int, ju: int| !(#[trigger] in_rect(r1, jv, ju) && #[trigger] in_rect(r2, jv, ju))
}

/// Every cell inside `r` is active and carries the keys of `r`'s seed cell.
pub open spec fn rect_covers_matching(cells: Seq<MaskCell>, r: MaskRect, cols: int) -> bool {
    forall|jv: int, ju: int|
        #[trigger] in_rect(r, jv, ju) ==> {
            &&& cell_at(cells, cols, jv, ju).active
            &&& cell_at(cells, cols, jv, ju).key == cell_at(cells, cols, r.v as int, r.u as int).key
            &&& cell_at(cells, cols, jv, ju).neighbour_key == cell_at(
                cells,
                cols,
                r.v as int,
                r.u as int,
            ).neighbour_key
        }
}

/// Setting a false entry true raises the true-count by one.
proof fn lemma_count_true_update(s: Seq<bool>, j: int)
    requires
        0 <= j < s.len(),
        !s[j],
    ensures
        count_true(s.update(j, true)) == count_true(s) + 1,
    decreases s.len(),
{
    let t = s.update(j, true);
    if j == s.len() - 1 {
        assert(t.drop_last() =~= s.drop_last());
        assert(t.last());
    } else {
        assert(t.drop_last() =~= s.drop_last().update(j, true));
        lemma_count_true_update(s.drop_last(), j);
        assert(t.last() == s.last());
    }
}

/// When the true entries are exactly the active cells, the counts agree.
proof fn lemma_count_matching(cells: Seq<MaskCell>, vis: Seq<bool>)
    requires
        vis.len() == cells.len(),
        forall|j: int| 0 <= j < cells.len() ==> (vis[j] <==> cells[j].active),
    ensures
        count_true(vis) == count_active(cells),
    decreases cells.len(),
{
    if cells.len() > 0 {
        lemma_count_matching(cells.drop_last(), vis.drop_last());
    }
}

/// A list of non-degenerate rectangles has at least one cell each.
proof fn lemma_rects_area_ge_len(rs: Seq<MaskRect>)
    requires
        forall|k: int| 0 <= k < rs.len() ==> #[trigger] rs[k].w >= 1 && rs[k].h >= 1,
    ensures
        rects_area(rs) >= rs.len(),
    decreases rs.len(),
{
    if rs.len() > 0 {
        lemma_rects_area_ge_len(rs.drop_last());
        assert(rs.last().w * rs.last().h >= 1) by (nonlinear_arith)
            requires rs.last().w >= 1 && rs.last().h >= 1;
    }
}

/// Grid coordinates flatten to an index inside the grid.
proof fn lemma_grid_flat(rows: int, cols: int, jv: int, ju: int)
    requires
        0 <= jv < rows,
        0 <= ju < cols,
    ensures
        0 <= flat(cols, jv, ju) < rows * cols,
        ju < cols ==> flat(cols, jv, ju) / cols == jv && flat(cols, jv, ju) % cols == ju,
{
    assert(0 <= jv * cols + ju < rows * cols) by (nonlinear_arith)
        requires 0 <= jv < rows && 0 <= ju < cols;
    assert((jv * cols + ju) / cols == jv && (jv * cols + ju) % cols == ju) by (nonlinear_arith)
        requires 0 <= jv && 0 <= ju < cols;
}

/// The invariants of the mask sweep, relating the visited flags and the
/// rectangles emitted so far: visited cells are active; every rectangle is
/// well-formed, covers only active cells matching its seed's keys, and all
/// its cells are visited; every visited cell lies in some rectangle; the
/// rectangles are pairwise disjoint; and the emitted area equals the number
/// of visited cells.
spec fn sweep_inv(
    cells: Seq<MaskCell>,
    vis: Seq<bool>,
    out: Seq<MaskRect>,
    rows: int,
    cols: int,
) -> bool {
    &&& vis.len() == rows * cols
    &&& cells.len() == rows * cols
    &&& forall|jv: int, ju: int|
        0 <= jv < rows && 0 <= ju < cols && #[trigger] vis_at(vis, cols, jv, ju) ==> cell_at(
            cells,
            cols,
            jv,
            ju,
        ).active
    &&& forall|k: int| 0 <= k < out.len() ==> rect_wf(#[trigger] out[k], rows, cols)
    &&& forall|k: int| 0 <= k < out.len() ==> rect_covers_matching(cells, #[trigger] out[k], cols)
    &&& forall|k: int, jv: int, ju: int|
        0 <= k < out.len() && #[trigger] in_rect(out[k], jv, ju) ==> vis_at(vis, cols, jv, ju)
    &&& forall|jv: int, ju: int|
        0 <= jv < rows && 0 <= ju < cols && #[trigger] vis_at(vis, cols, jv, ju) ==> exists|k: int|
            0 <= k < out.len() && #[trigger] in_rect(out[k], jv, ju)
    &&& forall|k1: int, k2: int|
        0 <= k1 < k2 < out.len() ==> rects_disjoint(#[trigger] out[k1], #[trigger] out[k2])
    &&& rects_area(out) == count_true(vis)
}

/// All active cells scanned so far (rows before `jv_lim`, and columns before
/// `ju_lim` on row `jv_lim`) have been visited.
spec fn scanned_inv(
    cells: Seq<MaskCell>,
    vis: Seq<bool>,
    rows: int,
    cols: int,
    jv_lim: int,
    ju_lim: int,
) -> bool {
    forall|jv: int, ju: int|
        0 <= jv < rows && 0 <= ju < cols && (jv < jv_lim || (jv == jv_lim && ju < ju_lim))
            && #[trigger] cell_at(cells, cols, jv, ju).active ==> vis_at(vis, cols, jv, ju)
}

/// Every index inside the grid is the flattening of unique grid coordinates.
proof fn lemma_grid_index(rows: int, cols: int, j: int)
    requires
        cols >= 1,
        0 <= j < rows * cols,
    ensures
        0 <= j / cols < rows,
        0 <= j % cols < cols,
        j == flat(cols, j / cols, j % cols),
{
    assert(0 <= j % cols < cols && j == (j / cols) * cols + j % cols && 0 <= j / cols)
        by (nonlinear_arith)
        requires cols >= 1 && 0 <= j;
    assert(j / cols < rows) by (nonlinear_arith)
        requires
            cols >= 1,
            j < rows * cols,
            j == (j / cols) * cols + j % cols,
            0 <= j % cols,
            0 <= j / cols;
}

/// The meshing bounds are valid for the shape: on every axis the inclusive
/// corners keep at least one interior voxel between the two padding layers,
/// and stay inside the shape's extents.
pub open spec fn bounds_valid(shape: Shape3, min_b: [u32; 3], max_b: [u32; 3]) -> bool {
    forall|a: int|
        0 <= a < 3 ==> min_b[a] + 2 <= #[trigger] max_b[a] && max_b[a] < shape.extents()[a]
}

/// The grid coordinate, on axis `a`, of the voxel behind mask cell
/// (`jv`, `ju`) of the cross-section at layer `n`.
pub open spec fn coord_spec(
    face: OrientedBlockFace,
    min_b: [u32; 3],
    n: int,
    jv: int,
    ju: int,
    a: int,
) -> int {
    if a == face.n_axis {
        n
    } else if a == face.u_axis {
        min_b[a] + 1 + ju
    } else {
        min_b[a] + 1 + jv
    }
}

/// The flat-array offset of the voxel behind mask cell (`jv`, `ju`) at layer
/// `n`.
pub open spec fn cell_offset(
    shape: Shape3,
    face: OrientedBlockFace,
    min_b: [u32; 3],
    n: int,
    jv: int,
    ju: int,
) -> int {
    shape.linearize_spec(
        coord_spec(face, min_b, n, jv, ju, 0),
        coord_spec(face, min_b, n, jv, ju, 1),
        coord_spec(face, min_b, n, jv, ju, 2),
    )
}

/// Columns of a cross-section mask: the interior extent on the face's first
/// in-plane axis.
pub open spec fn mask_cols(face: OrientedBlockFace, min_b: [u32; 3], max_b: [u32; 3]) -> int {
    max_b[face.u_axis as int] - min_b[face.u_axis as int] - 1
}

/// Rows of a cross-section mask: the interior extent on the face's second
/// in-plane axis.
pub open spec fn mask_rows(face: OrientedBlockFace, min_b: [u32; 3], max_b: [u32; 3]) -> int {
    max_b[face.v_axis as int] - min_b[face.v_axis as int] - 1
}

/// The mask cell for the face of the voxel at (`jv`, `ju`) of layer `n`:
/// visibility of the pair straddling the face, the voxel's own merge key and
/// the neighbour's facing key.
pub open spec fn cell_spec<V: MergeVoxel>(
    voxels: Seq<V>,
    shape: Shape3,
    face: OrientedBlockFace,
    min_b: [u32; 3],
    n: int,
    jv: int,
    ju: int,
) -> MaskCell {
    let vox = voxels[cell_offset(shape, face, min_b, n, jv, ju)];
    let nb = voxels[cell_offset(shape, face, min_b, n + face.n_sign, jv, ju)];
    MaskCell {
        active: face_visible_spec(vox.spec_visibility(), nb.spec_visibility()),
        key: vox.spec_merge_value(),
        neighbour_key: nb.spec_merge_value_facing_neighbour(),
    }
}

/// The whole cross-section mask of layer `n` for one face direction, in
/// row-major order.
pub open spec fn mask_spec<V: MergeVoxel>(
    voxels: Seq<V>,
    shape: Shape3,
    face: OrientedBlockFace,
    min_b: [u32; 3],
    max_b: [u32; 3],
    n: int,
) -> Seq<MaskCell> {
    let cols = mask_cols(face, min_b, max_b);
    Seq::new(
        (mask_rows(face, min_b, max_b) * cols) as nat,
        |j: int| cell_spec(voxels, shape, face, min_b, n, j / cols, j % cols),
    )
}

/// The number of visible faces in one direction on the layers from the lower
/// padding layer (exclusive) up to layer `n` (inclusive): the count a naive
/// per-voxel-face mesher would emit for those layers.
pub open spec fn faces_to_layer<V: MergeVoxel>(
    voxels: Seq<V>,
    shape: Shape3,
    face: OrientedBlockFace,
    min_b: [u32; 3],
    max_b: [u32; 3],
    n: int,
) -> int
    decreases n - min_b[face.n_axis as int],
{
    if n <= min_b[face.n_axis as int] {
        0
    } else {
        faces_to_layer(voxels, shape, face, min_b, max_b, n - 1) + count_active(
            mask_spec(voxels, shape, face, min_b, max_b, n),
        )
    }
}

/// The number of visible faces in one direction over the whole interior: the
/// count a naive per-voxel-face mesher would emit for that direction.
pub open spec fn direction_faces<V: MergeVoxel>(
    voxels: Seq<V>,
    shape: Shape3,
    face: OrientedBlockFace,
    min_b: [u32; 3],
    max_b: [u32; 3],
) -> int {
    faces_to_layer(voxels, shape, face, min_b, max_b, max_b[face.n_axis as int] - 1)
}

/// The total face area covered by a list of quads.
pub open spec fn quads_area(qs: Seq<UnorientedQuad>) -> int
    decreases qs.len(),
{
    if qs.len() == 0 {
        0
    } else {
        quads_area(qs.drop_last()) + qs.last().width * qs.last().height
    }
}

/// A quad emitted for one direction is non-degenerate, anchored on a layer
/// strictly inside the padded region, and spans only interior voxels on the
/// two in-plane axes.
pub open spec fn quad_in_bounds(
    q: UnorientedQuad,
    face: OrientedBlockFace,
    min_b: [u32; 3],
    max_b: [u32; 3],
) -> bool {
    &&& q.width >= 1
    &&& q.height >= 1
    &&& min_b[face.n_axis as int] + 1 <= q.minimum[face.n_axis as int] <= max_b[face.n_axis as int]
        - 1
    &&& min_b[face.u_axis as int] + 1 <= q.minimum[face.u_axis as int]
    &&& q.minimum[face.u_axis as int] + q.width <= max_b[face.u_axis as int]
    &&& min_b[face.v_axis as int] + 1 <= q.minimum[face.v_axis as int]
    &&& q.minimum[face.v_axis as int] + q.height <= max_b[face.v_axis as int]
}

/// The grid coordinate, on axis `a`, of the voxel behind the cell `du`
/// columns and `dv` rows into quad `q`'s footprint.
pub open spec fn quad_cell_coord(
    face: OrientedBlockFace,
    q: UnorientedQuad,
    du: int,
    dv: int,
    a: int,
) -> int {
    q.minimum[a] + if a == face.u_axis {
        du
    } else if a == face.v_axis {
        dv
    } else {
        0int
    }
}

/// The flat-array offset of the voxel behind the cell `du` columns and `dv`
/// rows into quad `q`'s footprint, displaced `step` voxels along the face's
/// normal axis.
pub open spec fn quad_cell_offset(
    shape: Shape3,
    face: OrientedBlockFace,
    q: UnorientedQuad,
    du: int,
    dv: int,
    step: int,
) -> int {
    shape.linearize_spec(
        quad_cell_coord(face, q, du, dv, 0) + if face.n_axis == 0 {
            step
        } else {
            0int
        },
        quad_cell_coord(face, q, du, dv, 1) + if face.n_axis == 1 {
            step
        } else {
            0int
        },
        quad_cell_coord(face, q, du, dv, 2) + if face.n_axis == 2 {
            step
        } else {
            0int
        },
    )
}

/// Every cell of quad `q`'s footprint is a visible face whose voxel pair
/// carries the keys of the quad's anchor cell: the quad merges nothing but
/// actual, mutually mergeable faces.
pub open spec fn quad_faces_visible_matching<V: MergeVoxel>(
    voxels: Seq<V>,
    shape: Shape3,
    face: OrientedBlockFace,
    q: UnorientedQuad,
) -> bool {
    forall|du: int, dv: int|
        0 <= du < q.width && 0 <= dv < q.height ==> {
            let vox = voxels[#[trigger] quad_cell_offset(shape, face, q, du, dv, 0)];
            let nb = voxels[quad_cell_offset(shape, face, q, du, dv, face.n_sign as int)];
            &&& face_visible_spec(vox.spec_visibility(), nb.spec_visibility())
            &&& vox.spec_merge_value() == voxels[quad_cell_offset(
                shape,
                face,
                q,
                0,
                0,
                0,
            )].spec_merge_value()
            &&& nb.spec_merge_value_facing_neighbour() == voxels[quad_cell_offset(
                shape,
                face,
                q,
                0,
                0,
                face.n_sign as int,
            )].spec_merge_value_facing_neighbour()
        }
}

/// Two half-open integer ranges `[a, a+alen)` and `[b, b+blen)` intersect.
pub open spec fn ranges_overlap(a: int, alen: int, b: int, blen: int) -> bool {
    a < b + blen && b < a + alen
}

/// Two quads of one direction's group overlap: they lie on the same layer of
/// the normal axis and their footprints share a cell on both in-plane axes.
pub open spec fn quads_overlap(
    q1: UnorientedQuad,
    q2: UnorientedQuad,
    face: OrientedBlockFace,
) -> bool {
    &&& q1.minimum[face.n_axis as int] == q2.minimum[face.n_axis as int]
    &&& ranges_overlap(
        q1.minimum[face.u_axis as int] as int,
        q1.width as int,
        q2.minimum[face.u_axis as int] as int,
        q2.width as int,
    )
    &&& ranges_overlap(
        q1.minimum[face.v_axis as int] as int,
        q1.height as int,
        q2.minimum[face.v_axis as int] as int,
        q2.height as int,
    )
}

/// The quad emitted for a mask rectangle of layer `n`: anchored at the
/// rectangle's seed cell, with the rectangle's extents.
pub open spec fn quad_matches_rect(
    q: UnorientedQuad,
    r: MaskRect,
    face: OrientedBlockFace,
    min_b: [u32; 3],
    n: int,
) -> bool {
    &&& q.minimum[face.n_axis as int] == n
    &&& q.minimum[face.u_axis as int] == min_b[face.u_axis as int] + 1 + r.u
    &&& q.minimum[face.v_axis as int] == min_b[face.v_axis as int] + 1 + r.v
    &&& q.width == r.w
    &&& q.height == r.h
}

/// A quad emitted for a rectangle of a layer's mask merges only visible,
/// mutually mergeable faces: the mask's cells decode to exactly the voxel
/// pairs behind the quad's footprint.
proof fn lemma_quad_cells_match<V: MergeVoxel>(
    voxels: Seq<V>,
    shape: Shape3,
    face: OrientedBlockFace,
    min_b: [u32; 3],
    max_b: [u32; 3],
    n: int,
    r: MaskRect,
    q: UnorientedQuad,
)
    requires
        face.wf(),
        bounds_valid(shape, min_b, max_b),
        quad_matches_rect(q, r, face, min_b, n),
        rect_wf(r, mask_rows(face, min_b, max_b), mask_cols(face, min_b, max_b)),
        rect_covers_matching(
            mask_spec(voxels, shape, face, min_b, max_b, n),
            r,
            mask_cols(face, min_b, max_b),
        ),
    ensures
        quad_faces_visible_matching(voxels, shape, face, q),
{
    let msk = mask_spec(voxels, shape, face, min_b, max_b, n);
    let cols = mask_cols(face, min_b, max_b);
    let rows = mask_rows(face, min_b, max_b);
    assert(in_rect(r, r.v as int, r.u as int));
    lemma_grid_flat(rows, cols, r.v as int, r.u as int);
    assert(cell_at(msk, cols, r.v as int, r.u as int) == cell_spec(
        voxels,
        shape,
        face,
        min_b,
        n,
        r.v as int,
        r.u as int,
    ));
    assert(quad_cell_offset(shape, face, q, 0, 0, 0) == cell_offset(
        shape,
        face,
        min_b,
        n,
        r.v as int,
        r.u as int,
    ));
    assert(quad_cell_offset(shape, face, q, 0, 0, face.n_sign as int) == cell_offset(
        shape,
        face,
        min_b,
        n + face.n_sign,
        r.v as int,
        r.u as int,
    ));
    assert forall|du: int, dv: int|
        0 <= du < q.width && 0 <= dv < q.height implies {
        let vox = voxels[#[trigger] quad_cell_offset(shape, face, q, du, dv, 0)];
        let nb = voxels[quad_cell_offset(shape, face, q, du, dv, face.n_sign as int)];
        &&& face_visible_spec(vox.spec_visibility(), nb.spec_visibility())
        &&& vox.spec_merge_value() == voxels[quad_cell_offset(
            shape,
            face,
            q,
            0,
            0,
            0,
        )].spec_merge_value()
        &&& nb.spec_merge_value_facing_neighbour() == voxels[quad_cell_offset(
            shape,
            face,
            q,
            0,
            0,
            face.n_sign as int,
        )].spec_merge_value_facing_neighbour()
    } by {
        let jv = r.v + dv;
        let ju = r.u + du;
        assert(in_rect(r, jv, ju));
        lemma_grid_flat(rows, cols, jv, ju);
        assert(cell_at(msk, cols, jv, ju) == cell_spec(voxels, shape, face, min_b, n, jv, ju));
        assert(quad_cell_offset(shape, face, q, du, dv, 0) == cell_offset(
            shape,
            face,
            min_b,
            n,
            jv,
            ju,
        ));
        assert(quad_cell_offset(shape, face, q, du, dv, face.n_sign as int) == cell_offset(
            shape,
            face,
            min_b,
            n + face.n_sign,
            jv,
            ju,
        ));
    }
}

/// Quads emitted for disjoint rectangles of one layer do not overlap.
proof fn lemma_rects_to_quads_disjoint(
    q1: UnorientedQuad,
    q2: UnorientedQuad,
    r1: MaskRect,
    r2: MaskRect,
    face: OrientedBlockFace,
    min_b: [u32; 3],
    n: int,
)
    requires
        quad_matches_rect(q1, r1, face, min_b, n),
        quad_matches_rect(q2, r2, face, min_b, n),
        r1.w >= 1 && r1.h >= 1 && r2.w >= 1 && r2.h >= 1,
        rects_disjoint(r1, r2),
    ensures
        !quads_overlap(q1, q2, face),
{
    if quads_overlap(q1, q2, face) {
        let ju = if r1.u >= r2.u {
            r1.u as int
        } else {
            r2.u as int
        };
        let jv = if r1.v >= r2.v {
            r1.v as int
        } else {
            r2.v as int
        };
        assert(in_rect(r1, jv, ju));
        assert(in_rect(r2, jv, ju));
    }
}

/// An all-false sequence has no true entries.
proof fn lemma_count_all_false(s: Seq<bool>)
    requires
        forall|j: int| 0 <= j < s.len() ==> !s[j],
    ensures
        count_true(s) == 0,
    decreases s.len(),
{
    if s.len() > 0 {
        lemma_count_all_false(s.drop_last());
    }
}

/// Flat index of row `jv`, column `ju`, computed without overflow.
fn flat_index(jv: usize, ju: usize, rows: usize, cols: usize) -> (r: usize)
    requires
        jv < rows,
        ju < cols,
        rows * cols <= usize::MAX,
    ensures
        r == flat(cols as int, jv as int, ju as int),
        r < rows * cols,
{
    proof {
        lemma_grid_flat(rows as int, cols as int, jv as int, ju as int);
    }
    jv * cols + ju
}

/// Sweeps one `rows` by `cols` mask in row-major order, greedily growing each
/// unvisited active cell into a maximal rectangle: first along the columns
/// while keys match, then row by row, accepting a row only when every cell in
/// it is active, unvisited and key-matching.
///
/// The rectangles returned tile the active cells exactly: each is non-empty,
/// lies in the grid, covers only active cells carrying its seed's keys, no
/// two overlap, every active cell is covered, and their total area equals the
/// number of active cells.
pub fn sweep_mask(cells: &Vec<MaskCell>, rows: usize, cols: usize) -> (out: Vec<MaskRect>)
    requires
        rows >= 1,
        cols >= 1,
        cells@.len() == rows * cols,
    ensures
        forall|k: int| 0 <= k < out@.len() ==> rect_wf(#[trigger] out@[k], rows as int, cols as int),
        forall|k: int|
            0 <= k < out@.len() ==> rect_covers_matching(cells@, #[trigger] out@[k], cols as int),
        forall|k1: int, k2: int|
            0 <= k1 < k2 < out@.len() ==> rects_disjoint(#[trigger] out@[k1], #[trigger] out@[k2]),
        forall|jv: int, ju: int|
            0 <= jv < rows && 0 <= ju < cols && #[trigger] cell_at(
                cells@,
                cols as int,
                jv,
                ju,
            ).active ==> exists|k: int| 0 <= k < out@.len() && #[trigger] in_rect(out@[k], jv, ju),
        rects_area(out@) == count_active(cells@),
        out@.len() <= count_active(cells@),
{
    let n: usize = cells.len();
    let mut visited: Vec<bool> = Vec::new();
    let mut fill: usize = 0;
    while fill < n
        invariant
            fill <= n,
            visited@.len() == fill,
            forall|j: int| 0 <= j < fill ==> !visited@[j],
        decreases n - fill,
    {
        visited.push(false);
        fill = fill + 1;
    }
    let mut out: Vec<MaskRect> = Vec::new();
    proof {
        lemma_count_all_false(visited@);
        assert forall|jv: int, ju: int|
            0 <= jv < rows && 0 <= ju < cols implies !vis_at(visited@, cols as int, jv, ju) by {
            lemma_grid_flat(rows as int, cols as int, jv, ju);
        }
        assert(sweep_inv(cells@, visited@, out@, rows as int, cols as int));
    }
    let mut v: usize = 0;
    while v < rows
        invariant
            v <= rows,
            rows >= 1,
            cols >= 1,
            cells@.len() == rows * cols,
            rows * cols <= usize::MAX,
            sweep_inv(cells@, visited@, out@, rows as int, cols as int),
            scanned_inv(cells@, visited@, rows as int, cols as int, v as int, 0),
        decreases rows - v,
    {
        let mut u: usize = 0;
        proof {
            assert(scanned_inv(cells@, visited@, rows as int, cols as int, v as int, u as int));
        }
        while u < cols
            invariant
                u <= cols,
                v < rows,
                rows >= 1,
                cols >= 1,
                cells@.len() == rows * cols,
                rows * cols <= usize::MAX,
                sweep_inv(cells@, visited@, out@, rows as int, cols as int),
                scanned_inv(cells@, visited@, rows as int, cols as int, v as int, u as int),
            decreases cols - u,
        {
            let i = flat_index(v, u, rows, cols);
            let c = cells[i];
            if c.active && !visited[i] {
                let ghost vis0 = visited@;
                let ghost out0 = out@;
                // Grow the rectangle along the columns of the seed's row.
                let mut w: usize = 1;
                let mut grow_w: bool = true;
                while grow_w
                    invariant
                        1 <= w,
                        u + w <= cols,
                        u < cols,
                        v < rows,
                        cells@.len() == rows * cols,
                        rows * cols <= usize::MAX,
                        visited@ == vis0,
                        visited@.len() == rows * cols,
                        c == cell_at(cells@, cols as int, v as int, u as int),
                        forall|du: int|
                            0 <= du < w ==> {
                                &&& (#[trigger] cell_at(cells@, cols as int, v as int, u + du)).active
                                &&& cell_at(cells@, cols as int, v as int, u + du).key == c.key
                                &&& cell_at(cells@, cols as int, v as int, u + du).neighbour_key
                                    == c.neighbour_key
                                &&& !vis_at(vis0, cols as int, v as int, u + du)
                            },
                    decreases (cols - w) + (if grow_w { 1int } else { 0int }),
                {
                    if u + w < cols {
                        let j = flat_index(v, u + w, rows, cols);
                        let cj = cells[j];
                        if cj.active && !visited[j] && cj.key == c.key && cj.neighbour_key
                            == c.neighbour_key {
                            w = w + 1;
                        } else {
                            grow_w = false;
                        }
                    } else {
                        grow_w = false;
                    }
                }
                // Extend the rectangle downwards, one full row at a time.
                let mut h: usize = 1;
                let mut grow_h: bool = true;
                while grow_h
                    invariant
                        1 <= h,
                        v + h <= rows,
                        1 <= w,
                        u + w <= cols,
                        u < cols,
                        v < rows,
                        cells@.len() == rows * cols,
                        rows * cols <= usize::MAX,
                        visited@ == vis0,
                        visited@.len() == rows * cols,
                        c == cell_at(cells@, cols as int, v as int, u as int),
                        forall|dv: int, du: int|
                            0 <= dv < h && 0 <= du < w ==> {
                                &&& (#[trigger] cell_at(
                                    cells@,
                                    cols as int,
                                    v + dv,
                                    u + du,
                                )).active
                                &&& cell_at(cells@, cols as int, v + dv, u + du).key == c.key
                                &&& cell_at(cells@, cols as int, v + dv, u + du).neighbour_key
                                    == c.neighbour_key
                                &&& !vis_at(vis0, cols as int, v + dv, u + du)
                            },
                    decreases (rows - h) + (if grow_h { 1int } else { 0int }),
                {
                    if v + h < rows {
                        let mut cc: usize = 0;
                        let mut ok: bool = true;
                        while cc < w
                            invariant
                                cc <= w,
                                v + h < rows,
                                1 <= w,
                                u + w <= cols,
                                cells@.len() == rows * cols,
                                rows * cols <= usize::MAX,
                                visited@ == vis0,
                                visited@.len() == rows * cols,
                                ok ==> forall|du: int|
                                    0 <= du < cc ==> {
                                        &&& (#[trigger] cell_at(
                                            cells@,
                                            cols as int,
                                            (v + h) as int,
                                            u + du,
                                        )).active
                                        &&& cell_at(
                                            cells@,
                                            cols as int,
                                            (v + h) as int,
                                            u + du,
                                        ).key == c.key
                                        &&& cell_at(
                                            cells@,
                                            cols as int,
                                            (v + h) as int,
                                            u + du,
                                        ).neighbour_key == c.neighbour_key
                                        &&& !vis_at(vis0, cols as int, (v + h) as int, u + du)
                                    },
                            decreases w - cc,
                        {
                            let j = flat_index(v + h, u + cc, rows, cols);
                            let cj = cells[j];
                            if !(cj.active && !visited[j] && cj.key == c.key && cj.neighbour_key
                                == c.neighbour_key) {
                                ok = false;
                            }
                            cc = cc + 1;
                        }
                        if ok {
                            h = h + 1;
                        } else {
                            grow_h = false;
                        }
                    } else {
                        grow_h = false;
                    }
                }
                // Mark every cell of the rectangle visited.
                let ghost rect = (MaskRect { u, v, w, h });
                let mut dv: usize = 0;
                while dv < h
                    invariant
                        dv <= h,
                        1 <= h,
                        v + h <= rows,
                        1 <= w,
                        u + w <= cols,
                        u < cols,
                        v < rows,
                        cells@.len() == rows * cols,
                        rows * cols <= usize::MAX,
                        visited@.len() == rows * cols,
                        rect == (MaskRect { u, v, w, h }),
                        forall|dv0: int, du0: int|
                            0 <= dv0 < h && 0 <= du0 < w ==> {
                                &&& (#[trigger] cell_at(
                                    cells@,
                                    cols as int,
                                    v + dv0,
                                    u + du0,
                                )).active
                                &&& cell_at(cells@, cols as int, v + dv0, u + du0).key == c.key
                                &&& cell_at(cells@, cols as int, v + dv0, u + du0).neighbour_key
                                    == c.neighbour_key
                                &&& !vis_at(vis0, cols as int, v + dv0, u + du0)
                            },
                        forall|jv: int, ju: int|
                            0 <= jv < rows && 0 <= ju < cols ==> #[trigger] vis_at(
                                visited@,
                                cols as int,
                                jv,
                                ju,
                            ) == (vis_at(vis0, cols as int, jv, ju) || (v <= jv < v + dv && u <= ju
                                < u + w)),
                        count_true(visited@) == count_true(vis0) + dv * w,
                    decreases h - dv,
                {
                    let mut du: usize = 0;
                    while du < w
                        invariant
                            du <= w,
                            dv < h,
                            v + h <= rows,
                            1 <= w,
                            u + w <= cols,
                            u < cols,
                            v < rows,
                            cells@.len() == rows * cols,
                            rows * cols <= usize::MAX,
                            visited@.len() == rows * cols,
                            forall|dv0: int, du0: int|
                                0 <= dv0 < h && 0 <= du0 < w ==> {
                                    &&& (#[trigger] cell_at(
                                        cells@,
                                        cols as int,
                                        v + dv0,
                                        u + du0,
                                    )).active
                                    &&& !vis_at(vis0, cols as int, v + dv0, u + du0)
                                },
                            forall|jv: int, ju: int|
                                0 <= jv < rows && 0 <= ju < cols ==> #[trigger] vis_at(
                                    visited@,
                                    cols as int,
                                    jv,
                                    ju,
                                ) == (vis_at(vis0, cols as int, jv, ju) || (v <= jv < v + dv && u
                                    <= ju < u + w) || (jv == v + dv && u <= ju < u + du)),
                            count_true(visited@) == count_true(vis0) + dv * w + du,
                        decreases w - du,
                    {
                        let j = flat_index(v + dv, u + du, rows, cols);
                        proof {
                            lemma_grid_flat(
                                rows as int,
                                cols as int,
                                (v + dv) as int,
                                (u + du) as int,
                            );
                            assert(cell_at(cells@, cols as int, v + dv, u + du).active);
                            assert(!vis_at(vis0, cols as int, (v + dv) as int, (u + du) as int));
                            assert(!vis_at(visited@, cols as int, (v + dv) as int, (u + du) as int));
                            assert(!visited@[j as int]);
                            lemma_count_true_update(visited@, j as int);
                        }
                        let ghost visbefore = visited@;
                        visited[j] = true;
                        proof {
                            assert(visited@ == visbefore.update(j as int, true));
                            assert forall|jv: int, ju: int|
                                0 <= jv < rows && 0 <= ju < cols implies #[trigger] vis_at(
                                visited@,
                                cols as int,
                                jv,
                                ju,
                            ) == (vis_at(vis0, cols as int, jv, ju) || (v <= jv < v + dv && u <= ju
                                < u + w) || (jv == v + dv && u <= ju < u + du + 1)) by {
                                lemma_grid_flat(rows as int, cols as int, jv, ju);
                                assert(vis_at(visbefore, cols as int, jv, ju) == (vis_at(
                                    vis0,
                                    cols as int,
                                    jv,
                                    ju,
                                ) || (v <= jv < v + dv && u <= ju < u + w) || (jv == v + dv && u
                                    <= ju < u + du)));
                                if flat(cols as int, jv, ju) == j {
                                    assert(jv == v + dv && ju == u + du);
                                } else {
                                    assert(vis_at(visited@, cols as int, jv, ju) == vis_at(
                                        visbefore,
                                        cols as int,
                                        jv,
                                        ju,
                                    ));
                                }
                            }
                        }
                        du = du + 1;
                    }
                    dv = dv + 1;
                    proof {
                        assert(dv * w == (dv - 1) * w + w) by (nonlinear_arith);
                        assert forall|jv: int, ju: int|
                            0 <= jv < rows && 0 <= ju < cols implies #[trigger] vis_at(
                            visited@,
                            cols as int,
                            jv,
                            ju,
                        ) == (vis_at(vis0, cols as int, jv, ju) || (v <= jv < v + dv && u <= ju < u
                            + w)) by {}
                    }
                }
                // Emit one quad-rectangle for the merged run.
                let rectv = MaskRect { u, v, w, h };
                out.push(rectv);
                proof {
                    assert(out@ == out0.push(rectv));
                    assert(out@.drop_last() =~= out0);
                    assert(rects_area(out@) == rects_area(out0) + w * h);
                    assert(count_true(visited@) == count_true(vis0) + h * w);
                    assert(h * w == w * h) by (nonlinear_arith);
                    // the new rectangle covers only matching, formerly unvisited cells
                    assert forall|jv: int, ju: int| #[trigger]
                        in_rect(rectv, jv, ju) implies {
                        &&& cell_at(cells@, cols as int, jv, ju).active
                        &&& cell_at(cells@, cols as int, jv, ju).key == cell_at(
                            cells@,
                            cols as int,
                            v as int,
                            u as int,
                        ).key
                        &&& cell_at(cells@, cols as int, jv, ju).neighbour_key == cell_at(
                            cells@,
                            cols as int,
                            v as int,
                            u as int,
                        ).neighbour_key
                        &&& !vis_at(vis0, cols as int, jv, ju)
                        &&& vis_at(visited@, cols as int, jv, ju)
                    } by {
                        let dv0 = jv - v;
                        let du0 = ju - u;
                        assert(0 <= dv0 < h && 0 <= du0 < w);
                        assert(cell_at(cells@, cols as int, v + dv0, u + du0).active);
                    }
                    // rect_wf and covers for every emitted rectangle
                    assert forall|k: int| 0 <= k < out@.len() implies rect_wf(
                        #[trigger] out@[k],
                        rows as int,
                        cols as int,
                    ) && rect_covers_matching(cells@, out@[k], cols as int) by {
                        if k < out0.len() {
                            assert(out@[k] == out0[k]);
                        } else {
                            assert(out@[k] == rectv);
                        }
                    }
                    // old rectangles' cells stay visited; new rectangle's cells now visited
                    assert forall|k: int, jv: int, ju: int|
                        0 <= k < out@.len() && #[trigger] in_rect(out@[k], jv, ju) implies vis_at(
                        visited@,
                        cols as int,
                        jv,
                        ju,
                    ) by {
                        if k < out0.len() {
                            assert(out@[k] == out0[k]);
                            assert(vis_at(vis0, cols as int, jv, ju));
                        } else {
                            assert(out@[k] == rectv);
                        }
                    }
                    // every visited cell lies in some rectangle
                    assert forall|jv: int, ju: int|
                        0 <= jv < rows && 0 <= ju < cols && #[trigger] vis_at(
                        visited@,
                        cols as int,
                        jv,
                        ju,
                    ) implies exists|k: int|
                        0 <= k < out@.len() && #[trigger] in_rect(out@[k], jv, ju) by {
                        if vis_at(vis0, cols as int, jv, ju) {
                            let k0 = choose|k: int|
                                0 <= k < out0.len() && #[trigger] in_rect(out0[k], jv, ju);
                            assert(out@[k0] == out0[k0]);
                            assert(in_rect(out@[k0], jv, ju));
                        } else {
                            assert(in_rect(rectv, jv, ju));
                            assert(in_rect(out@[out0.len() as int], jv, ju));
                        }
                    }
                    // disjointness: the new rectangle was unvisited, old ones visited
                    assert forall|k1: int, k2: int|
                        0 <= k1 < k2 < out@.len() implies rects_disjoint(
                        #[trigger] out@[k1],
                        #[trigger] out@[k2],
                    ) by {
                        if k2 < out0.len() {
                            assert(out@[k1] == out0[k1] && out@[k2] == out0[k2]);
                        } else {
                            assert(out@[k2] == rectv);
                            assert(out@[k1] == out0[k1]);
                            assert forall|jv: int, ju: int|
                                !(#[trigger] in_rect(out@[k1], jv, ju) && #[trigger] in_rect(
                                    out@[k2],
                                    jv,
                                    ju,
                                )) by {
                                if in_rect(out@[k1], jv, ju) && in_rect(out@[k2], jv, ju) {
                                    assert(vis_at(vis0, cols as int, jv, ju));
                                    assert(!vis_at(vis0, cols as int, jv, ju));
                                }
                            }
                        }
                    }
                    // visited cells are active
                    assert forall|jv: int, ju: int|
                        0 <= jv < rows && 0 <= ju < cols && #[trigger] vis_at(
                        visited@,
                        cols as int,
                        jv,
                        ju,
                    ) implies cell_at(cells@, cols as int, jv, ju).active by {
                        if !vis_at(vis0, cols as int, jv, ju) {
                            assert(in_rect(rectv, jv, ju));
                        }
                    }
                    assert(sweep_inv(cells@, visited@, out@, rows as int, cols as int));
                    // the seed cell itself is now visited
                    assert(in_rect(rectv, v as int, u as int));
                    assert(vis_at(visited@, cols as int, v as int, u as int));
                    assert forall|jv: int, ju: int|
                        0 <= jv < rows && 0 <= ju < cols && (jv < v || (jv == v && ju < u + 1))
                            && #[trigger] cell_at(cells@, cols as int, jv, ju).active implies vis_at(
                        visited@,
                        cols as int,
                        jv,
                        ju,
                    ) by {
                        if jv < v || (jv == v && ju < u) {
                            assert(vis_at(vis0, cols as int, jv, ju));
                        }
                    }
                }
            } else {
                proof {
                    assert forall|jv: int, ju: int|
                        0 <= jv < rows && 0 <= ju < cols && (jv < v || (jv == v && ju < u + 1))
                            && #[trigger] cell_at(cells@, cols as int, jv, ju).active implies vis_at(
                        visited@,
                        cols as int,
                        jv,
                        ju,
                    ) by {
                        if jv == v && ju == u {
                            assert(cell_at(cells@, cols as int, v as int, u as int) == cells@[i as int]);
                        }
                    }
                }
            }
            u = u + 1;
        }
        v = v + 1;
        proof {
            assert forall|jv: int, ju: int|
                0 <= jv < rows && 0 <= ju < cols && (jv < v || (jv == v && ju < 0))
                    && #[trigger] cell_at(cells@, cols as int, jv, ju).active implies vis_at(
                visited@,
                cols as int,
                jv,
                ju,
            ) by {}
        }
    }
    proof {
        assert forall|j: int| 0 <= j < cells@.len() implies (visited@[j] <==> cells@[j].active) by {
            lemma_grid_index(rows as int, cols as int, j);
            let jv = j / (cols as int);
            let ju = j % (cols as int);
            assert(vis_at(visited@, cols as int, jv, ju) == visited@[j]);
            assert(cell_at(cells@, cols as int, jv, ju) == cells@[j]);
            if cells@[j].active {
                assert(cell_at(cells@, cols as int, jv, ju).active);
                assert(vis_at(visited@, cols as int, jv, ju));
            }
        }
        lemma_count_matching(cells@, visited@);
        assert forall|k: int| 0 <= k < out@.len() implies #[trigger] out@[k].w >= 1
            && out@[k].h >= 1 by {
            assert(rect_wf(out@[k], rows as int, cols as int));
        }
        lemma_rects_area_ge_len(out@);
        assert forall|jv: int, ju: int|
            0 <= jv < rows && 0 <= ju < cols && #[trigger] cell_at(
                cells@,
                cols as int,
                jv,
                ju,
            ).active implies exists|k: int|
            0 <= k < out@.len() && #[trigger] in_rect(out@[k], jv, ju) by {
            assert(vis_at(visited@, cols as int, jv, ju));
        }
    }
    out
}

/// No more cells are active than there are cells.
proof fn lemma_count_active_le_len(cells: Seq<MaskCell>)
    ensures
        0 <= count_active(cells) <= cells.len(),
    decreases cells.len(),
{
    if cells.len() > 0 {
        lemma_count_active_le_len(cells.drop_last());
    }
}

/// Each layer contributes at most one face per interior cell of its
/// cross-section.
proof fn lemma_faces_to_layer_bound<V: MergeVoxel>(
    voxels: Seq<V>,
    shape: Shape3,
    face: OrientedBlockFace,
    min_b: [u32; 3],
    max_b: [u32; 3],
    n: int,
)
    requires
        face.wf(),
        bounds_valid(shape, min_b, max_b),
        min_b[face.n_axis as int] <= n,
    ensures
        0 <= faces_to_layer(voxels, shape, face, min_b, max_b, n) <= (n - min_b[face.n_axis as int])
            * (mask_rows(face, min_b, max_b) * mask_cols(face, min_b, max_b)),
    decreases n - min_b[face.n_axis as int],
{
    assert(min_b[face.u_axis as int] + 2 <= max_b[face.u_axis as int]);
    assert(min_b[face.v_axis as int] + 2 <= max_b[face.v_axis as int]);
    let area = mask_rows(face, min_b, max_b) * mask_cols(face, min_b, max_b);
    assert(mask_rows(face, min_b, max_b) * mask_cols(face, min_b, max_b) >= 0) by (nonlinear_arith)
        requires mask_rows(face, min_b, max_b) >= 0 && mask_cols(face, min_b, max_b) >= 0;
    if n <= min_b[face.n_axis as int] {
        assert((n - min_b[face.n_axis as int]) * area == 0) by (nonlinear_arith)
            requires n - min_b[face.n_axis as int] == 0;
    } else {
        lemma_faces_to_layer_bound(voxels, shape, face, min_b, max_b, n - 1);
        lemma_count_active_le_len(mask_spec(voxels, shape, face, min_b, max_b, n));
        assert((n - min_b[face.n_axis as int]) * area == (n - 1 - min_b[face.n_axis as int]) * area
            + area) by (nonlinear_arith);
    }
}

/// The naive visible-face count of one direction never exceeds the volume of
/// the shape: each interior voxel of each layer contributes at most one face.
pub proof fn lemma_direction_faces_le_volume<V: MergeVoxel>(
    voxels: Seq<V>,
    shape: Shape3,
    face: OrientedBlockFace,
    min_b: [u32; 3],
    max_b: [u32; 3],
)
    requires
        shape.wf(),
        face.wf(),
        bounds_valid(shape, min_b, max_b),
    ensures
        0 <= direction_faces(voxels, shape, face, min_b, max_b) <= shape.size_spec(),
{
    let rows = mask_rows(face, min_b, max_b);
    let cols = mask_cols(face, min_b, max_b);
    let layers = max_b[face.n_axis as int] - 1 - min_b[face.n_axis as int];
    lemma_faces_to_layer_bound(
        voxels,
        shape,
        face,
        min_b,
        max_b,
        max_b[face.n_axis as int] - 1,
    );
    let e0 = shape.extents()[0] as int;
    let e1 = shape.extents()[1] as int;
    let e2 = shape.extents()[2] as int;
    let en = shape.extents()[face.n_axis as int] as int;
    let eu = shape.extents()[face.u_axis as int] as int;
    let ev = shape.extents()[face.v_axis as int] as int;
    assert(layers * (rows * cols) <= en * (ev * eu)) by (nonlinear_arith)
        requires
            0 <= layers <= en,
            0 <= rows < ev,
            0 <= cols < eu,
            en >= 1 && eu >= 1 && ev >= 1;
    assert(en * (ev * eu) <= e0 * e1 * e2) by (nonlinear_arith)
        requires
            e0 >= 1 && e1 >= 1 && e2 >= 1,
            (en == e0 && eu == e1 && ev == e2) || (en == e0 && eu == e2 && ev == e1) || (en == e1
                && eu == e0 && ev == e2) || (en == e1 && eu == e2 && ev == e0) || (en == e2 && eu
                == e0 && ev == e1) || (en == e2 && eu == e1 && ev == e0);
}

/// The total area of the quads that the first `d` groups gained over their
/// old lengths.
pub open spec fn groups_added_area(
    pre: Seq<Seq<UnorientedQuad>>,
    post: Seq<Seq<UnorientedQuad>>,
    d: int,
) -> int
    decreases d,
{
    if d <= 0 {
        0
    } else {
        groups_added_area(pre, post, d - 1) + quads_area(post[d - 1].skip(pre[d - 1].len() as int))
    }
}

/// The number of quads that the first `d` groups gained over their old
/// lengths.
pub open spec fn groups_added_count(
    pre: Seq<Seq<UnorientedQuad>>,
    post: Seq<Seq<UnorientedQuad>>,
    d: int,
) -> int
    decreases d,
{
    if d <= 0 {
        0
    } else {
        groups_added_count(pre, post, d - 1) + (post[d - 1].len() - pre[d - 1].len())
    }
}

/// The naive visible-face count summed over the first `d` face directions.
pub open spec fn total_naive_faces<V: MergeVoxel>(
    voxels: Seq<V>,
    shape: Shape3,
    faces: Seq<OrientedBlockFace>,
    min_b: [u32; 3],
    max_b: [u32; 3],
    d: int,
) -> int
    decreases d,
{
    if d <= 0 {
        0
    } else {
        total_naive_faces(voxels, shape, faces, min_b, max_b, d - 1) + direction_faces(
            voxels,
            shape,
            faces[d - 1],
            min_b,
            max_b,
        )
    }
}

/// Coverage and count monotonicity for a whole meshing run. From what
/// `greedy_quads` ensures of each direction — the group's added area equals
/// the direction's naive visible-face count, and the added quads are never
/// more numerous than those faces — it follows for the six groups together
/// that the added area equals the exhaustive per-voxel-face total (no gaps,
/// no double coverage) and that the total number of added quads never
/// exceeds it.
pub proof fn lemma_run_totals<V: MergeVoxel>(
    pre: Seq<Seq<UnorientedQuad>>,
    post: Seq<Seq<UnorientedQuad>>,
    voxels: Seq<V>,
    shape: Shape3,
    faces: Seq<OrientedBlockFace>,
    min_b: [u32; 3],
    max_b: [u32; 3],
    d: int,
)
    requires
        0 <= d <= 6,
        pre.len() == 6,
        post.len() == 6,
        faces.len() == 6,
        forall|dd: int| 0 <= dd < 6 ==> #[trigger] post[dd].len() >= pre[dd].len(),
        forall|dd: int|
            0 <= dd < 6 ==> quads_area(#[trigger] post[dd].skip(pre[dd].len() as int))
                == direction_faces(voxels, shape, faces[dd], min_b, max_b),
        forall|dd: int|
            0 <= dd < 6 ==> #[trigger] post[dd].len() - pre[dd].len() <= direction_faces(
                voxels,
                shape,
                faces[dd],
                min_b,
                max_b,
            ),
    ensures
        groups_added_area(pre, post, d) == total_naive_faces(voxels, shape, faces, min_b, max_b, d),
        groups_added_count(pre, post, d) <= total_naive_faces(
            voxels,
            shape,
            faces,
            min_b,
            max_b,
            d,
        ),
    decreases d,
{
    if d > 0 {
        lemma_run_totals(pre, post, voxels, shape, faces, min_b, max_b, d - 1);
    }
}

/// Decides whether the requested bounds are valid for the shape.
fn check_bounds(shape: &Shape3, min_b: &[u32; 3], max_b: &[u32; 3]) -> (r: bool)
    ensures
        r == bounds_valid(*shape, *min_b, *max_b),
{
    let ok0 = min_b[0] < max_b[0] && max_b[0] - min_b[0] >= 2 && max_b[0] < shape.extent(0);
    let ok1 = min_b[1] < max_b[1] && max_b[1] - min_b[1] >= 2 && max_b[1] < shape.extent(1);
    let ok2 = min_b[2] < max_b[2] && max_b[2] - min_b[2] >= 2 && max_b[2] < shape.extent(2);
    let r = ok0 && ok1 && ok2;
    proof {
        if r {
            assert forall|a: int|
                0 <= a < 3 implies min_b@[a] + 2 <= #[trigger] max_b@[a] && max_b@[a]
                < shape.extents()[a] by {
                if a == 0 {
                } else if a == 1 {
                } else {
                }
            }
        }
    }
    r
}

/// The interior cross-section of a well-formed shape fits in the flat array.
proof fn lemma_plane_bound(shape: Shape3, face: OrientedBlockFace)
    requires
        shape.wf(),
        face.wf(),
    ensures
        shape.extents()[face.u_axis as int] * shape.extents()[face.v_axis as int]
            <= shape.size_spec(),
{
    let e0 = shape.extents()[0] as int;
    let e1 = shape.extents()[1] as int;
    let e2 = shape.extents()[2] as int;
    let eu = shape.extents()[face.u_axis as int] as int;
    let ev = shape.extents()[face.v_axis as int] as int;
    assert(eu * ev <= e0 * e1 * e2) by (nonlinear_arith)
        requires
            e0 >= 1 && e1 >= 1 && e2 >= 1,
            (eu == e0 && ev == e1) || (eu == e0 && ev == e2) || (eu == e1 && ev == e0) || (eu == e1
                && ev == e2) || (eu == e2 && ev == e0) || (eu == e2 && ev == e1);
}

/// The grid coordinate, on axis `a`, of the voxel behind mask cell
/// (`jv`, `ju`) at layer `n`.
fn coord_exec(
    face: &OrientedBlockFace,
    min_b: &[u32; 3],
    n: u32,
    jv: u32,
    ju: u32,
    a: usize,
) -> (r: u32)
    requires
        a < 3,
        face.wf(),
        min_b@[face.u_axis as int] + 1 + ju <= u32::MAX,
        min_b@[face.v_axis as int] + 1 + jv <= u32::MAX,
    ensures
        r == coord_spec(*face, *min_b, n as int, jv as int, ju as int, a as int),
{
    if a == face.n_axis {
        n
    } else if a == face.u_axis {
        min_b[a] + 1 + ju
    } else {
        min_b[a] + 1 + jv
    }
}

/// Builds the cross-section mask of layer `n` for one face direction: one
/// cell per interior voxel of the layer, active when the face straddling it
/// is visible, annotated with the merge keys of its voxel pair.
fn build_mask<V: MergeVoxel>(
    voxels: &Vec<V>,
    shape: &Shape3,
    face: &OrientedBlockFace,
    min_b: &[u32; 3],
    max_b: &[u32; 3],
    n: u32,
) -> (m: Vec<MaskCell>)
    requires
        shape.wf(),
        face.wf(),
        bounds_valid(*shape, *min_b, *max_b),
        voxels@.len() == shape.size_spec(),
        min_b@[face.n_axis as int] + 1 <= n <= max_b@[face.n_axis as int] - 1,
    ensures
        m@ == mask_spec(voxels@, *shape, *face, *min_b, *max_b, n as int),
        m@.len() == mask_rows(*face, *min_b, *max_b) * mask_cols(*face, *min_b, *max_b),
{
    let cols32: u32 = max_b[face.u_axis] - min_b[face.u_axis] - 1;
    let rows32: u32 = max_b[face.v_axis] - min_b[face.v_axis] - 1;
    let cols: usize = cols32 as usize;
    let rows: usize = rows32 as usize;
    proof {
        lemma_plane_bound(*shape, *face);
        let ghost eu = shape.extents()[face.u_axis as int];
        let ghost ev = shape.extents()[face.v_axis as int];
        assert(rows * cols <= ev * eu) by (nonlinear_arith)
            requires
                0 <= rows < ev,
                0 <= cols < eu;
        assert(ev * eu == eu * ev) by (nonlinear_arith);
    }
    let ghost msk = mask_spec(voxels@, *shape, *face, *min_b, *max_b, n as int);
    let mut m: Vec<MaskCell> = Vec::new();
    let mut jv: usize = 0;
    while jv < rows
        invariant
            jv <= rows,
            rows == mask_rows(*face, *min_b, *max_b),
            cols == mask_cols(*face, *min_b, *max_b),
            cols >= 1,
            rows * cols <= usize::MAX,
            shape.wf(),
            face.wf(),
            bounds_valid(*shape, *min_b, *max_b),
            voxels@.len() == shape.size_spec(),
            min_b@[face.n_axis as int] + 1 <= n <= max_b@[face.n_axis as int] - 1,
            msk == mask_spec(voxels@, *shape, *face, *min_b, *max_b, n as int),
            m@.len() == jv * cols,
            forall|j: int| 0 <= j < m@.len() ==> m@[j] == msk[j],
        decreases rows - jv,
    {
        let mut ju: usize = 0;
        while ju < cols
            invariant
                ju <= cols,
                jv < rows,
                rows == mask_rows(*face, *min_b, *max_b),
                cols == mask_cols(*face, *min_b, *max_b),
                cols >= 1,
                rows * cols <= usize::MAX,
                shape.wf(),
                face.wf(),
                bounds_valid(*shape, *min_b, *max_b),
                voxels@.len() == shape.size_spec(),
                min_b@[face.n_axis as int] + 1 <= n <= max_b@[face.n_axis as int] - 1,
                msk == mask_spec(voxels@, *shape, *face, *min_b, *max_b, n as int),
                m@.len() == jv * cols + ju,
                forall|j: int| 0 <= j < m@.len() ==> m@[j] == msk[j],
            decreases cols - ju,
        {
            proof {
                lemma_grid_flat(rows as int, cols as int, jv as int, ju as int);
            }
            let c0 = coord_exec(face, min_b, n, jv as u32, ju as u32, 0);
            let c1 = coord_exec(face, min_b, n, jv as u32, ju as u32, 1);
            let c2 = coord_exec(face, min_b, n, jv as u32, ju as u32, 2);
            let nn: u32 = if face.n_sign == 1 {
                n + 1
            } else {
                n - 1
            };
            let d0 = coord_exec(face, min_b, nn, jv as u32, ju as u32, 0);
            let d1 = coord_exec(face, min_b, nn, jv as u32, ju as u32, 1);
            let d2 = coord_exec(face, min_b, nn, jv as u32, ju as u32, 2);
            proof {
                assert forall|a: int| 0 <= a < 3 implies coord_spec(
                    *face,
                    *min_b,
                    n as int,
                    jv as int,
                    ju as int,
                    a,
                ) < shape.extents()[a] && coord_spec(
                    *face,
                    *min_b,
                    nn as int,
                    jv as int,
                    ju as int,
                    a,
                ) < shape.extents()[a] by {
                    if a == face.n_axis {
                    } else if a == face.u_axis {
                    } else {
                    }
                }
            }
            let idx = shape.linearize(c0, c1, c2);
            let nidx = shape.linearize(d0, d1, d2);
            let vox = &voxels[idx as usize];
            let nb = &voxels[nidx as usize];
            let cell = MaskCell {
                active: face_needs_mesh(vox, nb),
                key: vox.merge_value(),
                neighbour_key: nb.merge_value_facing_neighbour(),
            };
            proof {
                assert(nn == n + face.n_sign);
                assert(cell == cell_spec(
                    voxels@,
                    *shape,
                    *face,
                    *min_b,
                    n as int,
                    jv as int,
                    ju as int,
                ));
                assert(msk[flat(cols as int, jv as int, ju as int)] == cell_spec(
                    voxels@,
                    *shape,
                    *face,
                    *min_b,
                    n as int,
                    jv as int,
                    ju as int,
                ));
            }
            m.push(cell);
            ju = ju + 1;
        }
        jv = jv + 1;
        proof {
            assert(jv * cols == (jv - 1) * cols + cols) by (nonlinear_arith);
        }
    }
    proof {
        assert(m@ =~= msk);
    }
    m
}

/// Meshes every interior layer of one face direction, appending the merged
/// quads to group `d` of the buffer. The area of the appended quads equals
/// the direction's naive visible-face count, and their number never exceeds
/// it.
fn mesh_direction<V: MergeVoxel>(
    voxels: &Vec<V>,
    shape: &Shape3,
    face: &OrientedBlockFace,
    min_b: &[u32; 3],
    max_b: &[u32; 3],
    d: usize,
    output: &mut QuadBuffer,
)
    requires
        shape.wf(),
        face.wf(),
        bounds_valid(*shape, *min_b, *max_b),
        voxels@.len() == shape.size_spec(),
        d < 6,
        old(output)@.len() == 6,
    ensures
        final(output)@.len() == 6,
        forall|dd: int| 0 <= dd < 6 && dd != d ==> final(output)@[dd] == old(output)@[dd],
        final(output)@[d as int].len() >= old(output)@[d as int].len(),
        final(output)@[d as int].subrange(0, old(output)@[d as int].len() as int) == old(
            output,
        )@[d as int],
        quads_area(final(output)@[d as int].skip(old(output)@[d as int].len() as int))
            == direction_faces(voxels@, *shape, *face, *min_b, *max_b),
        final(output)@[d as int].len() - old(output)@[d as int].len() <= direction_faces(
            voxels@,
            *shape,
            *face,
            *min_b,
            *max_b,
        ),
        forall|k: int|
            old(output)@[d as int].len() <= k < final(output)@[d as int].len()
                ==> quad_in_bounds(#[trigger] final(output)@[d as int][k], *face, *min_b, *max_b),
        forall|k1: int, k2: int|
            old(output)@[d as int].len() <= k1 < k2 < final(output)@[d as int].len()
                ==> !quads_overlap(
                #[trigger] final(output)@[d as int][k1],
                #[trigger] final(output)@[d as int][k2],
                *face,
            ),
        forall|k: int|
            old(output)@[d as int].len() <= k < final(output)@[d as int].len()
                ==> quad_faces_visible_matching(
                voxels@,
                *shape,
                *face,
                #[trigger] final(output)@[d as int][k],
            ),
{
    let ghost base = old(output)@[d as int];
    let ghost baselen = old(output)@[d as int].len() as int;
    proof {
        assert(min_b@[face.n_axis as int] + 2 <= max_b@[face.n_axis as int]);
    }
    let n0: u32 = min_b[face.n_axis] + 1;
    let nend: u32 = max_b[face.n_axis];
    let mut nl: u32 = n0;
    while nl < nend
        invariant
            shape.wf(),
            face.wf(),
            bounds_valid(*shape, *min_b, *max_b),
            voxels@.len() == shape.size_spec(),
            d < 6,
            n0 == min_b@[face.n_axis as int] + 1,
            nend == max_b@[face.n_axis as int],
            n0 <= nl <= nend,
            output@.len() == 6,
            forall|dd: int| 0 <= dd < 6 && dd != d ==> output@[dd] == old(output)@[dd],
            base == old(output)@[d as int],
            baselen == base.len() as int,
            output@[d as int].len() >= baselen,
            output@[d as int].subrange(0, baselen) == base,
            quads_area(output@[d as int].skip(baselen)) == faces_to_layer(
                voxels@,
                *shape,
                *face,
                *min_b,
                *max_b,
                nl - 1,
            ),
            output@[d as int].len() - baselen <= faces_to_layer(
                voxels@,
                *shape,
                *face,
                *min_b,
                *max_b,
                nl - 1,
            ),
            forall|k: int|
                baselen <= k < output@[d as int].len() ==> quad_in_bounds(
                    #[trigger] output@[d as int][k],
                    *face,
                    *min_b,
                    *max_b,
                ),
            forall|k: int|
                baselen <= k < output@[d as int].len() ==> (#[trigger] output@[d as int][k]).minimum[face.n_axis as int] < nl,
            forall|k1: int, k2: int|
                baselen <= k1 < k2 < output@[d as int].len() ==> !quads_overlap(
                    #[trigger] output@[d as int][k1],
                    #[trigger] output@[d as int][k2],
                    *face,
                ),
            forall|k: int|
                baselen <= k < output@[d as int].len() ==> quad_faces_visible_matching(
                    voxels@,
                    *shape,
                    *face,
                    #[trigger] output@[d as int][k],
                ),
        decreases nend - nl,
    {
        let mask = build_mask(voxels, shape, face, min_b, max_b, nl);
        let cols32: u32 = max_b[face.u_axis] - min_b[face.u_axis] - 1;
        let rows32: u32 = max_b[face.v_axis] - min_b[face.v_axis] - 1;
        let cols: usize = cols32 as usize;
        let rows: usize = rows32 as usize;
        let ghost msk = mask@;
        let rects = sweep_mask(&mask, rows, cols);
        let ghost prem = output@[d as int];
        let mut k: usize = 0;
        while k < rects.len()
            invariant
                k <= rects@.len(),
                shape.wf(),
                face.wf(),
                bounds_valid(*shape, *min_b, *max_b),
                d < 6,
                n0 == min_b@[face.n_axis as int] + 1,
                nend == max_b@[face.n_axis as int],
                n0 <= nl < nend,
                cols == mask_cols(*face, *min_b, *max_b),
                rows == mask_rows(*face, *min_b, *max_b),
                forall|kk: int|
                    0 <= kk < rects@.len() ==> rect_wf(
                        #[trigger] rects@[kk],
                        rows as int,
                        cols as int,
                    ),
                rects_area(rects@) == count_active(msk),
                rects@.len() <= count_active(msk),
                msk == mask_spec(voxels@, *shape, *face, *min_b, *max_b, nl as int),
                output@.len() == 6,
                forall|dd: int| 0 <= dd < 6 && dd != d ==> output@[dd] == old(output)@[dd],
                base == old(output)@[d as int],
                baselen == base.len() as int,
                prem.len() >= baselen,
                prem.subrange(0, baselen) == base,
                quads_area(prem.skip(baselen)) == faces_to_layer(
                    voxels@,
                    *shape,
                    *face,
                    *min_b,
                    *max_b,
                    nl - 1,
                ),
                prem.len() - baselen <= faces_to_layer(
                    voxels@,
                    *shape,
                    *face,
                    *min_b,
                    *max_b,
                    nl - 1,
                ),
                output@[d as int].len() == prem.len() + k,
                output@[d as int].subrange(0, prem.len() as int) == prem,
                quads_area(output@[d as int].skip(baselen)) == quads_area(prem.skip(baselen))
                    + rects_area(rects@.subrange(0, k as int)),
                forall|kk: int|
                    baselen <= kk < prem.len() ==> quad_in_bounds(
                        #[trigger] output@[d as int][kk],
                        *face,
                        *min_b,
                        *max_b,
                    ),
                forall|kk: int|
                    prem.len() <= kk < output@[d as int].len() ==> quad_in_bounds(
                        #[trigger] output@[d as int][kk],
                        *face,
                        *min_b,
                        *max_b,
                    ),
                forall|kk1: int, kk2: int|
                    0 <= kk1 < kk2 < rects@.len() ==> rects_disjoint(
                        #[trigger] rects@[kk1],
                        #[trigger] rects@[kk2],
                    ),
                forall|kk: int|
                    0 <= kk < rects@.len() ==> rect_covers_matching(
                        msk,
                        #[trigger] rects@[kk],
                        cols as int,
                    ),
                forall|kk: int|
                    baselen <= kk < prem.len() ==> quad_faces_visible_matching(
                        voxels@,
                        *shape,
                        *face,
                        #[trigger] prem[kk],
                    ),
                forall|kk: int|
                    prem.len() <= kk < output@[d as int].len() ==> quad_faces_visible_matching(
                        voxels@,
                        *shape,
                        *face,
                        #[trigger] output@[d as int][kk],
                    ),
                forall|kk: int|
                    baselen <= kk < prem.len() ==> (#[trigger] prem[kk]).minimum[face.n_axis as int] < nl,
                forall|kk: int|
                    prem.len() <= kk < output@[d as int].len() ==> quad_matches_rect(
                        #[trigger] output@[d as int][kk],
                        rects@[kk - prem.len()],
                        *face,
                        *min_b,
                        nl as int,
                    ),
                forall|k1: int, k2: int|
                    baselen <= k1 < k2 < output@[d as int].len() ==> !quads_overlap(
                        #[trigger] output@[d as int][k1],
                        #[trigger] output@[d as int][k2],
                        *face,
                    ),
            decreases rects@.len() - k,
        {
            let r = rects[k];
            let q0 = coord_exec(face, min_b, nl, r.v as u32, r.u as u32, 0);
            let q1 = coord_exec(face, min_b, nl, r.v as u32, r.u as u32, 1);
            let q2 = coord_exec(face, min_b, nl, r.v as u32, r.u as u32, 2);
            let quad = UnorientedQuad { minimum: [q0, q1, q2], width: r.w as u32, height: r.h as u32 };
            let ghost pregroup = output@[d as int];
            output.push(d, quad);
            proof {
                assert(output@[d as int] == pregroup.push(quad));
                assert(output@[d as int].subrange(0, prem.len() as int) =~= prem);
                assert(output@[d as int].skip(baselen) =~= pregroup.skip(baselen).push(quad));
                assert(quads_area(pregroup.skip(baselen).push(quad)) == quads_area(
                    pregroup.skip(baselen),
                ) + quad.width * quad.height) by {
                    assert(pregroup.skip(baselen).push(quad).drop_last() =~= pregroup.skip(
                        baselen,
                    ));
                }
                assert(rects@.subrange(0, k + 1).drop_last() =~= rects@.subrange(0, k as int));
                assert(rects_area(rects@.subrange(0, k + 1)) == rects_area(
                    rects@.subrange(0, k as int),
                ) + r.w * r.h);
                assert(quad.width == r.w && quad.height == r.h);
                // the quad stays inside the meshed region
                assert(quad.minimum[face.n_axis as int] == nl);
                assert(quad.minimum[face.u_axis as int] == min_b@[face.u_axis as int] + 1 + r.u);
                assert(quad.minimum[face.v_axis as int] == min_b@[face.v_axis as int] + 1 + r.v);
                assert(rect_wf(rects@[k as int], rows as int, cols as int));
                assert(quad_in_bounds(quad, *face, *min_b, *max_b));
                assert forall|kk: int|
                    prem.len() <= kk < output@[d as int].len() implies quad_in_bounds(
                    #[trigger] output@[d as int][kk],
                    *face,
                    *min_b,
                    *max_b,
                ) by {
                    if kk < pregroup.len() {
                        assert(output@[d as int][kk] == pregroup[kk]);
                    } else {
                        assert(output@[d as int][kk] == quad);
                    }
                }
                assert forall|kk: int|
                    baselen <= kk < prem.len() implies quad_in_bounds(
                    #[trigger] output@[d as int][kk],
                    *face,
                    *min_b,
                    *max_b,
                ) by {
                    assert(output@[d as int][kk] == prem[kk]);
                }
                assert(quad_matches_rect(quad, rects@[k as int], *face, *min_b, nl as int));
                assert forall|k1: int|
                    baselen <= k1 < pregroup.len() implies !quads_overlap(
                    #[trigger] output@[d as int][k1],
                    quad,
                    *face,
                ) by {
                    assert(output@[d as int][k1] == pregroup[k1]);
                    if k1 < prem.len() {
                        assert(pregroup[k1] == prem[k1]);
                        assert(prem[k1].minimum[face.n_axis as int] < nl);
                    } else {
                        let idx1 = k1 - prem.len();
                        assert(quad_matches_rect(
                            pregroup[k1],
                            rects@[idx1],
                            *face,
                            *min_b,
                            nl as int,
                        ));
                        assert(rect_wf(rects@[idx1], rows as int, cols as int));
                        assert(rects_disjoint(rects@[idx1], rects@[k as int]));
                        lemma_rects_to_quads_disjoint(
                            pregroup[k1],
                            quad,
                            rects@[idx1],
                            rects@[k as int],
                            *face,
                            *min_b,
                            nl as int,
                        );
                    }
                }
                assert forall|k1: int, k2: int|
                    baselen <= k1 < k2 < output@[d as int].len() implies !quads_overlap(
                    #[trigger] output@[d as int][k1],
                    #[trigger] output@[d as int][k2],
                    *face,
                ) by {
                    if k2 < pregroup.len() {
                        assert(output@[d as int][k1] == pregroup[k1]);
                        assert(output@[d as int][k2] == pregroup[k2]);
                    } else {
                        assert(output@[d as int][k2] == quad);
                    }
                }
                assert forall|kk: int|
                    prem.len() <= kk < output@[d as int].len() implies quad_matches_rect(
                    #[trigger] output@[d as int][kk],
                    rects@[kk - prem.len()],
                    *face,
                    *min_b,
                    nl as int,
                ) by {
                    if kk < pregroup.len() {
                        assert(output@[d as int][kk] == pregroup[kk]);
                    } else {
                        assert(output@[d as int][kk] == quad);
                    }
                }
                lemma_quad_cells_match(
                    voxels@,
                    *shape,
                    *face,
                    *min_b,
                    *max_b,
                    nl as int,
                    rects@[k as int],
                    quad,
                );
                assert forall|kk: int|
                    prem.len() <= kk < output@[d as int].len() implies quad_faces_visible_matching(
                    voxels@,
                    *shape,
                    *face,
                    #[trigger] output@[d as int][kk],
                ) by {
                    if kk < pregroup.len() {
                        assert(output@[d as int][kk] == pregroup[kk]);
                    } else {
                        assert(output@[d as int][kk] == quad);
                    }
                }
            }
            k = k + 1;
        }
        proof {
            assert(rects@.subrange(0, rects@.len() as int) =~= rects@);
            assert(faces_to_layer(voxels@, *shape, *face, *min_b, *max_b, nl as int)
                == faces_to_layer(voxels@, *shape, *face, *min_b, *max_b, nl - 1) + count_active(
                msk,
            ));
            assert forall|kk: int|
                baselen <= kk < output@[d as int].len() implies quad_faces_visible_matching(
                voxels@,
                *shape,
                *face,
                #[trigger] output@[d as int][kk],
            ) by {
                if kk < prem.len() {
                    assert(output@[d as int][kk] == output@[d as int].subrange(
                        0,
                        prem.len() as int,
                    )[kk]);
                }
            }
            assert forall|kk: int|
                baselen <= kk < output@[d as int].len() implies (#[trigger] output@[d as int][kk]).minimum[face.n_axis as int]
                < nl + 1 by {
                if kk < prem.len() {
                    assert(output@[d as int][kk] == output@[d as int].subrange(
                        0,
                        prem.len() as int,
                    )[kk]);
                } else {
                    assert(quad_matches_rect(
                        output@[d as int][kk],
                        rects@[kk - prem.len()],
                        *face,
                        *min_b,
                        nl as int,
                    ));
                }
            }
            assert(output@[d as int].subrange(0, baselen) =~= base) by {
                assert forall|kk: int| 0 <= kk < baselen implies output@[d as int][kk]
                    == base[kk] by {
                    assert(output@[d as int][kk] == output@[d as int].subrange(
                        0,
                        prem.len() as int,
                    )[kk]);
                    assert(prem[kk] == prem.subrange(0, baselen)[kk]);
                }
            }
        }
        nl = nl + 1;
    }
}

/// Greedily meshes the interior of the padded region `min_bound ..= max_bound`
/// of the volume: for each of the six face directions it merges the visible
/// faces into maximal same-key rectangles and appends them to the matching
/// group of `output`.
///
/// Returns `InvalidBounds`, leaving the buffer untouched, exactly when some
/// axis has no interior voxel between the two padding layers or leaves the
/// shape. On success, per direction: the group keeps its old quads as a
/// prefix; the appended quads' total area equals the direction's naive
/// visible-face count (no gaps, no double coverage); their number never
/// exceeds that count; and each lies inside the meshed region.
pub fn greedy_quads<V: MergeVoxel>(
    voxels: &Vec<V>,
    shape: &Shape3,
    min_bound: [u32; 3],
    max_bound: [u32; 3],
    faces: &[OrientedBlockFace; 6],
    output: &mut QuadBuffer,
) -> (r: Result<(), MeshError>)
    requires
        shape.wf(),
        voxels@.len() == shape.size_spec(),
        forall|dd: int| 0 <= dd < 6 ==> (#[trigger] faces@[dd]).wf(),
        old(output)@.len() == 6,
    ensures
        r is Ok <==> bounds_valid(*shape, min_bound, max_bound),
        r is Err ==> final(output)@ == old(output)@ && r == Err::<(), MeshError>(
            MeshError::InvalidBounds,
        ),
        final(output)@.len() == 6,
        forall|dd: int|
            0 <= dd < 6 ==> #[trigger] final(output)@[dd].len() >= old(output)@[dd].len(),
        forall|dd: int|
            0 <= dd < 6 ==> #[trigger] final(output)@[dd].subrange(
                0,
                old(output)@[dd].len() as int,
            ) == old(output)@[dd],
        r is Ok ==> forall|dd: int|
            0 <= dd < 6 ==> quads_area(
                #[trigger] final(output)@[dd].skip(old(output)@[dd].len() as int),
            ) == direction_faces(voxels@, *shape, faces@[dd], min_bound, max_bound),
        r is Ok ==> forall|dd: int|
            0 <= dd < 6 ==> #[trigger] final(output)@[dd].len() - old(output)@[dd].len()
                <= direction_faces(voxels@, *shape, faces@[dd], min_bound, max_bound),
        r is Ok ==> forall|dd: int, k: int|
            0 <= dd < 6 && old(output)@[dd].len() <= k < final(output)@[dd].len()
                ==> quad_in_bounds(#[trigger] final(output)@[dd][k], faces@[dd], min_bound, max_bound),
        r is Ok ==> forall|dd: int, k1: int, k2: int|
            0 <= dd < 6 && old(output)@[dd].len() <= k1 < k2 < final(output)@[dd].len()
                ==> !quads_overlap(
                #[trigger] final(output)@[dd][k1],
                #[trigger] final(output)@[dd][k2],
                faces@[dd],
            ),
        forall|dd: int|
            0 <= dd < 6 ==> #[trigger] final(output)@[dd].len() <= old(output)@[dd].len()
                + shape.size_spec(),
        r is Ok ==> forall|dd: int, k: int|
            0 <= dd < 6 && old(output)@[dd].len() <= k < final(output)@[dd].len()
                ==> quad_faces_visible_matching(
                voxels@,
                *shape,
                faces@[dd],
                #[trigger] final(output)@[dd][k],
            ),
{
    if !check_bounds(shape, &min_bound, &max_bound) {
        proof {
            assert forall|dd: int| 0 <= dd < 6 implies #[trigger] output@[dd].subrange(
                0,
                output@[dd].len() as int,
            ) == output@[dd] by {
                assert(output@[dd].subrange(0, output@[dd].len() as int) =~= output@[dd]);
            }
        }
        return Err(MeshError::InvalidBounds);
    }
    let mut d: usize = 0;
    while d < 6
        invariant
            d <= 6,
            shape.wf(),
            voxels@.len() == shape.size_spec(),
            bounds_valid(*shape, min_bound, max_bound),
            forall|dd: int| 0 <= dd < 6 ==> (#[trigger] faces@[dd]).wf(),
            output@.len() == 6,
            forall|dd: int| d <= dd < 6 ==> #[trigger] output@[dd] == old(output)@[dd],
            forall|dd: int|
                0 <= dd < d ==> #[trigger] output@[dd].len() >= old(output)@[dd].len(),
            forall|dd: int|
                0 <= dd < d ==> #[trigger] output@[dd].subrange(0, old(output)@[dd].len() as int)
                    == old(output)@[dd],
            forall|dd: int|
                0 <= dd < d ==> quads_area(
                    #[trigger] output@[dd].skip(old(output)@[dd].len() as int),
                ) == direction_faces(voxels@, *shape, faces@[dd], min_bound, max_bound),
            forall|dd: int|
                0 <= dd < d ==> #[trigger] output@[dd].len() - old(output)@[dd].len()
                    <= direction_faces(voxels@, *shape, faces@[dd], min_bound, max_bound),
            forall|dd: int, k: int|
                0 <= dd < d && old(output)@[dd].len() <= k < output@[dd].len() ==> quad_in_bounds(
                    #[trigger] output@[dd][k],
                    faces@[dd],
                    min_bound,
                    max_bound,
                ),
            forall|dd: int, k1: int, k2: int|
                0 <= dd < d && old(output)@[dd].len() <= k1 < k2 < output@[dd].len()
                    ==> !quads_overlap(
                    #[trigger] output@[dd][k1],
                    #[trigger] output@[dd][k2],
                    faces@[dd],
                ),
            forall|dd: int, k: int|
                0 <= dd < d && old(output)@[dd].len() <= k < output@[dd].len()
                    ==> quad_faces_visible_matching(
                    voxels@,
                    *shape,
                    faces@[dd],
                    #[trigger] output@[dd][k],
                ),
        decreases 6 - d,
    {
        let face = faces[d];
        mesh_direction(voxels, shape, &face, &min_bound, &max_bound, d, output);
        d = d + 1;
    }
    proof {
        assert forall|dd: int| 0 <= dd < 6 implies #[trigger] output@[dd].subrange(
            0,
            old(output)@[dd].len() as int,
        ) == old(output)@[dd] by {}
        assert forall|dd: int| 0 <= dd < 6 implies #[trigger] output@[dd].len() <= old(
            output,
        )@[dd].len() + shape.size_spec() by {
            lemma_direction_faces_le_volume(voxels@, *shape, faces@[dd], min_bound, max_bound);
        }
    }
    Ok(())
}

} // verus!
