//! Per-voxel classification: visibility and the merge keys that decide
//! whether two coplanar faces may be fused into one quad.
use vstd::prelude::*;

verus! {

/// How a voxel interacts with light, as far as meshing is concerned.
#[derive(Debug, Clone, Copy, PartialEq, Eq, Structural)]
pub enum VoxelVisibility {
    /// The voxel is not there: it never produces a face.
    Empty,
    /// The voxel is there but lets light through.
    Translucent,
    /// The voxel blocks light entirely.
    Opaque,
}

/// A voxel the mesher can classify.
pub trait Voxel {
    /// The visibility this voxel reports, as a mathematical value.
    spec fn spec_visibility(&self) -> VoxelVisibility;

    /// Reports the voxel's visibility class.
    fn get_visibility(&self) -> (v: VoxelVisibility)
        ensures
            v == self.spec_visibility(),
    ;
}

/// A voxel whose faces may be merged with a neighbour's. Two candidate cells
/// merge only when both keys match: `merge_value` is compared between the
/// voxels being meshed, and `merge_value_facing_neighbour` between the voxels
/// on the far side of the face, so a merge rule may depend on what the face
/// looks out on.
pub trait MergeVoxel: Voxel {
    /// The primary merge key, as a mathematical value.
    spec fn spec_merge_value(&self) -> u64;

    /// The secondary merge key, as a mathematical value.
    spec fn spec_merge_value_facing_neighbour(&self) -> u64;

    /// The key compared when growing a rectangle along its own face plane.
    fn merge_value(&self) -> (r: u64)
        ensures
            r == self.spec_merge_value(),
    ;

    /// The key compared on the voxel the face looks out on.
    fn merge_value_facing_neighbour(&self) -> (r: u64)
        ensures
            r == self.spec_merge_value_facing_neighbour(),
    ;
}

/// The visibility-pair rule: a face between a voxel and the neighbour it looks
/// out on is generated exactly when the voxel is present and the neighbour
/// either is absent or is translucent in front of an opaque voxel.
pub open spec fn face_visible_spec(voxel: VoxelVisibility, neighbour: VoxelVisibility) -> bool {
    voxel != VoxelVisibility::Empty && (neighbour == VoxelVisibility::Empty || (neighbour
        == VoxelVisibility::Translucent && voxel == VoxelVisibility::Opaque))
}

/// Decides whether the face between `voxel` and the `neighbour` it looks out
/// on must be meshed.
pub fn face_needs_mesh<V: Voxel>(voxel: &V, neighbour: &V) -> (r: bool)
    ensures
        r == face_visible_spec(voxel.spec_visibility(), neighbour.spec_visibility()),
{
    let v = voxel.get_visibility();
    let n = neighbour.get_visibility();
    v != VoxelVisibility::Empty && (n == VoxelVisibility::Empty || (n
        == VoxelVisibility::Translucent && v == VoxelVisibility::Opaque))
}

/// A ready-made voxel: a visibility class plus explicit merge keys. Suits
/// callers whose appearance data is already a small integer (a material id).
#[derive(Debug, Clone, Copy, PartialEq, Eq)]
pub struct GridVoxel {
    /// The visibility this voxel reports.
    pub visibility: VoxelVisibility,
    /// The primary merge key.
    pub merge_key: u64,
    /// The key compared on the voxel the face looks out on.
    pub neighbour_key: u64,
}

impl GridVoxel {
    /// An absent voxel; its keys never matter.
    pub fn empty() -> (v: Self)
        ensures
            v.visibility == VoxelVisibility::Empty,
            v.merge_key == 0,
            v.neighbour_key == 0,
    {
        Self { visibility: VoxelVisibility::Empty, merge_key: 0, neighbour_key: 0 }
    }

    /// An opaque voxel whose two merge keys both equal `key`.
    pub fn opaque(key: u64) -> (v: Self)
        ensures
            v.visibility == VoxelVisibility::Opaque,
            v.merge_key == key,
            v.neighbour_key == key,
    {
        Self { visibility: VoxelVisibility::Opaque, merge_key: key, neighbour_key: key }
    }

    /// A translucent voxel whose two merge keys both equal `key`.
    pub fn translucent(key: u64) -> (v: Self)
        ensures
            v.visibility == VoxelVisibility::Translucent,
            v.merge_key == key,
            v.neighbour_key == key,
    {
        Self { visibility: VoxelVisibility::Translucent, merge_key: key, neighbour_key: key }
    }
}

impl Voxel for GridVoxel {
    open spec fn spec_visibility(&self) -> VoxelVisibility {
        self.visibility
    }

    fn get_visibility(&self) -> (v: VoxelVisibility) {
        self.visibility
    }
}

impl MergeVoxel for GridVoxel {
    open spec fn spec_merge_value(&self) -> u64 {
        self.merge_key
    }

    open spec fn spec_merge_value_facing_neighbour(&self) -> u64 {
        self.neighbour_key
    }

    fn merge_value(&self) -> (r: u64) {
        self.merge_key
    }

    fn merge_value_facing_neighbour(&self) -> (r: u64) {
        self.neighbour_key
    }
}

} // verus!
