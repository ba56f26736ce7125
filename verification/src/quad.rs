//! The minimal rectangle emitted by the mesher: an anchor voxel plus a width
//! and a height measured along the two in-plane axes of its face direction.
use vstd::prelude::*;

verus! {

/// Read access to a quad's geometry. Implemented by [`UnorientedQuad`]; callers
/// may implement it for their own quad representations so that generic buffers
/// such as [`crate::buffer::UnitQuadBuffer`] can hold them.
pub trait Quad {
    /// The minimum voxel in the quad.
    fn minimum(&self) -> [u32; 3];

    /// Width of the quad, in voxels, along the first in-plane axis.
    fn width(&self) -> u32;

    /// Height of the quad, in voxels, along the second in-plane axis.
    fn height(&self) -> u32;
}

/// The minimum voxel and size of a quad, without an orientation. The actual
/// corners are produced by combining it with an oriented face descriptor.
#[derive(Debug, Copy, Clone, PartialEq, Eq)]
pub struct UnorientedQuad {
    /// The minimum voxel in the quad, in ambient grid coordinates.
    pub minimum: [u32; 3],
    /// Extent along the face's first in-plane axis, in voxels.
    pub width: u32,
    /// Extent along the face's second in-plane axis, in voxels.
    pub height: u32,
}

impl Quad for UnorientedQuad {
    fn minimum(&self) -> (r: [u32; 3])
        ensures
            r == self.minimum,
    {
        self.minimum
    }

    fn width(&self) -> (r: u32)
        ensures
            r == self.width,
    {
        self.width
    }

    fn height(&self) -> (r: u32)
        ensures
            r == self.height,
    {
        self.height
    }
}

impl UnorientedQuad {
    /// Builds a quad from its anchor voxel and its two in-plane extents.
    pub fn new(minimum: [u32; 3], width: u32, height: u32) -> (q: Self)
        ensures
            q.minimum == minimum,
            q.width == width,
            q.height == height,
    {
        Self { minimum, width, height }
    }

    /// Builds a unit quad (1 voxel by 1 voxel) anchored at `minimum`.
    pub fn from_minimum(minimum: [u32; 3]) -> (q: Self)
        ensures
            q.minimum == minimum,
            q.width == 1,
            q.height == 1,
    {
        Self { minimum, width: 1, height: 1 }
    }
}

} // verus!
