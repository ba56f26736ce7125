//! The indexable volume: maps 3D grid coordinates to offsets in the caller's
//! flat voxel array and back. Indexing is a bijection between the coordinates
//! inside the declared extents and the offsets below `size()`.
use vstd::prelude::*;

verus! {

/// A fixed-size 3D volume with row-major (x fastest) linearization. The
/// extents are validated at construction: each is at least 1 and their
/// product fits in `u32`, so every offset fits in `u32` too.
#[derive(Debug, Clone, Copy, PartialEq, Eq)]
pub struct Shape3 {
    ex: u32,
    ey: u32,
    ez: u32,
}

impl Shape3 {
    /// The three extents, as mathematical values.
    pub closed spec fn extents(self) -> Seq<u32> {
        seq![self.ex, self.ey, self.ez]
    }

    /// Well-formedness: extents positive, volume addressable by `u32`.
    pub open spec fn wf(self) -> bool {
        &&& self.extents()[0] >= 1
        &&& self.extents()[1] >= 1
        &&& self.extents()[2] >= 1
        &&& self.extents()[0] * self.extents()[1] * self.extents()[2] <= u32::MAX
    }

    /// The number of voxels the volume holds.
    pub open spec fn size_spec(self) -> int {
        self.extents()[0] * self.extents()[1] * self.extents()[2]
    }

    /// Where the voxel at (`x`, `y`, `z`) lives in the flat array.
    pub open spec fn linearize_spec(self, x: int, y: int, z: int) -> int {
        x + self.extents()[0] * (y + self.extents()[1] * z)
    }

    /// Validates and builds a shape: `None` exactly when an extent is zero or
    /// the volume does not fit in `u32`.
    pub fn new(ex: u32, ey: u32, ez: u32) -> (r: Option<Self>)
        ensures
            r is Some <==> (ex >= 1 && ey >= 1 && ez >= 1 && ex * ey * ez <= u32::MAX),
            r matches Some(s) ==> s.extents() == seq![ex, ey, ez] && s.wf(),
    {
        if ex == 0 || ey == 0 || ez == 0 {
            return None;
        }
        proof {
            assert((ex as int) * (ey as int) <= 0xffff_ffff * 0xffff_ffff) by (nonlinear_arith)
                requires 0 <= ex <= 0xffff_ffff && 0 <= ey <= 0xffff_ffff;
        }
        let pxy: u64 = (ex as u64) * (ey as u64);
        if pxy > (u32::MAX as u64) {
            proof {
                assert(ex * ey * ez > 0xffff_ffff) by (nonlinear_arith)
                    requires (ex as int) * (ey as int) > 0xffff_ffff && ez >= 1;
            }
            return None;
        }
        proof {
            assert((pxy as int) * (ez as int) <= 0xffff_ffff * 0xffff_ffff) by (nonlinear_arith)
                requires 0 <= pxy <= 0xffff_ffff && 0 <= ez <= 0xffff_ffff;
        }
        let pxyz: u64 = pxy * (ez as u64);
        proof {
            assert(pxyz == ex * ey * ez) by (nonlinear_arith)
                requires pxy == (ex as int) * (ey as int) && pxyz == (pxy as int) * (ez as int);
        }
        if pxyz > (u32::MAX as u64) {
            None
        } else {
            Some(Self { ex, ey, ez })
        }
    }

    /// The extent along one axis (0, 1 or 2 for x, y, z).
    pub fn extent(&self, axis: usize) -> (r: u32)
        requires
            axis < 3,
        ensures
            r == self.extents()[axis as int],
    {
        match axis {
            0 => self.ex,
            1 => self.ey,
            _ => self.ez,
        }
    }

    /// The number of voxels the volume holds.
    pub fn size(&self) -> (r: u32)
        requires
            self.wf(),
        ensures
            r == self.size_spec(),
    {
        proof {
            assert((self.ex as int) * (self.ey as int) <= 0xffff_ffff * 0xffff_ffff)
                by (nonlinear_arith)
                requires 0 <= self.ex <= 0xffff_ffff && 0 <= self.ey <= 0xffff_ffff;
        }
        let pxy: u64 = (self.ex as u64) * (self.ey as u64);
        proof {
            assert((pxy as int) * (self.ez as int) == self.ex * self.ey * self.ez
                && (pxy as int) * (self.ez as int) >= 0) by (nonlinear_arith)
                requires pxy == (self.ex as int) * (self.ey as int) && self.ez >= 0;
        }
        let pxyz: u64 = pxy * (self.ez as u64);
        pxyz as u32
    }

    /// Maps in-extent coordinates to their offset in the flat array; the
    /// offset always lies below `size()`.
    pub fn linearize(&self, x: u32, y: u32, z: u32) -> (r: u32)
        requires
            self.wf(),
            x < self.extents()[0],
            y < self.extents()[1],
            z < self.extents()[2],
        ensures
            r == self.linearize_spec(x as int, y as int, z as int),
            r < self.size_spec(),
    {
        proof {
            lemma_linearize_bound(
                self.ex as int,
                self.ey as int,
                self.ez as int,
                x as int,
                y as int,
                z as int,
            );
        }
        let inner: u64 = (y as u64) + (self.ey as u64) * (z as u64);
        let idx: u64 = (x as u64) + (self.ex as u64) * inner;
        idx as u32
    }

    /// Recovers the coordinates of an offset: the inverse of `linearize` on
    /// every offset below `size()`.
    pub fn delinearize(&self, i: u32) -> (r: (u32, u32, u32))
        requires
            self.wf(),
            i < self.size_spec(),
        ensures
            r.0 < self.extents()[0],
            r.1 < self.extents()[1],
            r.2 < self.extents()[2],
            self.linearize_spec(r.0 as int, r.1 as int, r.2 as int) == i,
    {
        let x: u32 = i % self.ex;
        let rest: u32 = i / self.ex;
        let y: u32 = rest % self.ey;
        let z: u32 = rest / self.ey;
        proof {
            lemma_delinearize(self.ex as int, self.ey as int, self.ez as int, i as int);
        }
        (x, y, z)
    }
}

/// Indexing is a bijection: together with `delinearize`'s contract, which
/// inverts `linearize` on every offset below `size()`, this shows that
/// linearization pairs the in-extent coordinates one-to-one with the offsets
/// of the backing array.
pub proof fn lemma_linearize_injective(
    s: Shape3,
    x1: int,
    y1: int,
    z1: int,
    x2: int,
    y2: int,
    z2: int,
)
    requires
        0 <= x1 < s.extents()[0],
        0 <= y1 < s.extents()[1],
        0 <= z1 < s.extents()[2],
        0 <= x2 < s.extents()[0],
        0 <= y2 < s.extents()[1],
        0 <= z2 < s.extents()[2],
        s.linearize_spec(x1, y1, z1) == s.linearize_spec(x2, y2, z2),
    ensures
        x1 == x2 && y1 == y2 && z1 == z2,
{
    let ex = s.extents()[0] as int;
    let ey = s.extents()[1] as int;
    let i = s.linearize_spec(x1, y1, z1);
    lemma_linearize_decompose(ex, ey, x1, y1, z1, i);
    lemma_linearize_decompose(ex, ey, x2, y2, z2, i);
}

/// The coordinates can be read back off a linearized offset by division and
/// remainder, so they are determined by it.
proof fn lemma_linearize_decompose(ex: int, ey: int, x: int, y: int, z: int, i: int)
    requires
        0 <= x < ex,
        0 <= y < ey,
        0 <= z,
        i == x + ex * (y + ey * z),
    ensures
        x == i % ex,
        y == (i / ex) % ey,
        z == (i / ex) / ey,
{
    assert(y + ey * z >= 0) by (nonlinear_arith)
        requires y >= 0 && ey >= 1 && z >= 0;
    assert(i % ex == x && i / ex == y + ey * z) by (nonlinear_arith)
        requires i == x + ex * (y + ey * z) && 0 <= x < ex && y + ey * z >= 0;
    let r = i / ex;
    assert(r % ey == y && r / ey == z) by (nonlinear_arith)
        requires r == y + ey * z && 0 <= y < ey && z >= 0;
}

/// In-extent coordinates linearize below the volume's size.
proof fn lemma_linearize_bound(ex: int, ey: int, ez: int, x: int, y: int, z: int)
    requires
        0 <= x < ex,
        0 <= y < ey,
        0 <= z < ez,
    ensures
        0 <= y + ey * z < ey * ez,
        0 <= x + ex * (y + ey * z) < ex * (ey * ez),
        ex * (ey * ez) == ex * ey * ez,
        ey * ez <= ex * (ey * ez),
{
    assert(ey * ez <= ex * (ey * ez)) by (nonlinear_arith)
        requires ex >= 1 && ey >= 1 && ez >= 1;
    assert(0 <= y + ey * z < ey * ez) by (nonlinear_arith)
        requires 0 <= y < ey && 0 <= z < ez;
    assert(0 <= x + ex * (y + ey * z) < ex * (ey * ez)) by (nonlinear_arith)
        requires 0 <= x < ex && 0 <= y + ey * z < ey * ez;
    assert(ex * (ey * ez) == ex * ey * ez) by (nonlinear_arith);
}

/// Division and remainder by the extents invert the row-major linearization.
proof fn lemma_delinearize(ex: int, ey: int, ez: int, i: int)
    requires
        ex >= 1,
        ey >= 1,
        ez >= 1,
        0 <= i < ex * ey * ez,
    ensures
        0 <= i % ex < ex,
        0 <= (i / ex) % ey < ey,
        0 <= (i / ex) / ey < ez,
        i % ex + ex * ((i / ex) % ey + ey * ((i / ex) / ey)) == i,
{
    let x = i % ex;
    let rest = i / ex;
    assert(0 <= x < ex && i == ex * rest + x && 0 <= rest) by (nonlinear_arith)
        requires ex >= 1 && 0 <= i && x == i % ex && rest == i / ex;
    let y = rest % ey;
    let z = rest / ey;
    assert(0 <= y < ey && rest == ey * z + y && 0 <= z) by (nonlinear_arith)
        requires ey >= 1 && 0 <= rest && y == rest % ey && z == rest / ey;
    assert(rest < ey * ez) by (nonlinear_arith)
        requires
            ex >= 1 && ey >= 1 && ez >= 1,
            i < ex * ey * ez,
            i == ex * rest + x,
            0 <= x,
            0 <= rest;
    assert(z < ez) by (nonlinear_arith)
        requires ey >= 1 && rest == ey * z + y && 0 <= y && rest < ey * ez;
    assert(x + ex * (y + ey * z) == i) by (nonlinear_arith)
        requires i == ex * rest + x && rest == ey * z + y;
}

} // verus!
