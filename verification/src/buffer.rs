//! Output containers for the mesher: six ordered groups of quads, one per
//! face direction, with reset and counting operations.
use vstd::prelude::*;

use crate::quad::Quad;
use crate::quad::UnorientedQuad;

verus! {

/// A group of quads for each block face direction. The face descriptor that
/// produced a group supplies the orientation needed to interpret its quads.
///
/// Viewed as a sequence of six sequences, one per direction index.
pub struct QuadBuffer {
    group0: Vec<UnorientedQuad>,
    group1: Vec<UnorientedQuad>,
    group2: Vec<UnorientedQuad>,
    group3: Vec<UnorientedQuad>,
    group4: Vec<UnorientedQuad>,
    group5: Vec<UnorientedQuad>,
}

impl View for QuadBuffer {
    type V = Seq<Seq<UnorientedQuad>>;

    closed spec fn view(&self) -> Seq<Seq<UnorientedQuad>> {
        seq![
            self.group0@,
            self.group1@,
            self.group2@,
            self.group3@,
            self.group4@,
            self.group5@,
        ]
    }
}

impl QuadBuffer {
    /// The total number of quads held, as a mathematical integer.
    pub open spec fn total(self) -> nat {
        self@[0].len() + self@[1].len() + self@[2].len() + self@[3].len() + self@[4].len()
            + self@[5].len()
    }

    /// Creates a buffer with all six groups empty.
    pub fn new() -> (buf: Self)
        ensures
            buf@.len() == 6,
            forall|d: int| 0 <= d < 6 ==> buf@[d] == Seq::<UnorientedQuad>::empty(),
    {
        let buf = Self {
            group0: Vec::new(),
            group1: Vec::new(),
            group2: Vec::new(),
            group3: Vec::new(),
            group4: Vec::new(),
            group5: Vec::new(),
        };
        proof {
            assert forall|d: int| 0 <= d < 6 implies buf@[d] == Seq::<UnorientedQuad>::empty() by {
                assert(buf@[d].len() == 0);
                assert(buf@[d] =~= Seq::<UnorientedQuad>::empty());
            }
        }
        buf
    }

    /// Empties all six groups in place; allocated capacity is retained, so a
    /// buffer can be reused across meshing calls without reallocation.
    pub fn reset(&mut self)
        ensures
            final(self)@.len() == 6,
            forall|d: int| 0 <= d < 6 ==> final(self)@[d] == Seq::<UnorientedQuad>::empty(),
    {
        self.group0.clear();
        self.group1.clear();
        self.group2.clear();
        self.group3.clear();
        self.group4.clear();
        self.group5.clear();
        proof {
            assert forall|d: int| 0 <= d < 6 implies self@[d] == Seq::<UnorientedQuad>::empty() by {
                assert(self@[d].len() == 0);
                assert(self@[d] =~= Seq::<UnorientedQuad>::empty());
            }
        }
    }

    /// Returns the total count of quads across all groups.
    pub fn num_quads(&self) -> (n: usize)
        requires
            self.total() <= usize::MAX,
        ensures
            n == self.total(),
    {
        let n0 = self.group0.len();
        let n1 = self.group1.len();
        let n2 = self.group2.len();
        let n3 = self.group3.len();
        let n4 = self.group4.len();
        let n5 = self.group5.len();
        n0 + n1 + n2 + n3 + n4 + n5
    }

    /// Read access to the group of one face direction.
    pub fn group(&self, direction: usize) -> (g: &Vec<UnorientedQuad>)
        requires
            direction < 6,
        ensures
            g@ == self@[direction as int],
    {
        match direction {
            0 => &self.group0,
            1 => &self.group1,
            2 => &self.group2,
            3 => &self.group3,
            4 => &self.group4,
            _ => &self.group5,
        }
    }

    /// Appends one quad to the group of one face direction.
    pub fn push(&mut self, direction: usize, quad: UnorientedQuad)
        requires
            direction < 6,
        ensures
            final(self)@ == old(self)@.update(direction as int, old(self)@[direction as int].push(quad)),
    {
        match direction {
            0 => self.group0.push(quad),
            1 => self.group1.push(quad),
            2 => self.group2.push(quad),
            3 => self.group3.push(quad),
            4 => self.group4.push(quad),
            _ => self.group5.push(quad),
        }
        proof {
            assert(self@ =~= old(self)@.update(
                direction as int,
                old(self)@[direction as int].push(quad),
            ));
        }
    }

    /// Moves every quad of `quads` to the end of the group of one face
    /// direction, leaving `quads` empty.
    pub fn extend_group(&mut self, direction: usize, quads: &mut Vec<UnorientedQuad>)
        requires
            direction < 6,
        ensures
            final(self)@ == old(self)@.update(
                direction as int,
                old(self)@[direction as int] + old(quads)@,
            ),
            final(quads)@ == Seq::<UnorientedQuad>::empty(),
    {
        match direction {
            0 => self.group0.append(quads),
            1 => self.group1.append(quads),
            2 => self.group2.append(quads),
            3 => self.group3.append(quads),
            4 => self.group4.append(quads),
            _ => self.group5.append(quads),
        }
        proof {
            assert(self@ =~= old(self)@.update(
                direction as int,
                old(self)@[direction as int] + old(quads)@,
            ));
            assert(quads@ =~= Seq::<UnorientedQuad>::empty());
        }
    }
}

impl Default for QuadBuffer {
    /// An empty buffer, as [`QuadBuffer::new`] builds it.
    fn default() -> (buf: Self)
        ensures
            buf@.len() == 6,
            forall|d: int| 0 <= d < 6 ==> buf@[d] == Seq::<UnorientedQuad>::empty(),
    {
        Self::new()
    }
}

/// A group of quads for each block face direction, for callers that keep their
/// own quad representation: any type implementing [`Quad`] can be stored.
pub struct UnitQuadBuffer<Q: Quad + Copy> {
    group0: Vec<Q>,
    group1: Vec<Q>,
    group2: Vec<Q>,
    group3: Vec<Q>,
    group4: Vec<Q>,
    group5: Vec<Q>,
}

impl<Q: Quad + Copy> View for UnitQuadBuffer<Q> {
    type V = Seq<Seq<Q>>;

    closed spec fn view(&self) -> Seq<Seq<Q>> {
        seq![
            self.group0@,
            self.group1@,
            self.group2@,
            self.group3@,
            self.group4@,
            self.group5@,
        ]
    }
}

impl<Q: Quad + Copy> UnitQuadBuffer<Q> {
    /// The total number of quads held, as a mathematical integer.
    pub open spec fn total(self) -> nat {
        self@[0].len() + self@[1].len() + self@[2].len() + self@[3].len() + self@[4].len()
            + self@[5].len()
    }

    /// Creates a buffer with all six groups empty.
    pub fn new() -> (buf: Self)
        ensures
            buf@.len() == 6,
            forall|d: int| 0 <= d < 6 ==> buf@[d] == Seq::<Q>::empty(),
    {
        let buf = Self {
            group0: Vec::new(),
            group1: Vec::new(),
            group2: Vec::new(),
            group3: Vec::new(),
            group4: Vec::new(),
            group5: Vec::new(),
        };
        proof {
            assert forall|d: int| 0 <= d < 6 implies buf@[d] == Seq::<Q>::empty() by {
                assert(buf@[d].len() == 0);
                assert(buf@[d] =~= Seq::<Q>::empty());
            }
        }
        buf
    }

    /// Clears the buffer.
    pub fn reset(&mut self)
        ensures
            final(self)@.len() == 6,
            forall|d: int| 0 <= d < 6 ==> final(self)@[d] == Seq::<Q>::empty(),
    {
        self.group0.clear();
        self.group1.clear();
        self.group2.clear();
        self.group3.clear();
        self.group4.clear();
        self.group5.clear();
        proof {
            assert forall|d: int| 0 <= d < 6 implies self@[d] == Seq::<Q>::empty() by {
                assert(self@[d].len() == 0);
                assert(self@[d] =~= Seq::<Q>::empty());
            }
        }
    }

    /// Returns the total count of quads across all groups.
    pub fn num_quads(&self) -> (n: usize)
        requires
            self.total() <= usize::MAX,
        ensures
            n == self.total(),
    {
        let n0 = self.group0.len();
        let n1 = self.group1.len();
        let n2 = self.group2.len();
        let n3 = self.group3.len();
        let n4 = self.group4.len();
        let n5 = self.group5.len();
        n0 + n1 + n2 + n3 + n4 + n5
    }

    /// Read access to the group of one face direction.
    pub fn group(&self, direction: usize) -> (g: &Vec<Q>)
        requires
            direction < 6,
        ensures
            g@ == self@[direction as int],
    {
        match direction {
            0 => &self.group0,
            1 => &self.group1,
            2 => &self.group2,
            3 => &self.group3,
            4 => &self.group4,
            _ => &self.group5,
        }
    }

    /// Appends one quad to the group of one face direction.
    pub fn push(&mut self, direction: usize, quad: Q)
        requires
            direction < 6,
        ensures
            final(self)@ == old(self)@.update(direction as int, old(self)@[direction as int].push(quad)),
    {
        match direction {
            0 => self.group0.push(quad),
            1 => self.group1.push(quad),
            2 => self.group2.push(quad),
            3 => self.group3.push(quad),
            4 => self.group4.push(quad),
            _ => self.group5.push(quad),
        }
        proof {
            assert(self@ =~= old(self)@.update(
                direction as int,
                old(self)@[direction as int].push(quad),
            ));
        }
    }
}

impl<Q: Quad + Copy> Default for UnitQuadBuffer<Q> {
    /// An empty buffer, as [`UnitQuadBuffer::new`] builds it.
    fn default() -> (buf: Self)
        ensures
            buf@.len() == 6,
            forall|d: int| 0 <= d < 6 ==> buf@[d] == Seq::<Q>::empty(),
    {
        Self::new()
    }
}

} // verus!
