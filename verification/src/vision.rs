//! What a viewer sees and what it remembers.
//!
//! A viewer starts without a view. Computing its view from a position
//! caches the view for that position; asking again from the same position
//! changes nothing; asking from another position, or after the view was
//! expired, computes it anew. Every cell that was ever in view stays known.

use vstd::prelude::*;
use crate::dim::Dim;
use crate::fov::calculate_fov;
use crate::fov::sees;
use crate::level_data::LevelInfo;
use crate::matrix::is_default;
use crate::matrix::lemma_index_pos_round_trip;
use crate::matrix::lemma_pos_index_round_trip;
use crate::matrix::Matrix;
use crate::pos::DimIndex;
use crate::pos::Pos;

verus! {

/// Whether a viewer holds a view, and for which position.
#[derive(Debug, Clone, Copy, PartialEq, Eq, Structural)]
pub enum FovState {
    /// There is no view, or none that is known to belong to a position.
    NoFovYet,
    /// The view was computed for this position.
    Cached(Pos),
}

/// Whether the mask `m` holds `true` at `p`.
pub open spec fn marked(m: Matrix<bool>, p: Pos) -> bool {
    m.has(p) && m.at(p)
}

/// Whether the mask, if there is one, holds `true` at `p`.
pub open spec fn marked_in(m: Option<Matrix<bool>>, p: Pos) -> bool {
    m matches Some(mask) && marked(mask, p)
}

/// Whether some cell of the mask `m` holds `true`.
pub open spec fn any_marked(m: Matrix<bool>) -> bool {
    exists|p: Pos| #[trigger] marked(m, p)
}

/// Whether a memory `after` is what becomes of the memory `before` once the
/// view `mask` is added to it: a cell is known if it was known or is in
/// view. There is no memory until a cell has been in view, and a memory has
/// the extents of the view.
pub open spec fn remembers(
    before: Option<Matrix<bool>>,
    mask: Matrix<bool>,
    after: Option<Matrix<bool>>,
) -> bool {
    &&& after is Some <==> before is Some || any_marked(mask)
    &&& after matches Some(mem) ==> mem.spec_dim() == mask.spec_dim() && mem.shaped()
    &&& forall|p: Pos|
        mask.has(p) ==> (#[trigger] marked_in(after, p) <==> marked_in(before, p) || marked(
            mask,
            p,
        ))
}

/// Whether some cell of the mask holds `true`.
pub fn any_true(m: &Matrix<bool>) -> (r: bool)
    ensures
        r == any_marked(*m),
{
    let dim = m.dim();
    let n = m.len();
    let mut i: usize = 0;
    while i < n
        invariant
            i <= n,
            n == m@.len(),
            dim == m.spec_dim(),
            m.shaped(),
            forall|k: int| 0 <= k < i ==> !(#[trigger] m@[k]),
        decreases n - i,
    {
        let p = m.to_pos(i);
        proof {
            lemma_index_pos_round_trip(dim, i as int);
        }
        if *m.get(p) {
            assert(marked(*m, p));
            return true;
        }
        i += 1;
    }
    proof {
        assert forall|p: Pos| !(#[trigger] marked(*m, p)) by {
            if m.has(p) {
                lemma_pos_index_round_trip(dim, p);
            }
        }
    }
    false
}

/// Marks in `mem` every cell that `m` marks, and leaves the other cells of
/// `mem` as they were.
pub fn merge_mask(mem: &mut Matrix<bool>, m: &Matrix<bool>)
    requires
        old(mem).spec_dim() == m.spec_dim(),
    ensures
        final(mem).spec_dim() == old(mem).spec_dim(),
        final(mem).shaped(),
        forall|p: Pos|
            m.has(p) ==> (#[trigger] final(mem).at(p) <==> old(mem).at(p) || m.at(p)),
{
    let dim = m.dim();
    let n = mem.len();
    let ghost start = mem@;
    let mut i: usize = 0;
    while i < n
        invariant
            i <= n,
            n == m@.len(),
            dim == m.spec_dim(),
            m.shaped(),
            mem.spec_dim() == dim,
            mem.shaped(),
            forall|k: int| 0 <= k < n ==> (#[trigger] mem@[k] <==> start[k] || (k < i && m@[k])),
        decreases n - i,
    {
        let p = m.to_pos(i);
        proof {
            lemma_index_pos_round_trip(dim, i as int);
        }
        if *m.get(p) {
            mem.set(p, true);
        }
        i += 1;
    }
    proof {
        assert forall|p: Pos| m.has(p) implies (#[trigger] mem.at(p) <==> old(mem).at(p) || m.at(
            p,
        )) by {
            lemma_pos_index_round_trip(dim, p);
        }
    }
}

/// The sight of a viewer: how far it sees, what it sees now, and what it
/// has seen so far.
#[derive(Debug)]
pub struct HasVision {
    /// How far the viewer sees.
    pub radius: DimIndex,
    fov: Option<Matrix<bool>>,
    memory: Option<Matrix<bool>>,
    seen_from: Option<Pos>,
}

impl HasVision {
    /// How far the viewer sees.
    pub closed spec fn spec_radius(&self) -> DimIndex {
        self.radius
    }

    /// The mask of the cells in view, if there is a view.
    pub closed spec fn spec_fov(self) -> Option<Matrix<bool>> {
        self.fov
    }

    /// The mask of the cells that were ever in view, if any was.
    pub closed spec fn spec_memory(self) -> Option<Matrix<bool>> {
        self.memory
    }

    /// The position that the view is known to belong to, if any.
    pub closed spec fn seen_from(self) -> Option<Pos> {
        self.seen_from
    }

    /// Whether the viewer holds a view, and for which position.
    pub open spec fn spec_state(self) -> FovState {
        match (self.spec_fov(), self.seen_from()) {
            (Some(_), Some(p)) => FovState::Cached(p),
            _ => FovState::NoFovYet,
        }
    }

    /// Whether a view with extents `dim` can be added to the memory: there
    /// is no memory yet, or it has the same extents.
    pub open spec fn fits_memory(self, dim: Dim) -> bool {
        self.spec_memory() matches Some(mem) ==> mem.spec_dim() == dim
    }

    /// How far the viewer sees.
    #[verifier::when_used_as_spec(spec_radius)]
    pub fn radius(&self) -> (r: DimIndex)
        ensures
            r == self.spec_radius(),
    {
        self.radius
    }

    /// A viewer that sees `radius` far and has seen nothing yet.
    pub fn new(radius: DimIndex) -> (r: HasVision)
        ensures
            r.spec_radius() == radius,
            r.spec_fov() is None,
            r.spec_memory() is None,
            r.spec_state() == FovState::NoFovYet,
    {
        HasVision { radius, fov: None, memory: None, seen_from: None }
    }

    /// Drops the view, so that it is computed anew when it is next asked
    /// for. What the viewer has seen stays known.
    pub fn expire_fov(&mut self)
        ensures
            final(self).spec_fov() is None,
            final(self).spec_state() == FovState::NoFovYet,
            final(self).spec_memory() == old(self).spec_memory(),
            final(self).spec_radius() == old(self).spec_radius(),
    {
        self.fov = None;
        self.seen_from = None;
    }

    /// The mask of the cells in view, if there is a view.
    pub fn fov(&self) -> (r: Option<&Matrix<bool>>)
        ensures
            r is Some == self.spec_fov() is Some,
            r matches Some(m) ==> *m == self.spec_fov()->Some_0,
    {
        self.fov.as_ref()
    }

    /// The mask of the cells that were ever in view, if any was.
    pub fn memory(&self) -> (r: Option<&Matrix<bool>>)
        ensures
            r is Some == self.spec_memory() is Some,
            r matches Some(m) ==> *m == self.spec_memory()->Some_0,
    {
        self.memory.as_ref()
    }

    /// Whether the viewer holds a view, and for which position.
    pub fn state(&self) -> (r: FovState)
        ensures
            r == self.spec_state(),
    {
        match (&self.fov, self.seen_from) {
            (Some(_), Some(p)) => FovState::Cached(p),
            _ => FovState::NoFovYet,
        }
    }

    /// Makes `m` the view, records the position it belongs to, and adds it
    /// to the memory.
    fn store(&mut self, m: Matrix<bool>, from: Option<Pos>)
        requires
            old(self).fits_memory(m.spec_dim()),
        ensures
            final(self).spec_fov() == Some(m),
            final(self).seen_from() == from,
            final(self).spec_radius() == old(self).spec_radius(),
            remembers(old(self).spec_memory(), m, final(self).spec_memory()),
    {
        let ghost before = self.memory;
        let known = self.memory.take();
        let dim = m.dim();
        match known {
            Some(mut mem) => {
                let ghost start = mem;
                merge_mask(&mut mem, &m);
                self.memory = Some(mem);
                proof {
                    assert forall|p: Pos| m.has(p) implies (#[trigger] marked_in(self.memory, p)
                        <==> marked_in(before, p) || marked(m, p)) by {
                        assert(mem.at(p) <==> start.at(p) || m.at(p));
                    }
                }
            },
            None => {
                if any_true(&m) {
                    let mut mem: Matrix<bool> = Matrix::new(dim.width, dim.height);
                    let ghost start = mem;
                    merge_mask(&mut mem, &m);
                    self.memory = Some(mem);
                    proof {
                        assert forall|p: Pos| m.has(p) implies (#[trigger] marked_in(
                            self.memory,
                            p,
                        ) <==> marked_in(before, p) || marked(m, p)) by {
                            assert(mem.at(p) <==> start.at(p) || m.at(p));
                            assert(is_default(start.at(p)));
                        }
                    }
                } else {
                    proof {
                        assert forall|p: Pos| m.has(p) implies (#[trigger] marked_in(
                            self.memory,
                            p,
                        ) <==> marked_in(before, p) || marked(m, p)) by {
                            if marked(m, p) {
                                assert(any_marked(m));
                            }
                        }
                    }
                }
            },
        }
        self.fov = Some(m);
        self.seen_from = from;
    }

    /// Makes `m` the view and adds it to the memory: every cell that `m`
    /// marks is known from now on. The view belongs to no known position, so
    /// the next `refresh` computes it anew.
    pub fn set_fov(&mut self, m: Matrix<bool>)
        requires
            old(self).fits_memory(m.spec_dim()),
        ensures
            final(self).spec_fov() == Some(m),
            final(self).spec_state() == FovState::NoFovYet,
            final(self).spec_radius() == old(self).spec_radius(),
            remembers(old(self).spec_memory(), m, final(self).spec_memory()),
    {
        self.store(m, None);
    }

    /// Brings the view up to date for a viewer at `pos`. If the view was
    /// computed for `pos`, nothing changes and the answer is `false`. If
    /// not, the view is computed, cached for `pos` and added to the memory,
    /// and the answer is `true`.
    pub fn refresh(&mut self, level: &LevelInfo, pos: Pos) -> (recomputed: bool)
        requires
            old(self).fits_memory(level.spec_dim()),
        ensures
            recomputed == (old(self).spec_state() != FovState::Cached(pos)),
            !recomputed ==> *final(self) == *old(self),
            final(self).spec_state() == FovState::Cached(pos),
            final(self).spec_radius() == old(self).spec_radius(),
            recomputed ==> {
                &&& final(self).spec_fov() matches Some(mask)
                &&& mask.spec_dim() == level.spec_dim()
                &&& mask.shaped()
                &&& forall|p: Pos|
                    level.has(p) ==> #[trigger] mask.at(p) == sees(
                        *level,
                        pos,
                        old(self).spec_radius(),
                        p,
                    )
                &&& remembers(old(self).spec_memory(), mask, final(self).spec_memory())
            },
    {
        let is_cache_valid = match self.state() {
            FovState::Cached(known_pos) => known_pos == pos,
            FovState::NoFovYet => false,
        };
        if is_cache_valid {
            false
        } else {
            let new_fov = calculate_fov(level, pos, self.radius);
            self.store(new_fov, Some(pos));
            true
        }
    }
}

/// The step of a turn that keeps the views of all viewers up to date.
#[derive(Debug, Default)]
pub struct Fov;

impl Fov {
    /// Brings the view of one viewer who stands at `pos` up to date: it is
    /// computed if and only if it was not computed for `pos` before.
    pub fn run(&mut self, level: &LevelInfo, pos: Pos, vis: &mut HasVision) -> (recomputed: bool)
        requires
            old(vis).fits_memory(level.spec_dim()),
        ensures
            recomputed == (old(vis).spec_state() != FovState::Cached(pos)),
            !recomputed ==> *final(vis) == *old(vis),
            final(vis).spec_state() == FovState::Cached(pos),
            final(vis).spec_radius() == old(vis).spec_radius(),
            recomputed ==> {
                &&& final(vis).spec_fov() matches Some(mask)
                &&& mask.spec_dim() == level.spec_dim()
                &&& forall|p: Pos|
                    level.has(p) ==> #[trigger] mask.at(p) == sees(
                        *level,
                        pos,
                        old(vis).spec_radius(),
                        p,
                    )
                &&& remembers(old(vis).spec_memory(), mask, final(vis).spec_memory())
            },
    {
        vis.refresh(level, pos)
    }
}

/// Whether `memories` is the course of a memory to which the views `masks`
/// were added one after another.
pub open spec fn remembered_in_turn(
    memories: Seq<Option<Matrix<bool>>>,
    masks: Seq<Matrix<bool>>,
) -> bool {
    &&& memories.len() == masks.len() + 1
    &&& forall|i: int|
        0 <= i < masks.len() ==> #[trigger] remembers(memories[i], masks[i], memories[i + 1])
}

/// After any number of views have been added to a memory that was empty,
/// the memory knows exactly the cells that were in one of the views: it is
/// the union of the views, and nothing that was seen is forgotten.
pub proof fn lemma_memory_is_union(
    memories: Seq<Option<Matrix<bool>>>,
    masks: Seq<Matrix<bool>>,
    p: Pos,
)
    requires
        remembered_in_turn(memories, masks),
        memories[0] is None,
        forall|i: int| 0 <= i < masks.len() ==> (#[trigger] masks[i]).has(p),
    ensures
        marked_in(memories.last(), p) <==> exists|i: int|
            0 <= i < masks.len() && marked(#[trigger] masks[i], p),
    decreases masks.len(),
{
    if masks.len() > 0 {
        let n = masks.len() - 1;
        let front_memories = memories.drop_last();
        let front_masks = masks.drop_last();
        assert forall|i: int| 0 <= i < front_masks.len() implies #[trigger] remembers(
            front_memories[i],
            front_masks[i],
            front_memories[i + 1],
        ) by {
            assert(remembers(memories[i], masks[i], memories[i + 1]));
        }
        assert forall|i: int| 0 <= i < front_masks.len() implies (#[trigger] front_masks[i]).has(
            p,
        ) by {
            assert(masks[i].has(p));
        }
        lemma_memory_is_union(front_memories, front_masks, p);
        assert(front_memories.last() == memories[n]);
        assert(remembers(memories[n], masks[n], memories[n + 1]));
        assert(masks[n].has(p));
        assert(marked_in(memories[n + 1], p) <==> marked_in(memories[n], p) || marked(
            masks[n],
            p,
        ));
        if exists|i: int| 0 <= i < front_masks.len() && marked(#[trigger] front_masks[i], p) {
            let i = choose|i: int|
                0 <= i < front_masks.len() && marked(#[trigger] front_masks[i], p);
            assert(marked(masks[i], p));
        }
        if exists|i: int| 0 <= i < masks.len() && marked(#[trigger] masks[i], p) {
            let i = choose|i: int| 0 <= i < masks.len() && marked(#[trigger] masks[i], p);
            if i < n {
                assert(marked(front_masks[i], p));
            }
        }
    }
}

} // verus!
