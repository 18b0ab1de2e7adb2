//! L-shaped corridors: one horizontal and one vertical leg.

use vstd::prelude::*;
use crate::pos::DimIndex;
use crate::pos::Pos;
use crate::pos::PosCollection;

verus! {

/// The smaller of two coordinates.
pub open spec fn low(a: DimIndex, b: DimIndex) -> DimIndex {
    if a <= b {
        a
    } else {
        b
    }
}

/// The larger of two coordinates.
pub open spec fn high(a: DimIndex, b: DimIndex) -> DimIndex {
    if a <= b {
        b
    } else {
        a
    }
}

/// The straight run of cells between the coordinates `a` and `b`, in rising
/// order: along a row (`along_x`) the other coordinate `fixed` is the row,
/// along a column it is the column.
pub open spec fn leg(a: DimIndex, b: DimIndex, fixed: DimIndex, along_x: bool) -> Seq<Pos> {
    Seq::new(
        (high(a, b) - low(a, b) + 1) as nat,
        |i: int|
            if along_x {
                Pos { x: (low(a, b) + i) as DimIndex, y: fixed }
            } else {
                Pos { x: fixed, y: (low(a, b) + i) as DimIndex }
            },
    )
}

/// A one-bend connection between two different cells.
///
/// The horizontal leg runs along the row of `from`, the vertical leg along
/// the column of `to`; they meet in the corner `(to.x, from.y)`.
/// `horizontal_first` records which leg a renderer should draw first; it has
/// no influence on which cells belong to the corridor.
#[derive(Debug, Clone, Copy, PartialEq, Eq, Structural)]
pub struct LCorridor {
    pub from: Pos,
    pub to: Pos,
    pub horizontal_first: bool,
}

impl LCorridor {
    /// What holds of every corridor that `new` builds: its ends differ.
    pub open spec fn wf(self) -> bool {
        self.from != self.to
    }

    /// The cell in which the two legs meet.
    pub open spec fn corner(self) -> Pos {
        Pos { x: self.to.x, y: self.from.y }
    }

    /// The horizontal leg, from west to east.
    pub open spec fn horizontal_leg(self) -> Seq<Pos> {
        leg(self.from.x, self.to.x, self.from.y, true)
    }

    /// The vertical leg, from north to south.
    pub open spec fn vertical_leg(self) -> Seq<Pos> {
        leg(self.from.y, self.to.y, self.to.x, false)
    }

    /// Whether `p` lies on one of the two legs.
    pub open spec fn covers(self, p: Pos) -> bool {
        ||| p.y == self.from.y && low(self.from.x, self.to.x) <= p.x <= high(
            self.from.x,
            self.to.x,
        )
        ||| p.x == self.to.x && low(self.from.y, self.to.y) <= p.y <= high(self.from.y, self.to.y)
    }

    /// Whether `p` lies in the smallest rectangle that holds both ends.
    pub open spec fn in_bounding_box(self, p: Pos) -> bool {
        &&& low(self.from.x, self.to.x) <= p.x <= high(self.from.x, self.to.x)
        &&& low(self.from.y, self.to.y) <= p.y <= high(self.from.y, self.to.y)
    }

    /// The corridor between the two different cells `from` and `to`.
    pub fn new(from: Pos, to: Pos, horizontal_first: bool) -> (r: LCorridor)
        requires
            from != to,
        ensures
            r == (LCorridor { from, to, horizontal_first }),
            r.wf(),
    {
        LCorridor { from, to, horizontal_first }
    }
}

/// Appends the straight run of cells between the coordinates `a` and `b`.
fn push_leg(cells: &mut Vec<Pos>, a: DimIndex, b: DimIndex, fixed: DimIndex, along_x: bool)
    ensures
        final(cells)@ == old(cells)@ + leg(a, b, fixed, along_x),
{
    let start: DimIndex = if a <= b { a } else { b };
    let end: DimIndex = if a <= b { b } else { a };
    let count: u16 = (end - start) as u16 + 1;
    let ghost before = cells@;
    let ghost run = leg(a, b, fixed, along_x);
    let mut i: u16 = 0;
    while i < count
        invariant
            start == low(a, b),
            end == high(a, b),
            count == end - start + 1,
            i <= count,
            run == leg(a, b, fixed, along_x),
            cells@ == before + run.subrange(0, i as int),
        decreases count - i,
    {
        let c: DimIndex = start + (i as DimIndex);
        let p = if along_x { Pos { x: c, y: fixed } } else { Pos { x: fixed, y: c } };
        assert(p == run[i as int]);
        cells.push(p);
        assert(run.subrange(0, i as int).push(run[i as int]) =~= run.subrange(0, i + 1));
        assert(cells@ =~= before + run.subrange(0, i + 1));
        i += 1;
    }
    assert(run.subrange(0, count as int) =~= run);
}

impl PosCollection for LCorridor {
    /// The horizontal leg followed by the vertical leg; the corner occurs in
    /// both.
    open spec fn positions(&self) -> Seq<Pos> {
        self.horizontal_leg() + self.vertical_leg()
    }

    fn iter_pos(&self) -> (r: Vec<Pos>) {
        let mut cells: Vec<Pos> = Vec::new();
        push_leg(&mut cells, self.from.x, self.to.x, self.from.y, true);
        push_leg(&mut cells, self.from.y, self.to.y, self.to.x, false);
        assert(cells@ =~= self.positions());
        cells
    }
}

/// The corridor's cells are exactly the cells on its two legs.
pub proof fn lemma_corridor_cells(c: LCorridor, p: Pos)
    ensures
        c.positions().contains(p) <==> c.covers(p),
{
    let h = c.horizontal_leg();
    let v = c.vertical_leg();
    let s = c.positions();
    if s.contains(p) {
        let i = choose|i: int| 0 <= i < s.len() && s[i] == p;
        if i < h.len() {
            assert(s[i] == h[i]);
        } else {
            assert(s[i] == v[i - h.len()]);
        }
    }
    if c.covers(p) {
        if p.y == c.from.y && low(c.from.x, c.to.x) <= p.x <= high(c.from.x, c.to.x) {
            let i = p.x - low(c.from.x, c.to.x);
            assert(s[i] == h[i]);
            assert(s[i] == p);
        } else {
            let j = p.y - low(c.from.y, c.to.y);
            assert(s[h.len() + j] == v[j]);
            assert(s[h.len() + j] == p);
        }
    }
}

/// A corridor is not empty, holds both of its ends, and stays within the
/// smallest rectangle that holds both ends.
pub proof fn lemma_corridor_ends_and_bounds(c: LCorridor)
    requires
        c.wf(),
    ensures
        c.positions().len() >= 2,
        c.positions().contains(c.from),
        c.positions().contains(c.to),
        forall|p: Pos| c.positions().contains(p) ==> c.in_bounding_box(p),
{
    lemma_corridor_cells(c, c.from);
    lemma_corridor_cells(c, c.to);
    assert forall|p: Pos| c.positions().contains(p) implies c.in_bounding_box(p) by {
        lemma_corridor_cells(c, p);
    }
}

/// A corridor has no gaps: along each leg every cell is the direct neighbour
/// of the one before it, the horizontal leg runs from the column of `from`
/// to the corner, the vertical leg from the corner to the row of `to`, and
/// the corner lies on both legs.
pub proof fn lemma_corridor_connected(c: LCorridor)
    ensures
        forall|i: int|
            0 <= i < c.horizontal_leg().len() - 1 ==> {
                &&& (#[trigger] c.horizontal_leg()[i + 1]).x == c.horizontal_leg()[i].x + 1
                &&& c.horizontal_leg()[i + 1].y == c.horizontal_leg()[i].y
            },
        forall|i: int|
            0 <= i < c.vertical_leg().len() - 1 ==> {
                &&& (#[trigger] c.vertical_leg()[i + 1]).y == c.vertical_leg()[i].y + 1
                &&& c.vertical_leg()[i + 1].x == c.vertical_leg()[i].x
            },
        c.horizontal_leg().contains(c.from),
        c.horizontal_leg().contains(c.corner()),
        c.vertical_leg().contains(c.corner()),
        c.vertical_leg().contains(c.to),
{
    let h = c.horizontal_leg();
    let v = c.vertical_leg();
    assert(h[c.from.x - low(c.from.x, c.to.x)] == c.from);
    assert(h[c.to.x - low(c.from.x, c.to.x)] == c.corner());
    assert(v[c.from.y - low(c.from.y, c.to.y)] == c.corner());
    assert(v[c.to.y - low(c.from.y, c.to.y)] == c.to);
}

/// Which leg is drawn first does not change the cells of a corridor.
pub proof fn lemma_leg_order_is_cosmetic(from: Pos, to: Pos)
    ensures
        (LCorridor { from, to, horizontal_first: true }).positions() == (LCorridor {
            from,
            to,
            horizontal_first: false,
        }).positions(),
{
}

} // verus!
