//! Rectangular rooms and the wall ring around them.

use vstd::prelude::*;
use crate::dim::Dim;
use crate::level_data::HasWall;
use crate::pos::collect_column_major;
use crate::pos::column_major;
use crate::pos::DimIndex;
use crate::pos::lemma_column_major_contains;
use crate::pos::lemma_column_major_no_duplicates;
use crate::pos::Pos;
use crate::pos::PosCollection;

verus! {

/// An axis-aligned rectangular chamber, given by its north-west corner `from`
/// and its south-east corner `to`; both corners belong to the room.
///
/// A room may reach the last coordinate. Its wall ring lies one cell further
/// out, so only a room that ends before the last coordinate has one.
#[derive(Debug, Clone, Copy, PartialEq, Eq, Structural)]
pub struct Room {
    pub from: Pos,
    pub to: Pos,
}

impl Room {
    /// What holds of every room that `new` builds: it keeps one cell of
    /// distance from the north and the west border, and `from` lies strictly
    /// north-west of `to`.
    pub open spec fn wf(self) -> bool {
        &&& 0 < self.from.x < self.to.x
        &&& 0 < self.from.y < self.to.y
    }

    /// Whether the room has a wall ring: it is well-formed, and one more
    /// cell fits south and east of `to`.
    pub open spec fn has_ring(self) -> bool {
        &&& self.wf()
        &&& self.to.x < DimIndex::MAX
        &&& self.to.y < DimIndex::MAX
    }

    /// Whether `p` lies in the room, corners and edges included.
    pub open spec fn spec_contains(self, p: Pos) -> bool {
        self.from.x <= p.x <= self.to.x && self.from.y <= p.y <= self.to.y
    }

    /// Whether `p` lies in the room grown by one cell on every side.
    pub open spec fn spec_contains_or_touches(self, p: Pos) -> bool {
        self.from.x - 1 <= p.x <= self.to.x + 1 && self.from.y - 1 <= p.y <= self.to.y + 1
    }

    /// Whether `p` is a wall cell of the room: it touches the room and is
    /// not inside it.
    pub open spec fn is_wall(self, p: Pos) -> bool {
        self.spec_contains_or_touches(p) && !self.spec_contains(p)
    }

    /// Whether the two rooms overlap or touch: on both axes neither room ends
    /// more than one cell before the other begins.
    pub open spec fn spec_intersects(self, other: Room) -> bool {
        &&& self.to.x >= other.from.x - 1
        &&& other.to.x >= self.from.x - 1
        &&& self.to.y >= other.from.y - 1
        &&& other.to.y >= self.from.y - 1
    }

    /// The midpoint of the room: each coordinate is the mean of the two
    /// corners' coordinates, rounded down.
    pub open spec fn spec_center(self) -> Pos {
        Pos {
            x: ((self.from.x + self.to.x) / 2) as DimIndex,
            y: ((self.from.y + self.to.y) / 2) as DimIndex,
        }
    }

    /// The `i`-th wall cell. First come the columns from one west of the room
    /// to one east of it, for each the cell north of the room and then the
    /// cell south of it; then the rows of the room, for each the cell west of
    /// the room and then the cell east of it.
    pub open spec fn ring_cell(self, i: int) -> Pos {
        let a = 2 * (self.to.x - self.from.x + 3);
        if i < a {
            Pos {
                x: (self.from.x - 1 + i / 2) as DimIndex,
                y: if i % 2 == 0 {
                    (self.from.y - 1) as DimIndex
                } else {
                    (self.to.y + 1) as DimIndex
                },
            }
        } else {
            Pos {
                x: if (i - a) % 2 == 0 {
                    (self.from.x - 1) as DimIndex
                } else {
                    (self.to.x + 1) as DimIndex
                },
                y: (self.from.y + (i - a) / 2) as DimIndex,
            }
        }
    }

    /// The number of wall cells.
    pub open spec fn ring_len(self) -> int {
        2 * (self.to.x - self.from.x + 3) + 2 * (self.to.y - self.from.y + 1)
    }

    /// The room whose north-west corner is `from` and whose south-east corner
    /// lies `dim` further: `to = from + dim`. The room keeps off the north
    /// and the west border, has a positive width and height, and ends within
    /// the range of coordinates.
    pub fn new(from: Pos, dim: Dim) -> (r: Room)
        requires
            from.x > 0,
            from.y > 0,
            dim.width > 0,
            dim.height > 0,
            from.x + dim.width <= DimIndex::MAX,
            from.y + dim.height <= DimIndex::MAX,
        ensures
            r.from == from,
            r.to.x == from.x + dim.width,
            r.to.y == from.y + dim.height,
            r.wf(),
    {
        Room { from, to: Pos { x: from.x + dim.width, y: from.y + dim.height } }
    }

    /// The midpoint of the room.
    pub fn center(&self) -> (r: Pos)
        ensures
            r == self.spec_center(),
    {
        let x: u16 = (self.from.x as u16 + self.to.x as u16) / 2;
        let y: u16 = (self.from.y as u16 + self.to.y as u16) / 2;
        Pos { x: x as DimIndex, y: y as DimIndex }
    }

    /// Whether `p` lies in the room.
    pub fn contains(&self, p: Pos) -> (r: bool)
        ensures
            r == self.spec_contains(p),
    {
        self.from.x <= p.x && self.to.x >= p.x && self.from.y <= p.y && self.to.y >= p.y
    }

    /// Whether `p` lies in the room or next to it, diagonally included.
    pub fn contains_or_touches(&self, p: Pos) -> (r: bool)
        ensures
            r == self.spec_contains_or_touches(p),
    {
        let x: u16 = p.x as u16;
        let y: u16 = p.y as u16;
        self.from.x as u16 <= x + 1 && self.to.x as u16 + 1 >= x && self.from.y as u16 <= y + 1
            && self.to.y as u16 + 1 >= y
    }

    /// Whether `other` comes so close that the two rooms overlap or touch.
    /// Rooms that do not intersect keep at least one cell between them.
    pub fn intersects(&self, other: &Room) -> (r: bool)
        ensures
            r == self.spec_intersects(*other),
    {
        (self.to.x as u16 + 1 >= other.from.x as u16) && (other.to.x as u16 + 1
            >= self.from.x as u16) && (self.to.y as u16 + 1 >= other.from.y as u16) && (
        other.to.y as u16 + 1 >= self.from.y as u16)
    }

    /// The distance between the west and the east edge.
    pub fn width(&self) -> (r: DimIndex)
        requires
            self.from.x <= self.to.x,
        ensures
            r == self.to.x - self.from.x,
    {
        self.to.x - self.from.x
    }

    /// The distance between the north and the south edge.
    pub fn height(&self) -> (r: DimIndex)
        requires
            self.from.y <= self.to.y,
        ensures
            r == self.to.y - self.from.y,
    {
        self.to.y - self.from.y
    }

    /// The north-west corner.
    pub fn nw_corner(&self) -> (r: Pos)
        ensures
            r == self.from,
    {
        self.from
    }

    /// The south-west corner.
    pub fn sw_corner(&self) -> (r: Pos)
        ensures
            r == (Pos { x: self.from.x, y: self.to.y }),
    {
        Pos { x: self.from.x, y: self.to.y }
    }

    /// The north-east corner.
    pub fn ne_corner(&self) -> (r: Pos)
        ensures
            r == (Pos { x: self.to.x, y: self.from.y }),
    {
        Pos { x: self.to.x, y: self.from.y }
    }

    /// The south-east corner.
    pub fn se_corner(&self) -> (r: Pos)
        ensures
            r == self.to,
    {
        self.to
    }

    /// The four corners: north-east, north-west, south-east, south-west.
    pub fn corners(&self) -> (r: [Pos; 4])
        ensures
            r@ == seq![
                Pos { x: self.to.x, y: self.from.y },
                self.from,
                self.to,
                Pos { x: self.from.x, y: self.to.y },
            ],
    {
        let r = [self.ne_corner(), self.nw_corner(), self.se_corner(), self.sw_corner()];
        assert(r@ =~= seq![
            Pos { x: self.to.x, y: self.from.y },
            self.from,
            self.to,
            Pos { x: self.from.x, y: self.to.y },
        ]);
        r
    }
}

impl PosCollection for Room {
    /// The cells of the room, column by column from west to east.
    open spec fn positions(&self) -> Seq<Pos> {
        if self.from.x <= self.to.x && self.from.y <= self.to.y {
            column_major(
                self.from.x as int,
                self.from.y as int,
                self.to.x - self.from.x + 1,
                self.to.y - self.from.y + 1,
            )
        } else {
            Seq::empty()
        }
    }

    fn iter_pos(&self) -> (r: Vec<Pos>) {
        if self.from.x <= self.to.x && self.from.y <= self.to.y {
            let w: usize = (self.to.x - self.from.x) as usize + 1;
            let h: usize = (self.to.y - self.from.y) as usize + 1;
            collect_column_major(self.from, w, h)
        } else {
            Vec::new()
        }
    }
}

impl HasWall for Room {
    /// The ring of cells exactly one step outside the room, the four cells
    /// diagonal to its corners included.
    open spec fn wall_ring(&self) -> Seq<Pos> {
        Seq::new(self.ring_len() as nat, |i: int| self.ring_cell(i))
    }

    /// A room can hand out its walls if it has a ring.
    open spec fn ringed(&self) -> bool {
        self.has_ring()
    }

    fn walls(&self) -> (r: Vec<Pos>) {
        let mut walls: Vec<Pos> = Vec::new();
        let north: DimIndex = self.from.y - 1;
        let south: DimIndex = self.to.y + 1;
        let west: DimIndex = self.from.x - 1;
        let east: DimIndex = self.to.x + 1;
        let columns: u16 = (east - west) as u16;
        let mut dx: u16 = 0;
        while dx <= columns
            invariant
                self.has_ring(),
                north == self.from.y - 1,
                south == self.to.y + 1,
                west == self.from.x - 1,
                columns == self.to.x - self.from.x + 2,
                dx <= columns + 1,
                walls@.len() == 2 * dx,
                forall|k: int| 0 <= k < walls@.len() ==> walls@[k] == self.ring_cell(k),
            decreases columns + 1 - dx,
        {
            walls.push(Pos { x: west + (dx as DimIndex), y: north });
            walls.push(Pos { x: west + (dx as DimIndex), y: south });
            dx += 1;
        }
        let rows: u16 = (self.to.y - self.from.y) as u16;
        let mut dy: u16 = 0;
        while dy <= rows
            invariant
                self.has_ring(),
                west == self.from.x - 1,
                east == self.to.x + 1,
                rows == self.to.y - self.from.y,
                dy <= rows + 1,
                walls@.len() == 2 * (self.to.x - self.from.x + 3) + 2 * dy,
                forall|k: int| 0 <= k < walls@.len() ==> walls@[k] == self.ring_cell(k),
            decreases rows + 1 - dy,
        {
            walls.push(Pos { y: self.from.y + (dy as DimIndex), x: west });
            walls.push(Pos { y: self.from.y + (dy as DimIndex), x: east });
            dy += 1;
        }
        assert(walls@ =~= self.wall_ring());
        walls
    }
}

/// The centre and both corners of a room lie in the room.
pub proof fn lemma_room_contains_center_and_corners(r: Room)
    requires
        r.wf(),
    ensures
        r.spec_contains(r.spec_center()),
        r.spec_contains(r.from),
        r.spec_contains(r.to),
{
}

/// The cells that `iter_pos` lists are exactly the cells that the room
/// contains, each once.
pub proof fn lemma_room_positions(r: Room, p: Pos)
    requires
        r.wf(),
    ensures
        r.positions().contains(p) <==> r.spec_contains(p),
        r.positions().no_duplicates(),
        r.positions().len() == (r.to.x - r.from.x + 1) * (r.to.y - r.from.y + 1),
{
    lemma_column_major_contains(
        p,
        r.from.x as int,
        r.from.y as int,
        r.to.x - r.from.x + 1,
        r.to.y - r.from.y + 1,
    );
    lemma_column_major_no_duplicates(
        r.from.x as int,
        r.from.y as int,
        r.to.x - r.from.x + 1,
        r.to.y - r.from.y + 1,
    );
}

/// The wall ring holds exactly the cells that touch the room without lying
/// in it.
pub proof fn lemma_wall_ring_cells(r: Room, p: Pos)
    requires
        r.has_ring(),
    ensures
        r.wall_ring().contains(p) <==> r.is_wall(p),
{
    let ring = r.wall_ring();
    let a = 2 * (r.to.x - r.from.x + 3);
    if ring.contains(p) {
        let i = choose|i: int| 0 <= i < ring.len() && ring[i] == p;
        assert(p == r.ring_cell(i));
    }
    if r.is_wall(p) {
        let i = if p.y == r.from.y - 1 {
            2 * (p.x - (r.from.x - 1))
        } else if p.y == r.to.y + 1 {
            2 * (p.x - (r.from.x - 1)) + 1
        } else if p.x == r.from.x - 1 {
            a + 2 * (p.y - r.from.y)
        } else {
            a + 2 * (p.y - r.from.y) + 1
        };
        assert(0 <= i < ring.len());
        assert(ring[i] == p);
    }
}

/// The wall ring is not empty and no cell occurs twice in it.
pub proof fn lemma_wall_ring_distinct(r: Room)
    requires
        r.has_ring(),
    ensures
        r.wall_ring().len() >= 8,
        r.wall_ring().no_duplicates(),
{
    let ring = r.wall_ring();
    assert forall|i: int, j: int| 0 <= i < ring.len() && 0 <= j < ring.len() && i != j implies ring[i]
        != ring[j] by {
        assert(ring[i] == r.ring_cell(i));
        assert(ring[j] == r.ring_cell(j));
    }
}

/// The cells of a room and the cells of its wall ring are disjoint, and
/// every wall cell touches the room without lying in it.
pub proof fn lemma_interior_and_walls_disjoint(r: Room)
    requires
        r.has_ring(),
    ensures
        forall|p: Pos| !(r.positions().contains(p) && r.wall_ring().contains(p)),
        forall|p: Pos|
            r.wall_ring().contains(p) ==> r.spec_contains_or_touches(p) && !r.spec_contains(p),
{
    assert forall|p: Pos| !(r.positions().contains(p) && r.wall_ring().contains(p)) by {
        lemma_room_positions(r, p);
        lemma_wall_ring_cells(r, p);
    }
    assert forall|p: Pos| r.wall_ring().contains(p) implies r.spec_contains_or_touches(p)
        && !r.spec_contains(p) by {
        lemma_wall_ring_cells(r, p);
    }
}

/// Two rooms intersect exactly if some cell of the first lies in or next to
/// the second, and exactly if some cell of the second lies in or next to the
/// first.
pub proof fn lemma_intersects_iff_touching_cell(r1: Room, r2: Room)
    requires
        r1.wf(),
        r2.wf(),
    ensures
        r1.spec_intersects(r2) <==> exists|p: Pos|
            r1.positions().contains(p) && r2.spec_contains_or_touches(p),
        r1.spec_intersects(r2) <==> exists|p: Pos|
            r2.positions().contains(p) && r1.spec_contains_or_touches(p),
        r1.spec_intersects(r2) == r2.spec_intersects(r1),
{
    lemma_touching_cell(r1, r2);
    lemma_touching_cell(r2, r1);
}

/// One direction of the law above: `a` intersects `b` exactly if some cell of
/// `a` lies in or next to `b`.
proof fn lemma_touching_cell(a: Room, b: Room)
    requires
        a.wf(),
        b.wf(),
    ensures
        a.spec_intersects(b) <==> exists|p: Pos|
            a.positions().contains(p) && b.spec_contains_or_touches(p),
{
    if a.spec_intersects(b) {
        let x = if a.from.x >= b.from.x - 1 {
            a.from.x
        } else {
            (b.from.x - 1) as DimIndex
        };
        let y = if a.from.y >= b.from.y - 1 {
            a.from.y
        } else {
            (b.from.y - 1) as DimIndex
        };
        let p = Pos { x, y };
        lemma_room_positions(a, p);
        assert(a.positions().contains(p) && b.spec_contains_or_touches(p));
    }
    if exists|p: Pos| a.positions().contains(p) && b.spec_contains_or_touches(p) {
        let p = choose|p: Pos| a.positions().contains(p) && b.spec_contains_or_touches(p);
        lemma_room_positions(a, p);
    }
}

/// Rooms that do not intersect have different centres, and no cell of one is
/// a cell or a wall cell of the other.
pub proof fn lemma_separate_rooms(r1: Room, r2: Room)
    requires
        r1.wf(),
        r2.wf(),
        !r1.spec_intersects(r2),
    ensures
        r1.spec_center() != r2.spec_center(),
        forall|p: Pos| r1.spec_contains(p) ==> !r2.spec_contains_or_touches(p),
{
    lemma_room_contains_center_and_corners(r1);
    lemma_room_contains_center_and_corners(r2);
}

} // verus!
