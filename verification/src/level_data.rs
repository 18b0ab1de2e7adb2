//! Tiles and the level: a grid of tiles.

use vstd::prelude::*;
use core::ops::Index;
use crate::dim::Dim;
use crate::dim::HasDim;
use crate::matrix::is_default;
use crate::matrix::GridError;
use crate::matrix::Matrix;
use crate::matrix::MatrixIter;
use crate::pos::DimIndex;
use crate::pos::Pos;
use crate::pos::PosCollection;

verus! {

/// What a cell of a level is made of.
#[derive(Debug, Clone, Copy, PartialEq, Eq, Structural)]
pub enum TileType {
    /// Solid rock: what a level is filled with before anything is carved.
    Wall,
    /// Open floor.
    Ground,
    /// The wall that rings a room.
    RoomWall,
}

/// Something that occupies a cell and may be in the way of feet or of eyes.
pub trait CellObject {
    /// Whether an actor can stand on the cell.
    spec fn walkable(&self) -> bool;

    /// Whether the cell hides what lies behind it.
    spec fn opaque(&self) -> bool;

    /// Whether an actor can stand on the cell.
    fn is_walkable(&self) -> (r: bool)
        ensures
            r == self.walkable(),
    ;

    /// Whether the cell hides what lies behind it.
    fn blocks_sight(&self) -> (r: bool)
        ensures
            r == self.opaque(),
    ;
}

impl CellObject for TileType {
    /// Only open floor can be walked on.
    open spec fn walkable(&self) -> bool {
        *self == TileType::Ground
    }

    /// Everything but open floor blocks sight.
    open spec fn opaque(&self) -> bool {
        *self != TileType::Ground
    }

    fn is_walkable(&self) -> (r: bool) {
        match self {
            TileType::Wall => false,
            TileType::RoomWall => false,
            TileType::Ground => true,
        }
    }

    fn blocks_sight(&self) -> (r: bool) {
        match self {
            TileType::Wall => true,
            TileType::RoomWall => true,
            TileType::Ground => false,
        }
    }
}

impl Default for TileType {
    fn default() -> (r: TileType)
        ensures
            r == TileType::Wall,
    {
        TileType::Wall
    }
}

/// Something with a ring of wall cells around it.
pub trait HasWall {
    /// The wall cells, in the order in which `walls` hands them out.
    spec fn wall_ring(&self) -> Seq<Pos>;

    /// What `walls` needs of the value.
    spec fn ringed(&self) -> bool;

    /// The wall cells.
    fn walls(&self) -> (r: Vec<Pos>)
        requires
            self.ringed(),
        ensures
            r@ == self.wall_ring(),
    ;
}

/// A level: a grid of tiles.
#[derive(Debug)]
pub struct LevelInfo {
    data: Matrix<TileType>,
}

impl Clone for LevelInfo {
    /// A level of the same extents with the same tiles.
    fn clone(&self) -> (r: Self)
        ensures
            r.spec_dim() == self.spec_dim(),
            r.grid()@ == self.grid()@,
    {
        let data = self.data.clone();
        assert(data@ =~= self.data@);
        LevelInfo { data }
    }
}

impl HasDim for LevelInfo {
    open spec fn spec_width(&self) -> DimIndex {
        self.grid().spec_width()
    }

    open spec fn spec_height(&self) -> DimIndex {
        self.grid().spec_height()
    }

    fn width(&self) -> (r: DimIndex) {
        self.data.width()
    }

    fn height(&self) -> (r: DimIndex) {
        self.data.height()
    }
}

impl LevelInfo {
    /// The grid of tiles.
    pub closed spec fn grid(self) -> Matrix<TileType> {
        self.data
    }

    /// The extents of the level.
    pub open spec fn spec_dim(self) -> Dim {
        self.grid().spec_dim()
    }

    /// Whether `p` addresses a cell of the level.
    pub open spec fn has(self, p: Pos) -> bool {
        self.grid().has(p)
    }

    /// The tile at `p`.
    pub open spec fn at(self, p: Pos) -> TileType {
        self.grid().at(p)
    }

    /// A level of `width` by `height` cells of solid rock.
    pub fn new(width: DimIndex, height: DimIndex) -> (r: Self)
        requires
            width > 0,
            height > 0,
        ensures
            r.spec_dim() == (Dim { width, height }),
            r.grid().shaped(),
            forall|p: Pos| r.has(p) ==> #[trigger] r.at(p) == TileType::Wall,
    {
        let data: Matrix<TileType> = Matrix::new(width, height);
        assert forall|p: Pos| data.has(p) implies #[trigger] data.at(p) == TileType::Wall by {
            assert(is_default(data.at(p)));
        }
        Self::from_matrix(data)
    }

    /// A level of `width` by `height` cells of solid rock, or the reason why
    /// there is no such level: an extent of zero.
    pub fn try_new(width: DimIndex, height: DimIndex) -> (r: Result<Self, GridError>)
        ensures
            width == 0 ==> r == Err::<Self, GridError>(GridError::ZeroWidth),
            width > 0 && height == 0 ==> r == Err::<Self, GridError>(GridError::ZeroHeight),
            width > 0 && height > 0 ==> r is Ok,
            r matches Ok(l) ==> {
                &&& l.spec_dim() == (Dim { width, height })
                &&& l.grid().shaped()
                &&& forall|p: Pos| l.has(p) ==> #[trigger] l.at(p) == TileType::Wall
            },
    {
        if width == 0 {
            Err(GridError::ZeroWidth)
        } else if height == 0 {
            Err(GridError::ZeroHeight)
        } else {
            Ok(Self::new(width, height))
        }
    }

    /// The level whose tiles are those of `data`.
    pub fn from_matrix(data: Matrix<TileType>) -> (r: Self)
        ensures
            r.grid() == data,
    {
        LevelInfo { data }
    }

    /// A level with extents `dim`, all solid rock.
    pub fn with_dim(dim: Dim) -> (r: Self)
        requires
            dim.width > 0,
            dim.height > 0,
        ensures
            r.spec_dim() == dim,
            r.grid().shaped(),
            forall|p: Pos| r.has(p) ==> #[trigger] r.at(p) == TileType::Wall,
    {
        Self::new(dim.width, dim.height)
    }

    /// The number of columns.
    pub fn width(&self) -> (r: DimIndex)
        ensures
            r == self.spec_dim().width,
            r > 0,
    {
        self.data.width()
    }

    /// The number of rows.
    pub fn height(&self) -> (r: DimIndex)
        ensures
            r == self.spec_dim().height,
            r > 0,
    {
        self.data.height()
    }

    /// A cursor over all tiles with their positions, row by row.
    pub fn all_cells(&self) -> (it: MatrixIter<'_, TileType>)
        ensures
            it.grid() == self.grid(),
            it.cursor() == 0,
    {
        self.data.iter()
    }

    /// Whether `p` addresses a cell of the level.
    pub fn is_valid(&self, p: Pos) -> (r: bool)
        ensures
            r == self.has(p),
    {
        self.data.is_valid(p)
    }

    /// The extents of the level.
    pub fn dim(&self) -> (r: Dim)
        ensures
            r == self.spec_dim(),
            self.grid().shaped(),
    {
        self.data.dim()
    }

    /// The south-east corner of the level.
    pub fn max_pos(&self) -> (r: Pos)
        ensures
            r.x == self.spec_dim().width - 1,
            r.y == self.spec_dim().height - 1,
            self.has(r),
    {
        self.dim().max_pos()
    }

    /// The tile at the valid position `p`.
    pub fn get(&self, p: Pos) -> (r: TileType)
        requires
            self.has(p),
        ensures
            r == self.at(p),
    {
        *self.data.get(p)
    }

    /// The tile at `p`, or `None` if `p` addresses no cell of the level.
    pub fn try_get(&self, p: Pos) -> (r: Option<TileType>)
        ensures
            r == if self.has(p) {
                Some(self.at(p))
            } else {
                None
            },
    {
        if self.is_valid(p) {
            Some(self.get(p))
        } else {
            None
        }
    }

    /// Replaces the tile at `p` if `p` addresses a cell of the level, and
    /// says whether it does. Nothing changes if it does not.
    pub fn try_set(&mut self, p: Pos, tile: TileType) -> (done: bool)
        ensures
            done == old(self).has(p),
            final(self).spec_dim() == old(self).spec_dim(),
            done ==> final(self).at(p) == tile,
            !done ==> final(self).grid()@ == old(self).grid()@,
            forall|q: Pos|
                old(self).has(q) && q != p ==> #[trigger] final(self).at(q) == old(self).at(q),
    {
        self.data.try_set(p, tile)
    }

    /// Replaces the tile at the valid position `p` and leaves every other
    /// tile and the extents as they were.
    pub fn set(&mut self, p: Pos, tile: TileType)
        requires
            old(self).has(p),
        ensures
            final(self).spec_dim() == old(self).spec_dim(),
            final(self).grid().shaped(),
            final(self).at(p) == tile,
            forall|q: Pos|
                old(self).has(q) && q != p ==> #[trigger] final(self).at(q) == old(self).at(q),
    {
        self.data.set(p, tile);
    }
}

impl vstd::std_specs::core::IndexSpecImpl<Pos> for LevelInfo {
    open spec fn index_req(&self, p: &Pos) -> bool {
        self.has(*p)
    }
}

impl Index<Pos> for LevelInfo {
    type Output = TileType;

    /// The tile at the valid position `p`.
    fn index(&self, p: Pos) -> (r: &TileType)
        ensures
            *r == self.at(p),
    {
        self.data.get(p)
    }
}

impl PosCollection for LevelInfo {
    /// Every position of the level, row by row.
    open spec fn positions(&self) -> Seq<Pos> {
        self.grid().positions()
    }

    fn iter_pos(&self) -> (r: Vec<Pos>) {
        self.data.iter_pos()
    }
}

} // verus!
