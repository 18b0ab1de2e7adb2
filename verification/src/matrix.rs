//! A dense, bounds-checked grid addressed by position.

use vstd::prelude::*;
use core::ops::Index;
use crate::dim::Dim;
use crate::dim::HasDim;
use crate::pos::collect_row_major;
use crate::pos::DimIndex;
use crate::pos::lemma_index_join;
use crate::pos::lemma_index_split;
use crate::pos::lemma_row_major_no_duplicates;
use crate::pos::Pos;
use crate::pos::PosCollection;
use crate::pos::row_major;

verus! {

/// The largest number of cells a grid can hold: both extents are at most
/// `DimIndex::MAX`.
pub const MAX_CELLS: usize = 65025;

/// Why a grid of the requested extents cannot be built.
#[derive(Debug, Copy, Clone, PartialEq, Eq, Structural)]
pub enum GridError {
    /// The requested width is zero.
    ZeroWidth,
    /// The requested height is zero.
    ZeroHeight,
}

/// The place of cell `p` in the row-major store of a grid `width` cells wide.
pub open spec fn index_of(width: int, p: Pos) -> int {
    p.x + p.y * width
}

/// The cell stored at place `i` in the row-major store of a grid `width`
/// cells wide.
pub open spec fn pos_at(width: int, i: int) -> Pos {
    Pos { x: (i % width) as DimIndex, y: (i / width) as DimIndex }
}

/// Whether `p` addresses a cell of a grid with extents `d`.
pub open spec fn valid_in(d: Dim, p: Pos) -> bool {
    p.x < d.width && p.y < d.height
}

/// Whether `v` is a value that `T::default()` may return.
pub open spec fn is_default<T: Default>(v: T) -> bool {
    call_ensures(T::default, (), v)
}

/// Converting a valid position to its index and back gives the position.
pub proof fn lemma_pos_index_round_trip(d: Dim, p: Pos)
    requires
        valid_in(d, p),
    ensures
        0 <= index_of(d.width as int, p) < d.cells(),
        pos_at(d.width as int, index_of(d.width as int, p)) == p,
{
    lemma_index_join(p.y as int, p.x as int, d.height as int, d.width as int);
    assert(d.height * d.width == d.width * d.height) by (nonlinear_arith);
}

/// Converting an index below the cell count to its position and back gives
/// the index, and the position is valid.
pub proof fn lemma_index_pos_round_trip(d: Dim, i: int)
    requires
        0 <= i < d.cells(),
    ensures
        valid_in(d, pos_at(d.width as int, i)),
        index_of(d.width as int, pos_at(d.width as int, i)) == i,
{
    assert(d.height * d.width == d.width * d.height) by (nonlinear_arith);
    assert(d.width > 0) by (nonlinear_arith)
        requires
            0 <= i < d.width * d.height,
    ;
    lemma_index_split(i, d.height as int, d.width as int);
}

/// The number of cells of any grid is at most `MAX_CELLS`.
pub proof fn lemma_cells_bounded(d: Dim)
    ensures
        0 <= d.cells() <= MAX_CELLS,
{
    assert(0 <= d.width * d.height <= 255 * 255) by (nonlinear_arith)
        requires
            0 <= d.width <= 255,
            0 <= d.height <= 255,
    ;
}

/// A grid of `width` by `height` cells of `T`, stored row by row.
#[derive(Debug)]
pub struct Matrix<T> {
    width: DimIndex,
    height: DimIndex,
    data: Vec<T>,
}

impl<T> View for Matrix<T> {
    type V = Seq<T>;

    /// The cells in row-major order: the cell at `(x, y)` stands at place
    /// `x + y * width`.
    closed spec fn view(&self) -> Seq<T> {
        self.data@
    }
}

impl<T> HasDim for Matrix<T> {
    closed spec fn spec_width(&self) -> DimIndex {
        self.width
    }

    closed spec fn spec_height(&self) -> DimIndex {
        self.height
    }

    fn width(&self) -> (r: DimIndex) {
        self.width
    }

    fn height(&self) -> (r: DimIndex) {
        self.height
    }
}

impl<T> Matrix<T> {
    #[verifier::type_invariant]
    spec fn well_formed(self) -> bool {
        &&& self.width > 0
        &&& self.height > 0
        &&& self.data@.len() == self.width as int * self.height as int
    }

    /// The extents of the grid.
    pub open spec fn spec_dim(self) -> Dim {
        Dim { width: self.spec_width(), height: self.spec_height() }
    }

    /// The content of the cell at `p`.
    pub open spec fn at(self, p: Pos) -> T {
        self@[index_of(self.spec_width() as int, p)]
    }

    /// Whether `p` addresses a cell of this grid.
    pub open spec fn has(self, p: Pos) -> bool {
        valid_in(self.spec_dim(), p)
    }

    /// The cells with their positions, in row-major order.
    pub open spec fn entries(self) -> Seq<(Pos, T)> {
        Seq::new(self@.len(), |i: int| (pos_at(self.spec_width() as int, i), self@[i]))
    }

    /// What holds of every grid: positive extents, and one cell for each
    /// position.
    pub open spec fn shaped(self) -> bool {
        &&& self.spec_width() > 0
        &&& self.spec_height() > 0
        &&& self@.len() == self.spec_dim().cells()
    }

    /// The number of cells of anything that has extents.
    pub fn max_index<D: HasDim>(d: &D) -> (r: usize)
        ensures
            r == d.spec_width() as int * d.spec_height() as int,
    {
        let w: usize = d.width() as usize;
        let h: usize = d.height() as usize;
        assert(w * h <= 255 * 255) by (nonlinear_arith)
            requires
                w <= 255,
                h <= 255,
        ;
        w * h
    }

    /// The position stored at place `i` of a row-major grid with the extents
    /// of `d`.
    pub fn index_to_pos<D: HasDim>(d: &D, i: usize) -> (r: Pos)
        requires
            i < d.spec_width() as int * d.spec_height() as int,
        ensures
            r == pos_at(d.spec_width() as int, i as int),
            r.x < d.spec_width(),
            r.y < d.spec_height(),
    {
        let w: usize = d.width() as usize;
        proof {
            lemma_index_pos_round_trip(
                Dim { width: d.spec_width(), height: d.spec_height() },
                i as int,
            );
        }
        Pos { x: (i % w) as DimIndex, y: (i / w) as DimIndex }
    }

    /// The position stored at place `i` of this grid.
    pub fn to_pos(&self, i: usize) -> (r: Pos)
        requires
            i < self@.len(),
        ensures
            r == pos_at(self.spec_width() as int, i as int),
            self.has(r),
    {
        proof {
            use_type_invariant(self);
        }
        Self::index_to_pos(self, i)
    }

    /// The place of the valid position `pos` in a row-major grid with the
    /// extents of `d`.
    pub fn pos_to_index<D: HasDim>(d: &D, pos: Pos) -> (r: usize)
        requires
            pos.x < d.spec_width(),
            pos.y < d.spec_height(),
        ensures
            r == index_of(d.spec_width() as int, pos),
            r < d.spec_width() as int * d.spec_height() as int,
    {
        let w: usize = d.width() as usize;
        let x: usize = pos.x as usize;
        let y: usize = pos.y as usize;
        proof {
            lemma_pos_index_round_trip(
                Dim { width: d.spec_width(), height: d.spec_height() },
                pos,
            );
            assert(y * w <= 255 * 255) by (nonlinear_arith)
                requires
                    y <= 255,
                    w <= 255,
            ;
        }
        x + y * w
    }

    /// The place of the valid position `pos` in this grid.
    pub fn to_index(&self, pos: Pos) -> (r: usize)
        requires
            self.has(pos),
        ensures
            r == index_of(self.spec_width() as int, pos),
            r < self@.len(),
    {
        proof {
            use_type_invariant(self);
        }
        Self::pos_to_index(self, pos)
    }

    /// The number of rows.
    pub fn height(&self) -> (r: DimIndex)
        ensures
            r == self.spec_height(),
            r > 0,
    {
        proof {
            use_type_invariant(self);
        }
        self.height
    }

    /// The number of columns.
    pub fn width(&self) -> (r: DimIndex)
        ensures
            r == self.spec_width(),
            r > 0,
    {
        proof {
            use_type_invariant(self);
        }
        self.width
    }

    /// The number of cells.
    pub fn len(&self) -> (r: usize)
        ensures
            r == self@.len(),
            r == self.spec_dim().cells(),
            self.shaped(),
    {
        proof {
            use_type_invariant(self);
        }
        self.data.len()
    }

    /// The extents of the grid.
    pub fn dim(&self) -> (r: Dim)
        ensures
            r == self.spec_dim(),
            self.shaped(),
    {
        proof {
            use_type_invariant(self);
        }
        Dim { width: self.width, height: self.height }
    }

    /// The cell at the valid position `pos`.
    pub fn get(&self, pos: Pos) -> (r: &T)
        requires
            self.has(pos),
        ensures
            *r == self.at(pos),
    {
        let i = self.to_index(pos);
        &self.data[i]
    }

    /// Replaces the cell at the valid position `pos` by `value` and leaves
    /// every other cell and the extents as they were.
    pub fn set(&mut self, pos: Pos, value: T)
        requires
            old(self).has(pos),
        ensures
            final(self).spec_dim() == old(self).spec_dim(),
            final(self).shaped(),
            final(self)@ == old(self)@.update(index_of(old(self).spec_width() as int, pos), value),
            final(self).at(pos) == value,
            forall|q: Pos|
                old(self).has(q) && q != pos ==> #[trigger] final(self).at(q) == old(self).at(q),
    {
        proof {
            use_type_invariant(&*self);
        }
        let i = self.to_index(pos);
        self.data[i] = value;
        proof {
            assert forall|q: Pos| old(self).has(q) && q != pos implies #[trigger] self.at(q)
                == old(self).at(q) by {
                lemma_pos_index_round_trip(old(self).spec_dim(), q);
                lemma_pos_index_round_trip(old(self).spec_dim(), pos);
            }
        }
    }

    /// The cell at `pos`, or `None` if `pos` addresses no cell.
    pub fn try_get(&self, pos: Pos) -> (r: Option<&T>)
        ensures
            r is Some == self.has(pos),
            r matches Some(cell) ==> *cell == self.at(pos),
    {
        if self.is_valid(pos) {
            Some(self.get(pos))
        } else {
            None
        }
    }

    /// Replaces the cell at `pos` by `value` if `pos` addresses a cell, and
    /// says whether it does. Nothing changes if it does not.
    pub fn try_set(&mut self, pos: Pos, value: T) -> (done: bool)
        ensures
            done == old(self).has(pos),
            final(self).spec_dim() == old(self).spec_dim(),
            done ==> final(self)@ == old(self)@.update(
                index_of(old(self).spec_width() as int, pos),
                value,
            ),
            done ==> final(self).at(pos) == value,
            !done ==> final(self)@ == old(self)@,
            forall|q: Pos|
                old(self).has(q) && q != pos ==> #[trigger] final(self).at(q) == old(self).at(q),
    {
        if self.is_valid(pos) {
            self.set(pos, value);
            true
        } else {
            false
        }
    }

    /// A cursor over the cells with their positions, in row-major order,
    /// standing before the first cell.
    pub fn iter(&self) -> (it: MatrixIter<'_, T>)
        ensures
            it.grid() == *self,
            it.cursor() == 0,
            self.shaped(),
    {
        proof {
            use_type_invariant(self);
        }
        MatrixIter { next_index: 0, matrix: self }
    }

    /// Builds a grid with extents `dim` whose cell at each position `p` is
    /// what `f` returns for `p`; `f` is called once for each position, row by
    /// row.
    pub fn tabulate<F>(dim: Dim, f: F) -> (r: Matrix<T>) where F: Fn(Pos) -> T
        requires
            dim.width > 0,
            dim.height > 0,
            forall|p: Pos| valid_in(dim, p) ==> #[trigger] call_requires(f, (p,)),
        ensures
            r.spec_dim() == dim,
            r.shaped(),
            forall|p: Pos| valid_in(dim, p) ==> call_ensures(f, (p,), #[trigger] r.at(p)),
            forall|i: int|
                0 <= i < dim.cells() ==> call_ensures(
                    f,
                    (pos_at(dim.width as int, i),),
                    #[trigger] r@[i],
                ),
    {
        let max_index = Self::max_index(&dim);
        let mut v: Vec<T> = Vec::with_capacity(max_index);
        let mut i: usize = 0;
        while i < max_index
            invariant
                i <= max_index,
                max_index == dim.cells(),
                v@.len() == i,
                forall|p: Pos| valid_in(dim, p) ==> #[trigger] call_requires(f, (p,)),
                forall|k: int|
                    0 <= k < i ==> call_ensures(f, (pos_at(dim.width as int, k),), #[trigger] v@[k]),
            decreases max_index - i,
        {
            let pos = Self::index_to_pos(&dim, i);
            assert(valid_in(dim, pos));
            let value = f(pos);
            v.push(value);
            i += 1;
        }
        let r = Matrix { data: v, width: dim.width, height: dim.height };
        proof {
            assert forall|p: Pos| valid_in(dim, p) implies call_ensures(
                f,
                (p,),
                #[trigger] r.at(p),
            ) by {
                lemma_pos_index_round_trip(dim, p);
            }
        }
        r
    }
}

impl<T: Default + Clone> Matrix<T> {
    /// A grid of `width` by `height` cells, each holding the default of `T`.
    pub fn new(width: DimIndex, height: DimIndex) -> (r: Self)
        requires
            width > 0,
            height > 0,
        ensures
            r.spec_dim() == (Dim { width, height }),
            r.shaped(),
            forall|i: int| 0 <= i < r@.len() ==> is_default(#[trigger] r@[i]),
            forall|p: Pos| r.has(p) ==> is_default(#[trigger] r.at(p)),
    {
        let dim = Dim { width, height };
        let data_size = Self::max_index(&dim);
        let mut data: Vec<T> = Vec::with_capacity(data_size);
        let mut i: usize = 0;
        while i < data_size
            invariant
                i <= data_size,
                data@.len() == i,
                forall|k: int| 0 <= k < i ==> is_default(#[trigger] data@[k]),
            decreases data_size - i,
        {
            data.push(T::default());
            i += 1;
        }
        let r = Matrix { width, height, data };
        proof {
            assert forall|p: Pos| r.has(p) implies is_default(#[trigger] r.at(p)) by {
                lemma_pos_index_round_trip(dim, p);
            }
        }
        r
    }

    /// A grid of `width` by `height` default cells, or the reason why there
    /// is no such grid: an extent of zero.
    pub fn try_new(width: DimIndex, height: DimIndex) -> (r: Result<Self, GridError>)
        ensures
            width == 0 ==> r == Err::<Self, GridError>(GridError::ZeroWidth),
            width > 0 && height == 0 ==> r == Err::<Self, GridError>(GridError::ZeroHeight),
            width > 0 && height > 0 ==> r is Ok,
            r matches Ok(m) ==> {
                &&& m.spec_dim() == (Dim { width, height })
                &&& m.shaped()
                &&& forall|i: int| 0 <= i < m@.len() ==> is_default(#[trigger] m@[i])
                &&& forall|p: Pos| m.has(p) ==> is_default(#[trigger] m.at(p))
            },
    {
        if width == 0 {
            Err(GridError::ZeroWidth)
        } else if height == 0 {
            Err(GridError::ZeroHeight)
        } else {
            Ok(Self::new(width, height))
        }
    }
}

impl<T: Clone> Clone for Matrix<T> {
    /// A grid of the same extents whose cells are clones of the cells of
    /// this one.
    fn clone(&self) -> (r: Self)
        ensures
            r.spec_dim() == self.spec_dim(),
            r.shaped(),
            r@.len() == self@.len(),
            forall|i: int| 0 <= i < self@.len() ==> cloned(self@[i], #[trigger] r@[i]),
    {
        proof {
            use_type_invariant(self);
        }
        let n = self.data.len();
        let mut data: Vec<T> = Vec::with_capacity(n);
        let mut i: usize = 0;
        while i < n
            invariant
                i <= n,
                n == self.data@.len(),
                data@.len() == i,
                forall|k: int| 0 <= k < i ==> cloned(self.data@[k], #[trigger] data@[k]),
            decreases n - i,
        {
            data.push(self.data[i].clone());
            i += 1;
        }
        Matrix { width: self.width, height: self.height, data }
    }
}

impl<T> vstd::std_specs::core::IndexSpecImpl<Pos> for Matrix<T> {
    open spec fn index_req(&self, pos: &Pos) -> bool {
        self.has(*pos)
    }
}

impl<T> Index<Pos> for Matrix<T> {
    type Output = T;

    /// The cell at the valid position `pos`.
    fn index(&self, pos: Pos) -> (r: &T)
        ensures
            *r == self.at(pos),
    {
        self.get(pos)
    }
}

impl<T> PosCollection for Matrix<T> {
    /// Every position of the grid, row by row.
    open spec fn positions(&self) -> Seq<Pos> {
        row_major(0, 0, self.spec_width() as int, self.spec_height() as int)
    }

    fn iter_pos(&self) -> (r: Vec<Pos>) {
        collect_row_major(Pos { x: 0, y: 0 }, self.width as usize, self.height as usize)
    }
}

/// A cursor over the cells of a grid in row-major order.
#[derive(Debug)]
pub struct MatrixIter<'a, T: 'a> {
    next_index: usize,
    matrix: &'a Matrix<T>,
}

impl<'a, T> MatrixIter<'a, T> {
    /// The grid that the cursor walks.
    pub closed spec fn grid(self) -> Matrix<T> {
        *self.matrix
    }

    /// The number of cells handed out so far.
    pub closed spec fn cursor(self) -> int {
        self.next_index as int
    }

    /// Hands out the next cell with its position and moves on, or `None`
    /// once every cell has been handed out.
    pub fn next(&mut self) -> (r: Option<(Pos, &'a T)>)
        ensures
            final(self).grid() == old(self).grid(),
            old(self).cursor() < old(self).grid()@.len() ==> {
                &&& final(self).cursor() == old(self).cursor() + 1
                &&& r matches Some((p, v))
                &&& (p, *v) == old(self).grid().entries()[old(self).cursor()]
                &&& old(self).grid().has(p)
                &&& *v == old(self).grid().at(p)
            },
            old(self).cursor() >= old(self).grid()@.len() ==> {
                &&& final(self).cursor() == old(self).cursor()
                &&& r is None
            },
    {
        let m: &'a Matrix<T> = self.matrix;
        proof {
            use_type_invariant(m);
        }
        if self.next_index < m.data.len() {
            let i = self.next_index;
            let pos = m.to_pos(i);
            proof {
                lemma_index_pos_round_trip(m.spec_dim(), i as int);
            }
            self.next_index = i + 1;
            Some((pos, &m.data[i]))
        } else {
            None
        }
    }
}

/// The positions of the entries of a grid are all its positions in row-major
/// order, so no position occurs twice among them.
pub proof fn lemma_entries_row_major<T>(m: Matrix<T>)
    requires
        m.shaped(),
    ensures
        m.entries().len() == m.spec_dim().cells(),
        m.entries().map_values(|e: (Pos, T)| e.0) == m.positions(),
        m.positions().no_duplicates(),
        forall|i: int| 0 <= i < m.entries().len() ==> m.entries()[i].1 == m.at(m.entries()[i].0),
{
    let w = m.spec_width() as int;
    let h = m.spec_height() as int;
    assert(m.entries().map_values(|e: (Pos, T)| e.0) =~= m.positions());
    lemma_row_major_no_duplicates(0, 0, w, h);
    assert forall|i: int| 0 <= i < m.entries().len() implies m.entries()[i].1 == m.at(
        m.entries()[i].0,
    ) by {
        lemma_index_pos_round_trip(m.spec_dim(), i);
    }
}

} // verus!
