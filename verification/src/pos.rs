//! Grid coordinates and rectangular ranges of coordinates.

use vstd::prelude::*;
use vstd::arithmetic::div_mod::lemma_fundamental_div_mod_converse;
use vstd::arithmetic::div_mod::lemma_fundamental_div_mod;
use vstd::arithmetic::div_mod::lemma_mod_bound;
use vstd::arithmetic::mul::lemma_mul_inequality;
use vstd::arithmetic::mul::lemma_mul_is_commutative;

verus! {

/// The integer type of a single grid coordinate or extent.
pub type DimIndex = u8;

/// A cell coordinate: `x` counts columns from the west, `y` rows from the north.
#[derive(Debug, PartialEq, Eq, Copy, Clone, Hash, Structural)]
pub struct Pos {
    pub x: DimIndex,
    pub y: DimIndex,
}

impl Default for Pos {
    fn default() -> (r: Pos)
        ensures
            r == (Pos { x: 0, y: 0 }),
    {
        Pos { x: 0, y: 0 }
    }
}

impl Pos {
    /// The sum of the two coordinates: the key by which positions are ordered.
    pub open spec fn spec_weight(self) -> int {
        self.x as int + self.y as int
    }

    /// The ordering key of a position. Positions are compared by this key
    /// alone, so two positions on the same anti-diagonal rank as equal.
    pub fn weight(self) -> (r: u16)
        ensures
            r as int == self.spec_weight(),
    {
        let x: u16 = self.x.into();
        let y: u16 = self.y.into();
        x + y
    }

    /// The neighbour one row to the north.
    pub fn n(self) -> (r: Pos)
        requires
            self.y > 0,
        ensures
            r.x == self.x,
            r.y == self.y - 1,
    {
        Pos { y: self.y - 1, ..self }
    }

    /// The neighbour one row to the south.
    pub fn s(self) -> (r: Pos)
        requires
            self.y < DimIndex::MAX,
        ensures
            r.x == self.x,
            r.y == self.y + 1,
    {
        Pos { y: self.y + 1, ..self }
    }

    /// The neighbour one column to the west.
    pub fn w(self) -> (r: Pos)
        requires
            self.x > 0,
        ensures
            r.x == self.x - 1,
            r.y == self.y,
    {
        Pos { x: self.x - 1, ..self }
    }

    /// The neighbour one column to the east.
    pub fn e(self) -> (r: Pos)
        requires
            self.x < DimIndex::MAX,
        ensures
            r.x == self.x + 1,
            r.y == self.y,
    {
        Pos { x: self.x + 1, ..self }
    }
}

/// The cells of the rectangle whose north-west corner is `(x0, y0)` and that
/// is `w` columns wide and `h` rows high, column by column: all of the first
/// column from north to south, then the second, and so on.
pub open spec fn column_major(x0: int, y0: int, w: int, h: int) -> Seq<Pos> {
    Seq::new(
        (w * h) as nat,
        |i: int| Pos { x: (x0 + i / h) as DimIndex, y: (y0 + i % h) as DimIndex },
    )
}

/// The cells of the same rectangle row by row: all of the first row from west
/// to east, then the second, and so on.
pub open spec fn row_major(x0: int, y0: int, w: int, h: int) -> Seq<Pos> {
    Seq::new(
        (w * h) as nat,
        |i: int| Pos { x: (x0 + i % w) as DimIndex, y: (y0 + i / w) as DimIndex },
    )
}

/// Whether `p` lies in the rectangle with north-west corner `(x0, y0)`, width
/// `w` and height `h`.
pub open spec fn in_rect(p: Pos, x0: int, y0: int, w: int, h: int) -> bool {
    x0 <= p.x < x0 + w && y0 <= p.y < y0 + h
}

/// An index below `a * b` splits into a quotient below `a` and a remainder
/// below `b`.
pub proof fn lemma_index_split(i: int, a: int, b: int)
    requires
        0 <= i < a * b,
        0 <= a,
        0 < b,
    ensures
        0 <= i / b < a,
        0 <= i % b < b,
        i == (i / b) * b + i % b,
{
    lemma_fundamental_div_mod(i, b);
    lemma_mod_bound(i, b);
    lemma_mul_is_commutative(b, i / b);
    if i / b >= a {
        lemma_mul_inequality(a, i / b, b);
    }
    if i / b < 0 {
        lemma_mul_inequality(i / b, -1, b);
    }
}

/// A quotient below `a` and a remainder below `b` join into an index below
/// `a * b` that splits back into the two.
pub proof fn lemma_index_join(q: int, r: int, a: int, b: int)
    requires
        0 <= q < a,
        0 <= r < b,
    ensures
        0 <= q * b + r < a * b,
        (q * b + r) / b == q,
        (q * b + r) % b == r,
{
    lemma_fundamental_div_mod_converse(q * b + r, b, q, r);
    lemma_mul_inequality(q + 1, a, b);
    assert((q + 1) * b == q * b + b) by (nonlinear_arith);
    assert(0 <= q * b) by (nonlinear_arith)
        requires
            0 <= q,
            0 < b,
    ;
}

/// A column-major rectangle holds exactly the cells inside the rectangle.
pub proof fn lemma_column_major_contains(p: Pos, x0: int, y0: int, w: int, h: int)
    requires
        0 <= x0,
        0 <= y0,
        0 <= w,
        0 <= h,
        x0 + w <= DimIndex::MAX + 1,
        y0 + h <= DimIndex::MAX + 1,
    ensures
        column_major(x0, y0, w, h).contains(p) <==> in_rect(p, x0, y0, w, h),
{
    let s = column_major(x0, y0, w, h);
    if s.contains(p) {
        let i = choose|i: int| 0 <= i < s.len() && s[i] == p;
        assert(h > 0) by (nonlinear_arith)
            requires
                0 <= i < w * h,
                0 <= h,
        ;
        lemma_index_split(i, w, h);
    }
    if in_rect(p, x0, y0, w, h) {
        let q = p.x - x0;
        let r = p.y - y0;
        lemma_index_join(q, r, w, h);
        assert(s[q * h + r] == p);
    }
}

/// A row-major rectangle holds exactly the cells inside the rectangle.
pub proof fn lemma_row_major_contains(p: Pos, x0: int, y0: int, w: int, h: int)
    requires
        0 <= x0,
        0 <= y0,
        0 <= w,
        0 <= h,
        x0 + w <= DimIndex::MAX + 1,
        y0 + h <= DimIndex::MAX + 1,
    ensures
        row_major(x0, y0, w, h).contains(p) <==> in_rect(p, x0, y0, w, h),
{
    let s = row_major(x0, y0, w, h);
    assert(w * h == h * w) by (nonlinear_arith);
    if s.contains(p) {
        let i = choose|i: int| 0 <= i < s.len() && s[i] == p;
        assert(w > 0) by (nonlinear_arith)
            requires
                0 <= i < w * h,
                0 <= w,
        ;
        lemma_index_split(i, h, w);
    }
    if in_rect(p, x0, y0, w, h) {
        let q = p.y - y0;
        let r = p.x - x0;
        lemma_index_join(q, r, h, w);
        assert(s[q * w + r] == p);
    }
}

/// No cell occurs twice in a column-major rectangle.
pub proof fn lemma_column_major_no_duplicates(x0: int, y0: int, w: int, h: int)
    requires
        0 <= x0,
        0 <= y0,
        0 <= w,
        0 <= h,
        x0 + w <= DimIndex::MAX + 1,
        y0 + h <= DimIndex::MAX + 1,
    ensures
        column_major(x0, y0, w, h).no_duplicates(),
{
    let s = column_major(x0, y0, w, h);
    assert forall|i: int, j: int| 0 <= i < s.len() && 0 <= j < s.len() && i != j implies s[i]
        != s[j] by {
        assert(h > 0) by (nonlinear_arith)
            requires
                0 <= i < w * h,
                0 <= h,
        ;
        lemma_index_split(i, w, h);
        lemma_index_split(j, w, h);
    }
}

/// No cell occurs twice in a row-major rectangle.
pub proof fn lemma_row_major_no_duplicates(x0: int, y0: int, w: int, h: int)
    requires
        0 <= x0,
        0 <= y0,
        0 <= w,
        0 <= h,
        x0 + w <= DimIndex::MAX + 1,
        y0 + h <= DimIndex::MAX + 1,
    ensures
        row_major(x0, y0, w, h).no_duplicates(),
{
    let s = row_major(x0, y0, w, h);
    assert(w * h == h * w) by (nonlinear_arith);
    assert forall|i: int, j: int| 0 <= i < s.len() && 0 <= j < s.len() && i != j implies s[i]
        != s[j] by {
        assert(w > 0) by (nonlinear_arith)
            requires
                0 <= i < w * h,
                0 <= w,
        ;
        lemma_index_split(i, h, w);
        lemma_index_split(j, h, w);
    }
}

/// Anything that stands for a finite sequence of grid cells.
pub trait PosCollection {
    /// The cells, in the order in which `iter_pos` hands them out.
    spec fn positions(&self) -> Seq<Pos>;

    /// The cells of the collection, in order.
    fn iter_pos(&self) -> (r: Vec<Pos>)
        ensures
            r@ == self.positions(),
    ;
}

/// The rectangle spanned by two corner cells, in either order.
#[derive(Debug, Copy, Clone)]
pub struct PosRange {
    from: Pos,
    to: Pos,
}

impl PosRange {
    #[verifier::type_invariant]
    spec fn ordered(self) -> bool {
        self.from.x <= self.to.x && self.from.y <= self.to.y
    }

    /// The north-west corner.
    pub closed spec fn from(self) -> Pos {
        self.from
    }

    /// The south-east corner.
    pub closed spec fn to(self) -> Pos {
        self.to
    }

    /// The cells of the rectangle with both corners included, column by column.
    pub open spec fn inclusive(self) -> Seq<Pos> {
        column_major(
            self.from().x as int,
            self.from().y as int,
            self.to().x - self.from().x + 1,
            self.to().y - self.from().y + 1,
        )
    }

    /// The cells of the rectangle without the row and the column of the
    /// south-east corner, column by column.
    pub open spec fn exclusive(self) -> Seq<Pos> {
        column_major(
            self.from().x as int,
            self.from().y as int,
            self.to().x - self.from().x,
            self.to().y - self.from().y,
        )
    }

    /// The rectangle between `p1` and `p2`: its north-west corner takes the
    /// smaller of each coordinate, its south-east corner the larger.
    pub fn new(p1: Pos, p2: Pos) -> (r: PosRange)
        ensures
            r.from().x == if p1.x <= p2.x { p1.x } else { p2.x },
            r.from().y == if p1.y <= p2.y { p1.y } else { p2.y },
            r.to().x == if p1.x <= p2.x { p2.x } else { p1.x },
            r.to().y == if p1.y <= p2.y { p2.y } else { p1.y },
    {
        let from = Pos {
            x: if p1.x <= p2.x { p1.x } else { p2.x },
            y: if p1.y <= p2.y { p1.y } else { p2.y },
        };
        let to = Pos {
            x: if p1.x <= p2.x { p2.x } else { p1.x },
            y: if p1.y <= p2.y { p2.y } else { p1.y },
        };
        PosRange { from, to }
    }

    /// All cells between the corners, both corners included.
    pub fn iter_inclusive(self) -> (r: Vec<Pos>)
        ensures
            r@ == self.inclusive(),
    {
        proof {
            use_type_invariant(self);
        }
        let w: usize = (self.to.x - self.from.x) as usize + 1;
        let h: usize = (self.to.y - self.from.y) as usize + 1;
        collect_column_major(self.from, w, h)
    }

    /// All cells between the corners, leaving out the last row and column.
    pub fn iter(self) -> (r: Vec<Pos>)
        ensures
            r@ == self.exclusive(),
    {
        proof {
            use_type_invariant(self);
        }
        let w: usize = (self.to.x - self.from.x) as usize;
        let h: usize = (self.to.y - self.from.y) as usize;
        collect_column_major(self.from, w, h)
    }
}

impl PosCollection for PosRange {
    open spec fn positions(&self) -> Seq<Pos> {
        self.inclusive()
    }

    fn iter_pos(&self) -> (r: Vec<Pos>) {
        self.iter_inclusive()
    }
}

/// Lists the cells of a rectangle column by column.
pub fn collect_column_major(from: Pos, w: usize, h: usize) -> (r: Vec<Pos>)
    requires
        from.x + w <= DimIndex::MAX + 1,
        from.y + h <= DimIndex::MAX + 1,
    ensures
        r@ == column_major(from.x as int, from.y as int, w as int, h as int),
{
    assert(w * h <= 256 * 256) by (nonlinear_arith)
        requires
            w <= 256,
            h <= 256,
    ;
    let n: usize = w * h;
    let mut cells: Vec<Pos> = Vec::new();
    let mut i: usize = 0;
    while i < n
        invariant
            i <= n,
            n == w * h,
            from.x + w <= DimIndex::MAX + 1,
            from.y + h <= DimIndex::MAX + 1,
            cells@.len() == i,
            forall|k: int|
                0 <= k < i ==> cells@[k] == column_major(
                    from.x as int,
                    from.y as int,
                    w as int,
                    h as int,
                )[k],
        decreases n - i,
    {
        proof {
            assert(h > 0) by (nonlinear_arith)
                requires
                    0 <= i < w * h,
                    0 <= h,
            ;
            lemma_index_split(i as int, w as int, h as int);
        }
        let dx: usize = i / h;
        let dy: usize = i % h;
        cells.push(Pos { x: from.x + (dx as u8), y: from.y + (dy as u8) });
        i += 1;
    }
    assert(cells@ =~= column_major(from.x as int, from.y as int, w as int, h as int));
    cells
}

/// Lists the cells of a rectangle row by row.
pub fn collect_row_major(from: Pos, w: usize, h: usize) -> (r: Vec<Pos>)
    requires
        from.x + w <= DimIndex::MAX + 1,
        from.y + h <= DimIndex::MAX + 1,
    ensures
        r@ == row_major(from.x as int, from.y as int, w as int, h as int),
{
    assert(w * h <= 256 * 256 && w * h == h * w) by (nonlinear_arith)
        requires
            w <= 256,
            h <= 256,
    ;
    let n: usize = w * h;
    let mut cells: Vec<Pos> = Vec::new();
    let mut i: usize = 0;
    while i < n
        invariant
            i <= n,
            n == w * h,
            n == h * w,
            from.x + w <= DimIndex::MAX + 1,
            from.y + h <= DimIndex::MAX + 1,
            cells@.len() == i,
            forall|k: int|
                0 <= k < i ==> cells@[k] == row_major(
                    from.x as int,
                    from.y as int,
                    w as int,
                    h as int,
                )[k],
        decreases n - i,
    {
        proof {
            assert(w > 0) by (nonlinear_arith)
                requires
                    0 <= i < w * h,
                    0 <= w,
            ;
            lemma_index_split(i as int, h as int, w as int);
        }
        let dx: usize = i % w;
        let dy: usize = i / w;
        cells.push(Pos { x: from.x + (dx as u8), y: from.y + (dy as u8) });
        i += 1;
    }
    assert(cells@ =~= row_major(from.x as int, from.y as int, w as int, h as int));
    cells
}

} // verus!
