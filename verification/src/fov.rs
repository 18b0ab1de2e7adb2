//! Field of view: which cells of a level can be seen from a cell.
//!
//! A cell is seen from an origin if it lies within the sight radius
//! (Euclidean: the squares of the two coordinate differences sum to at most
//! the square of the radius) and no cell strictly between the two on the
//! straight line that joins them blocks sight. The line between two cells
//! holds the same cells in both directions, so sight is mutual.

use vstd::prelude::*;
use vstd::arithmetic::div_mod::lemma_fundamental_div_mod;
use vstd::arithmetic::div_mod::lemma_fundamental_div_mod_converse;
use vstd::arithmetic::div_mod::lemma_mod_bound;
use vstd::arithmetic::mul::lemma_mul_is_commutative;
use crate::level_data::CellObject;
use crate::level_data::LevelInfo;
use crate::matrix::Matrix;
use crate::pos::DimIndex;
use crate::pos::Pos;

verus! {

/// The distance between two coordinates.
pub open spec fn gap(a: int, b: int) -> int {
    if a <= b {
        b - a
    } else {
        a - b
    }
}

/// The number of steps of the line from `a` to `b`: the larger of the two
/// coordinate distances.
pub open spec fn steps(a: Pos, b: Pos) -> int {
    if gap(a.x as int, b.x as int) >= gap(a.y as int, b.y as int) {
        gap(a.x as int, b.x as int)
    } else {
        gap(a.y as int, b.y as int)
    }
}

/// Whether `b` lies within `radius` of `a`, as the crow flies.
pub open spec fn within_radius(a: Pos, b: Pos, radius: int) -> bool {
    (b.x - a.x) * (b.x - a.x) + (b.y - a.y) * (b.y - a.y) <= radius * radius
}

/// How far a line that covers the distance `d` in `n` steps has come after
/// `i` of them: `i * d / n`, rounded to the nearest integer, halves up.
pub open spec fn advance(d: int, i: int, n: int) -> int {
    (2 * i * d + n) / (2 * n)
}

/// The cell after `i` steps on the line from `a` to `b`.
pub open spec fn line_point(a: Pos, b: Pos, i: int) -> Pos {
    Pos {
        x: (a.x + advance(b.x - a.x, i, steps(a, b))) as DimIndex,
        y: (a.y + advance(b.y - a.y, i, steps(a, b))) as DimIndex,
    }
}

/// Whether none of the cells strictly between `a` and `b` on the line that
/// joins them blocks sight.
pub open spec fn clear_between(level: LevelInfo, a: Pos, b: Pos) -> bool {
    forall|i: int| 0 < i < steps(a, b) ==> !level.at(#[trigger] line_point(a, b, i)).opaque()
}

/// Whether `target` is seen from `origin` by a viewer who sees `radius` far.
pub open spec fn sees(level: LevelInfo, origin: Pos, radius: DimIndex, target: Pos) -> bool {
    &&& level.has(origin)
    &&& level.has(target)
    &&& within_radius(origin, target, radius as int)
    &&& clear_between(level, origin, target)
}

/// A quotient is known by the two multiples of the divisor between which the
/// dividend lies.
proof fn lemma_quotient(x: int, d: int, q: int)
    requires
        0 < d,
        q * d <= x < q * d + d,
    ensures
        x / d == q,
{
    lemma_fundamental_div_mod_converse(x, d, q, x - q * d);
}

/// The dividend lies between the quotient's multiple of the divisor and the
/// next one.
proof fn lemma_quotient_bounds(x: int, d: int)
    requires
        0 < d,
    ensures
        (x / d) * d <= x < (x / d) * d + d,
{
    lemma_fundamental_div_mod(x, d);
    lemma_mod_bound(x, d);
    lemma_mul_is_commutative(d, x / d);
}

/// A line starts at nothing, ends at the whole distance and never leaves
/// the span between the two.
pub proof fn lemma_advance_bounds(d: int, i: int, n: int)
    requires
        0 < n,
        0 <= i <= n,
        -n <= d <= n,
    ensures
        advance(d, 0, n) == 0,
        advance(d, n, n) == d,
        d >= 0 ==> 0 <= advance(d, i, n) <= d,
        d <= 0 ==> d <= advance(d, i, n) <= 0,
{
    assert(2 * 0 * d + n == n) by (nonlinear_arith);
    lemma_quotient(n, 2 * n, 0);
    assert(d * (2 * n) <= 2 * n * d + n < d * (2 * n) + 2 * n) by (nonlinear_arith)
        requires
            0 < n,
    ;
    lemma_quotient(2 * n * d + n, 2 * n, d);
    let x = 2 * i * d + n;
    lemma_quotient_bounds(x, 2 * n);
    let q = x / (2 * n);
    if d >= 0 {
        assert(0 <= x && x < (d + 1) * (2 * n)) by (nonlinear_arith)
            requires
                x == 2 * i * d + n,
                0 <= i <= n,
                0 <= d,
                0 < n,
        ;
        assert(q >= 0 && q <= d) by (nonlinear_arith)
            requires
                q * (2 * n) <= x,
                x < q * (2 * n) + 2 * n,
                0 <= x,
                x < (d + 1) * (2 * n),
                0 < n,
        ;
    }
    if d <= 0 {
        assert(x < 2 * n && d * (2 * n) <= x) by (nonlinear_arith)
            requires
                x == 2 * i * d + n,
                0 <= i <= n,
                d <= 0,
                0 < n,
        ;
        assert(q <= 0 && q >= d) by (nonlinear_arith)
            requires
                q * (2 * n) <= x,
                x < q * (2 * n) + 2 * n,
                x < 2 * n,
                d * (2 * n) <= x,
                0 < n,
        ;
    }
}

/// Walking a line backwards passes where walking it forwards passes: what
/// is left of the distance after `n - i` steps back is what `i` steps forth
/// have covered.
pub proof fn lemma_advance_reversed(d: int, i: int, n: int)
    requires
        0 < n,
    ensures
        advance(-d, n - i, n) == advance(d, i, n) - d,
{
    let x = 2 * i * d + n;
    let q = x / (2 * n);
    lemma_quotient_bounds(x, 2 * n);
    let y = 2 * (n - i) * (-d) + n;
    assert(y == x - d * (2 * n)) by (nonlinear_arith)
        requires
            x == 2 * i * d + n,
            y == 2 * (n - i) * (-d) + n,
    ;
    assert((q - d) * (2 * n) == q * (2 * n) - d * (2 * n)) by (nonlinear_arith);
    lemma_quotient(y, 2 * n, q - d);
}

/// A line moves by at most one cell in each coordinate from one step to the
/// next.
pub proof fn lemma_advance_step(d: int, i: int, n: int)
    requires
        0 < n,
        -n <= d <= n,
    ensures
        -1 <= advance(d, i + 1, n) - advance(d, i, n) <= 1,
{
    let x = 2 * i * d + n;
    let y = 2 * (i + 1) * d + n;
    lemma_quotient_bounds(x, 2 * n);
    lemma_quotient_bounds(y, 2 * n);
    let q = x / (2 * n);
    let r = y / (2 * n);
    assert(y == x + 2 * d) by (nonlinear_arith)
        requires
            x == 2 * i * d + n,
            y == 2 * (i + 1) * d + n,
    ;
    assert(-1 <= r - q <= 1) by (nonlinear_arith)
        requires
            q * (2 * n) <= x,
            x < q * (2 * n) + 2 * n,
            r * (2 * n) <= y,
            y < r * (2 * n) + 2 * n,
            y == x + 2 * d,
            -n <= d <= n,
            0 < n,
    ;
}

/// The line from `a` to `b` starts in `a`, ends in `b`, stays in the
/// smallest rectangle that holds both, and each of its cells is a neighbour
/// of the one before it, diagonals included.
pub proof fn lemma_line_shape(a: Pos, b: Pos, i: int)
    requires
        0 <= i <= steps(a, b),
        a != b,
    ensures
        line_point(a, b, 0) == a,
        line_point(a, b, steps(a, b)) == b,
        gap(a.x as int, line_point(a, b, i).x as int) + gap(
            line_point(a, b, i).x as int,
            b.x as int,
        ) == gap(a.x as int, b.x as int),
        gap(a.y as int, line_point(a, b, i).y as int) + gap(
            line_point(a, b, i).y as int,
            b.y as int,
        ) == gap(a.y as int, b.y as int),
        i < steps(a, b) ==> gap(
            line_point(a, b, i).x as int,
            line_point(a, b, i + 1).x as int,
        ) <= 1 && gap(line_point(a, b, i).y as int, line_point(a, b, i + 1).y as int) <= 1,
{
    let n = steps(a, b);
    lemma_advance_bounds(b.x - a.x, i, n);
    lemma_advance_bounds(b.y - a.y, i, n);
    if i < n {
        lemma_advance_bounds(b.x - a.x, i + 1, n);
        lemma_advance_bounds(b.y - a.y, i + 1, n);
        lemma_advance_step(b.x - a.x, i, n);
        lemma_advance_step(b.y - a.y, i, n);
    }
}

/// A line holds the same cells whichever way it is walked.
pub proof fn lemma_line_reversed(a: Pos, b: Pos, i: int)
    requires
        0 <= i <= steps(a, b),
        a != b,
    ensures
        steps(b, a) == steps(a, b),
        line_point(b, a, steps(a, b) - i) == line_point(a, b, i),
{
    let n = steps(a, b);
    lemma_advance_reversed(b.x - a.x, i, n);
    lemma_advance_reversed(b.y - a.y, i, n);
    lemma_advance_bounds(b.x - a.x, i, n);
    lemma_advance_bounds(b.y - a.y, i, n);
    assert(a.x - b.x == -(b.x - a.x));
    assert(a.y - b.y == -(b.y - a.y));
}

/// Sight is mutual: whoever is seen from a cell sees that cell, with the
/// same radius.
pub proof fn lemma_sees_symmetric(level: LevelInfo, a: Pos, b: Pos, radius: DimIndex)
    ensures
        sees(level, a, radius, b) == sees(level, b, radius, a),
{
    assert(within_radius(a, b, radius as int) == within_radius(b, a, radius as int))
        by (nonlinear_arith);
    if clear_between(level, a, b) {
        lemma_clear_reversed(level, a, b);
    }
    if clear_between(level, b, a) {
        lemma_clear_reversed(level, b, a);
    }
}

/// If nothing blocks the line from `a` to `b`, nothing blocks the line from
/// `b` to `a`.
proof fn lemma_clear_reversed(level: LevelInfo, a: Pos, b: Pos)
    requires
        clear_between(level, a, b),
    ensures
        clear_between(level, b, a),
{
    if a != b {
        let n = steps(a, b);
        lemma_line_reversed(a, b, 0);
        assert forall|j: int| 0 < j < steps(b, a) implies !level.at(
            #[trigger] line_point(b, a, j),
        ).opaque() by {
            lemma_line_reversed(a, b, n - j);
            assert(!level.at(line_point(a, b, n - j)).opaque());
        }
    }
}

/// A viewer sees the cell in which it stands, whatever its radius; and with
/// a radius of zero it sees no other cell.
pub proof fn lemma_sees_origin(level: LevelInfo, origin: Pos, radius: DimIndex, target: Pos)
    requires
        level.has(origin),
    ensures
        sees(level, origin, radius, origin),
        sees(level, origin, 0, target) <==> target == origin,
{
    assert(0 <= radius * radius) by (nonlinear_arith);
    if target != origin {
        let dx = target.x - origin.x;
        let dy = target.y - origin.y;
        assert(dx * dx + dy * dy > 0) by (nonlinear_arith)
            requires
                dx != 0 || dy != 0,
        ;
    }
}

/// A cell behind a cell that blocks sight is not seen.
pub proof fn lemma_blocked_is_unseen(
    level: LevelInfo,
    origin: Pos,
    radius: DimIndex,
    target: Pos,
    i: int,
)
    requires
        0 < i < steps(origin, target),
        level.at(line_point(origin, target, i)).opaque(),
    ensures
        !sees(level, origin, radius, target),
{
}

/// Nothing beyond the radius is seen: a seen cell is at most `radius` away
/// in each coordinate.
pub proof fn lemma_seen_is_near(level: LevelInfo, origin: Pos, radius: DimIndex, target: Pos)
    requires
        sees(level, origin, radius, target),
    ensures
        gap(origin.x as int, target.x as int) <= radius,
        gap(origin.y as int, target.y as int) <= radius,
{
    let dx = target.x - origin.x;
    let dy = target.y - origin.y;
    let r = radius as int;
    assert(-r <= dx <= r && -r <= dy <= r) by (nonlinear_arith)
        requires
            dx * dx + dy * dy <= r * r,
            0 <= r,
    ;
}

/// The distance between two coordinates.
fn coordinate_gap(a: DimIndex, b: DimIndex) -> (r: u32)
    ensures
        r == gap(a as int, b as int),
{
    if a <= b {
        (b - a) as u32
    } else {
        (a - b) as u32
    }
}

/// The coordinate after `i` of `n` steps from `a` towards `b`.
fn coordinate_at(a: DimIndex, b: DimIndex, i: u32, n: u32) -> (r: DimIndex)
    requires
        0 < n <= DimIndex::MAX,
        i <= n,
        gap(a as int, b as int) <= n,
    ensures
        r == a + advance(b - a, i as int, n as int),
{
    proof {
        lemma_advance_bounds(b - a, i as int, n as int);
    }
    if a <= b {
        let d: u32 = (b - a) as u32;
        assert(2 * i * d + n <= 2 * 255 * 255 + 255) by (nonlinear_arith)
            requires
                i <= 255,
                d <= 255,
                n <= 255,
        ;
        let q: u32 = (2 * i * d + n) / (2 * n);
        a + (q as DimIndex)
    } else {
        let d: u32 = (a - b) as u32;
        assert(2 * i * d + n - 1 <= 2 * 255 * 255 + 255) by (nonlinear_arith)
            requires
                i <= 255,
                d <= 255,
                0 < n <= 255,
        ;
        let q: u32 = (2 * i * d + n - 1) / (2 * n);
        proof {
            let t = 2 * i * d + n - 1;
            lemma_quotient_bounds(t, 2 * n);
            let x = 2 * i * (b - a) + n;
            assert(x == n - 2 * i * d) by (nonlinear_arith)
                requires
                    x == 2 * i * (b - a) + n,
                    d == a - b,
            ;
            assert((-(q as int)) * (2 * n) == -((q as int) * (2 * n))) by (nonlinear_arith);
            lemma_quotient(x, 2 * n, -(q as int));
        }
        a - (q as DimIndex)
    }
}

/// Whether `target` is seen from `origin` by a viewer who sees `radius` far.
pub fn is_visible(level: &LevelInfo, origin: Pos, radius: DimIndex, target: Pos) -> (r: bool)
    ensures
        r == sees(*level, origin, radius, target),
{
    if !level.is_valid(origin) || !level.is_valid(target) {
        return false;
    }
    let dx = coordinate_gap(origin.x, target.x);
    let dy = coordinate_gap(origin.y, target.y);
    let reach: u32 = radius as u32;
    assert(dx * dx + dy * dy <= 2 * 255 * 255 && reach * reach <= 255 * 255) by (nonlinear_arith)
        requires
            dx <= 255,
            dy <= 255,
            reach <= 255,
    ;
    proof {
        let ex = target.x - origin.x;
        let ey = target.y - origin.y;
        assert(ex * ex == dx * dx && ey * ey == dy * dy) by (nonlinear_arith)
            requires
                ex == dx || ex == -dx,
                ey == dy || ey == -dy,
        ;
    }
    if dx * dx + dy * dy > reach * reach {
        return false;
    }
    let n: u32 = if dx >= dy { dx } else { dy };
    let mut i: u32 = 1;
    while i < n
        invariant
            1 <= i,
            n == steps(origin, target),
            n <= DimIndex::MAX,
            level.has(origin),
            level.has(target),
            forall|k: int| 0 < k < i ==> !level.at(#[trigger] line_point(origin, target, k)).opaque(),
        decreases n - i,
    {
        let x = coordinate_at(origin.x, target.x, i, n);
        let y = coordinate_at(origin.y, target.y, i, n);
        let p = Pos { x, y };
        proof {
            lemma_line_shape(origin, target, i as int);
            assert(p == line_point(origin, target, i as int));
        }
        if level.get(p).blocks_sight() {
            return false;
        }
        i += 1;
    }
    true
}

/// The mask of what is seen from `pos` by a viewer who sees `sight_radius`
/// far: a grid of the extents of the level that holds `true` exactly in the
/// cells that are seen.
pub fn calculate_fov(m: &LevelInfo, pos: Pos, sight_radius: DimIndex) -> (mask: Matrix<bool>)
    ensures
        mask.spec_dim() == m.spec_dim(),
        mask.shaped(),
        forall|p: Pos| m.has(p) ==> #[trigger] mask.at(p) == sees(*m, pos, sight_radius, p),
{
    let dim = m.dim();
    let look = |p: Pos| -> (seen: bool)
        ensures
            seen == sees(*m, pos, sight_radius, p),
        {
            let seen = is_visible(m, pos, sight_radius, p);
            seen
        };
    Matrix::tabulate(dim, look)
}

} // verus!
