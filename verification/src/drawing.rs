//! What is drawn in a frame, and how.

use vstd::prelude::*;
use crate::level_data::LevelInfo;
use crate::matrix::lemma_index_pos_round_trip;
use crate::matrix::pos_at;
use crate::matrix::Matrix;
use crate::pos::Pos;
use crate::render::Color;
use crate::render::Renderable;
use crate::vision::marked;

verus! {

/// One thing to draw: a glyph in a colour at a position, lit if it is in
/// view and dimmed if it is only remembered.
#[derive(Debug, Clone, Copy, PartialEq, Eq, Structural)]
pub struct Draw {
    pub pos: Pos,
    pub glyph: char,
    pub color: Color,
    pub in_fov: bool,
}

/// An actor as the renderer needs it: where it stands and how it looks.
#[derive(Debug, Clone, Copy, PartialEq, Eq, Structural)]
pub struct Sprite {
    pub pos: Pos,
    pub glyph: char,
    pub color: Color,
}

/// The tiles to draw among the first `n` cells of the level, row by row:
/// each cell that the viewer remembers, lit if it is in view.
pub open spec fn tiles_drawn(
    level: LevelInfo,
    fov: Matrix<bool>,
    memory: Matrix<bool>,
    n: int,
) -> Seq<Draw>
    decreases n,
{
    if n <= 0 {
        Seq::empty()
    } else {
        let p = pos_at(level.spec_dim().width as int, n - 1);
        let before = tiles_drawn(level, fov, memory, n - 1);
        if marked(memory, p) {
            before.push(
                Draw {
                    pos: p,
                    glyph: level.at(p).glyph(),
                    color: level.at(p).spec_color(),
                    in_fov: marked(fov, p),
                },
            )
        } else {
            before
        }
    }
}

/// The actors to draw among the first `n` of `sprites`: each that stands in
/// a cell in view, as it looks, lit.
pub open spec fn sprites_drawn(sprites: Seq<Sprite>, fov: Matrix<bool>, n: int) -> Seq<Draw>
    decreases n,
{
    if n <= 0 {
        Seq::empty()
    } else {
        let s = sprites[n - 1];
        let before = sprites_drawn(sprites, fov, n - 1);
        if marked(fov, s.pos) {
            before.push(Draw { pos: s.pos, glyph: s.glyph, color: s.color, in_fov: true })
        } else {
            before
        }
    }
}

/// The colour in which a thing of colour `color` is drawn: its own if it is
/// in view, and half as bright if it is only remembered.
pub fn shade(color: Color, in_fov: bool) -> (r: Color)
    ensures
        r == if in_fov {
            color
        } else {
            Color { r: color.r / 2, g: color.g / 2, b: color.b / 2 }
        },
{
    if in_fov {
        color
    } else {
        color.dimmed()
    }
}

/// What a frame shows to a viewer with the view `fov` and the memory
/// `memory`: first every tile of the level that the viewer remembers, row by
/// row, then every actor that stands in view, in the order of `sprites`.
pub fn frame(
    level: &LevelInfo,
    fov: &Matrix<bool>,
    memory: &Matrix<bool>,
    sprites: &Vec<Sprite>,
) -> (r: Vec<Draw>)
    ensures
        r@ == tiles_drawn(*level, *fov, *memory, level.spec_dim().cells()) + sprites_drawn(
            sprites@,
            *fov,
            sprites@.len() as int,
        ),
{
    let dim = level.dim();
    let n = Matrix::<bool>::max_index(&dim);
    let mut draws: Vec<Draw> = Vec::new();
    let mut i: usize = 0;
    while i < n
        invariant
            i <= n,
            n == dim.cells(),
            dim == level.spec_dim(),
            draws@ == tiles_drawn(*level, *fov, *memory, i as int),
        decreases n - i,
    {
        let pos = Matrix::<bool>::index_to_pos(&dim, i);
        proof {
            lemma_index_pos_round_trip(dim, i as int);
        }
        let show = match memory.try_get(pos) {
            Some(known) => *known,
            None => false,
        };
        if show {
            let tile = level.get(pos);
            let in_fov = match fov.try_get(pos) {
                Some(seen) => *seen,
                None => false,
            };
            draws.push(Draw { pos, glyph: tile.display_char(), color: tile.color(), in_fov });
        }
        i += 1;
    }
    let ghost tiles = draws@;
    let mut k: usize = 0;
    while k < sprites.len()
        invariant
            k <= sprites.len(),
            draws@ == tiles + sprites_drawn(sprites@, *fov, k as int),
        decreases sprites.len() - k,
    {
        let s = sprites[k];
        let in_fov = match fov.try_get(s.pos) {
            Some(seen) => *seen,
            None => false,
        };
        if in_fov {
            draws.push(Draw { pos: s.pos, glyph: s.glyph, color: s.color, in_fov: true });
            assert(draws@ =~= tiles + sprites_drawn(sprites@, *fov, k + 1));
        }
        k += 1;
    }
    draws
}

} // verus!
