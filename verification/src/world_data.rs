//! Races and monster templates: what the generator places and never reads.

use vstd::prelude::*;
use crate::components::IsFighter;
use crate::render::Color;
use crate::render::Renderable;
use crate::render::yellow;

verus! {

/// A kind of creature: how it looks and how it fights.
#[derive(Clone, Copy, Debug, PartialEq, Eq, Structural)]
pub struct Race {
    pub default_char: char,
    pub default_color: Color,
    pub default_fight_skill: IsFighter,
}

impl Race {
    /// The template of a monster of this race.
    pub fn to_template(&self) -> (r: MonsterTemplate)
        ensures
            r == (MonsterTemplate { race: Some(*self) }),
    {
        MonsterTemplate { race: Some(*self) }
    }
}

impl Renderable for Race {
    open spec fn spec_color(&self) -> Color {
        self.default_color
    }

    open spec fn glyph(&self) -> char {
        self.default_char
    }

    fn color(&self) -> (r: Color) {
        self.default_color
    }

    fn display_char(&self) -> (r: char) {
        self.default_char
    }
}

/// What a monster is made from. A template without a race is a stand-in,
/// drawn as a yellow question mark.
#[derive(Clone, Copy, Debug, PartialEq, Eq, Structural)]
pub struct MonsterTemplate {
    pub race: Option<Race>,
}

/// The glyph of a monster whose template names no race.
pub const DEFAULT_CHAR: char = '?';

impl Renderable for MonsterTemplate {
    open spec fn spec_color(&self) -> Color {
        match self.race {
            Some(r) => r.default_color,
            None => yellow(),
        }
    }

    open spec fn glyph(&self) -> char {
        match self.race {
            Some(r) => r.default_char,
            None => DEFAULT_CHAR,
        }
    }

    fn color(&self) -> (r: Color) {
        match &self.race {
            Some(r) => r.color(),
            None => Color::rgb(255, 255, 0),
        }
    }

    fn display_char(&self) -> (r: char) {
        match &self.race {
            Some(r) => r.display_char(),
            None => DEFAULT_CHAR,
        }
    }
}

impl MonsterTemplate {
    /// How a monster made from this template fights; the template must name
    /// a race.
    pub fn fight_skills(&self) -> (r: &IsFighter)
        requires
            self.race is Some,
        ensures
            *r == self.race->Some_0.default_fight_skill,
    {
        &self.race.as_ref().unwrap().default_fight_skill
    }
}

} // verus!
