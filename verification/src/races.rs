//! The races that live in the dungeon.

use vstd::prelude::*;
use crate::components::IsFighter;
use crate::render::darker_green;
use crate::render::desaturated_green;
use crate::render::Color;
use crate::world_data::MonsterTemplate;
use crate::world_data::Race;

verus! {

/// Orcs: many, and weak.
pub open spec fn orc() -> Race {
    Race {
        default_char: 'o',
        default_color: desaturated_green(),
        default_fight_skill: IsFighter { max_hp: 10, current_hp: 10, power: 3, defense: 0 },
    }
}

/// Trolls: tough, and they hit hard.
pub open spec fn troll() -> Race {
    Race {
        default_char: 'T',
        default_color: darker_green(),
        default_fight_skill: IsFighter { max_hp: 16, current_hp: 16, power: 4, defense: 1 },
    }
}

/// The templates of all monsters: an orc, then a troll.
pub open spec fn monster_templates() -> Seq<MonsterTemplate> {
    seq![MonsterTemplate { race: Some(orc()) }, MonsterTemplate { race: Some(troll()) }]
}

/// The race of the orcs.
pub fn orc_race() -> (r: Race)
    ensures
        r == orc(),
{
    Race {
        default_char: 'o',
        default_color: Color::rgb(63, 127, 63),
        default_fight_skill: IsFighter::new(10, 3, 0),
    }
}

/// The race of the trolls.
pub fn troll_race() -> (r: Race)
    ensures
        r == troll(),
{
    Race {
        default_char: 'T',
        default_color: Color::rgb(0, 127, 0),
        default_fight_skill: IsFighter::new(16, 4, 1),
    }
}

/// The templates of all monsters: an orc, then a troll.
pub fn all_monsters() -> (r: Vec<MonsterTemplate>)
    ensures
        r@ == monster_templates(),
{
    let mut v: Vec<MonsterTemplate> = Vec::new();
    v.push(orc_race().to_template());
    v.push(troll_race().to_template());
    assert(v@ =~= monster_templates());
    v
}

} // verus!
