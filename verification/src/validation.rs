//! What becomes of a player's wish to move.

use vstd::prelude::*;
use crate::level_data::CellObject;
use crate::level_data::LevelInfo;
use crate::pos::Pos;
use crate::structures::stepped;
use crate::structures::ActorCommand;
use crate::structures::Dir;

verus! {

/// Whether the occupant at place `i` stands at `target` and none before it
/// does.
pub open spec fn is_first_at(occupants: Seq<(u32, Pos)>, target: Pos, i: int) -> bool {
    &&& 0 <= i < occupants.len()
    &&& occupants[i].1 == target
    &&& forall|j: int| 0 <= j < i ==> (#[trigger] occupants[j]).1 != target
}

/// The place of the first of `occupants` that stands at `target`, if any
/// does.
pub open spec fn first_at(occupants: Seq<(u32, Pos)>, target: Pos) -> Option<int> {
    if exists|i: int| is_first_at(occupants, target, i) {
        Some(choose|i: int| is_first_at(occupants, target, i))
    } else {
        None
    }
}

/// What a player at `player_pos` who wants to step in direction `move_dir`
/// gets to do: nothing if the step leads off the level or onto a cell that
/// cannot be walked on; an attack on the first of `occupants` that stands
/// in the way, if one does; the step otherwise.
pub open spec fn validated_move(
    level: LevelInfo,
    player_pos: Pos,
    move_dir: Dir,
    occupants: Seq<(u32, Pos)>,
) -> Option<ActorCommand> {
    match stepped(player_pos, move_dir) {
        None => None,
        Some(target) => if !level.has(target) || !level.at(target).walkable() {
            None
        } else {
            match first_at(occupants, target) {
                Some(i) => Some(ActorCommand::MeleeAttack { pos: target, target: occupants[i].0 }),
                None => Some(ActorCommand::Move(move_dir)),
            }
        },
    }
}

/// The rule that turns a wish to move into a command.
#[derive(Debug, Default)]
pub struct MoveValidation;

impl MoveValidation {
    /// Decides what a player at `player_pos` who wants to step in direction
    /// `move_dir` gets to do. `occupants` lists the actors that take up a
    /// whole cell, each with its position.
    pub fn run(
        &self,
        move_dir: Dir,
        player_pos: Pos,
        occupants: &Vec<(u32, Pos)>,
        level: &LevelInfo,
    ) -> (r: Option<ActorCommand>)
        ensures
            r == validated_move(*level, player_pos, move_dir, occupants@),
    {
        let target_pos = match player_pos.checked_moved(move_dir) {
            Some(p) => p,
            None => {
                return None;
            },
        };
        if !level.is_valid(target_pos) || !level.get(target_pos).is_walkable() {
            return None;
        }
        let mut i: usize = 0;
        while i < occupants.len()
            invariant
                i <= occupants.len(),
                stepped(player_pos, move_dir) == Some(target_pos),
                level.has(target_pos),
                level.at(target_pos).walkable(),
                forall|j: int| 0 <= j < i ==> (#[trigger] occupants@[j]).1 != target_pos,
            decreases occupants.len() - i,
        {
            let (e, pos) = occupants[i];
            if pos == target_pos {
                proof {
                    assert(is_first_at(occupants@, target_pos, i as int));
                    let k = choose|k: int| is_first_at(occupants@, target_pos, k);
                    assert(occupants@[k].1 == target_pos);
                    assert(k == i);
                }
                return Some(ActorCommand::MeleeAttack { pos: target_pos, target: e });
            }
            i += 1;
        }
        proof {
            assert forall|k: int| !is_first_at(occupants@, target_pos, k) by {
                if 0 <= k < occupants@.len() {
                    assert(occupants@[k].1 != target_pos);
                }
            }
        }
        Some(ActorCommand::Move(move_dir))
    }
}

} // verus!
