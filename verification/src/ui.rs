//! What the game does with a command.

use vstd::prelude::*;
use crate::level_data::LevelInfo;
use crate::pos::Pos;
use crate::structures::ActorCommand;
use crate::structures::Command;
use crate::structures::GameCommand;
use crate::validation::validated_move;
use crate::validation::MoveValidation;

verus! {

/// What is to be done about a command.
#[derive(Debug, Clone, Copy, PartialEq, Eq, Structural)]
pub enum Handling {
    /// The game ends.
    Exit,
    /// The player plans to carry out this command in the next turn.
    Plan(ActorCommand),
    /// The command comes to nothing.
    Nothing,
}

/// What is to be done about the command `gc` of a player who stands at
/// `player_pos`: the game ends on the command to exit; a move is planned as
/// far as the level and the actors in the way allow.
pub open spec fn handled(
    gc: Command,
    player_pos: Pos,
    occupants: Seq<(u32, Pos)>,
    level: LevelInfo,
) -> Handling {
    match gc {
        Command::GameCommand(GameCommand::Exit) => Handling::Exit,
        Command::PlayerCommand(ActorCommand::Move(dir)) => match validated_move(
            level,
            player_pos,
            dir,
            occupants,
        ) {
            Some(plan) => Handling::Plan(plan),
            None => Handling::Nothing,
        },
        Command::PlayerCommand(ActorCommand::MeleeAttack { .. }) => Handling::Nothing,
    }
}

/// The part of the game that takes the commands of the player.
#[derive(Debug, Default)]
pub struct GameCommandHandler;

impl GameCommandHandler {
    /// Decides what is to be done about the command `gc` of a player who
    /// stands at `player_pos`. `occupants` lists the actors that take up a
    /// whole cell. A player never asks for an attack: attacks come out of
    /// moves.
    pub fn exec(
        &self,
        gc: &Command,
        player_pos: Pos,
        occupants: &Vec<(u32, Pos)>,
        level: &LevelInfo,
    ) -> (r: Handling)
        requires
            !(*gc matches Command::PlayerCommand(ActorCommand::MeleeAttack { .. })),
        ensures
            r == handled(*gc, player_pos, occupants@, *level),
    {
        match gc {
            Command::GameCommand(GameCommand::Exit) => Handling::Exit,
            Command::PlayerCommand(ac) => match ac {
                ActorCommand::Move(dir) => match MoveValidation.run(
                    *dir,
                    player_pos,
                    occupants,
                    level,
                ) {
                    Some(res) => Handling::Plan(res),
                    None => Handling::Nothing,
                },
                ActorCommand::MeleeAttack { .. } => Handling::Nothing,
            },
        }
    }
}

} // verus!
