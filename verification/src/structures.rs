//! Commands and the directions in which actors move.

use vstd::prelude::*;
use crate::pos::DimIndex;
use crate::pos::Pos;

verus! {

/// A command to the game itself.
#[derive(Debug, Clone, Copy, PartialEq, Eq, Structural)]
pub enum GameCommand {
    Exit,
}

/// What an actor sets out to do in a turn.
#[derive(Debug, Clone, Copy, PartialEq, Eq, Structural)]
pub enum ActorCommand {
    /// Step one cell in a direction.
    Move(Dir),
    /// Strike the actor `target`, who stands at `pos`.
    MeleeAttack { pos: Pos, target: u32 },
}

/// Anything that a key press can ask for.
#[derive(Debug, Clone, Copy, PartialEq, Eq, Structural)]
pub enum Command {
    GameCommand(GameCommand),
    PlayerCommand(ActorCommand),
}

impl Command {
    /// The command that ends the game.
    pub fn exit() -> (r: Command)
        ensures
            r == Command::GameCommand(GameCommand::Exit),
    {
        Command::GameCommand(GameCommand::Exit)
    }

    fn move_dir(dir: Dir) -> (r: Command)
        ensures
            r == Command::PlayerCommand(ActorCommand::Move(dir)),
    {
        Command::PlayerCommand(ActorCommand::Move(dir))
    }

    /// The command that moves the player one cell west.
    pub fn west() -> (r: Command)
        ensures
            r == Command::PlayerCommand(
                ActorCommand::Move(Dir { ns: MoveDir::Zero, ew: MoveDir::Minus }),
            ),
    {
        Command::move_dir(Dir::west())
    }

    /// The command that moves the player one cell east.
    pub fn east() -> (r: Command)
        ensures
            r == Command::PlayerCommand(
                ActorCommand::Move(Dir { ns: MoveDir::Zero, ew: MoveDir::Plus }),
            ),
    {
        Command::move_dir(Dir::east())
    }

    /// The command that moves the player one cell south.
    pub fn south() -> (r: Command)
        ensures
            r == Command::PlayerCommand(
                ActorCommand::Move(Dir { ns: MoveDir::Plus, ew: MoveDir::Zero }),
            ),
    {
        Command::move_dir(Dir::south())
    }

    /// The command that moves the player one cell north.
    pub fn north() -> (r: Command)
        ensures
            r == Command::PlayerCommand(
                ActorCommand::Move(Dir { ns: MoveDir::Minus, ew: MoveDir::Zero }),
            ),
    {
        Command::move_dir(Dir::north())
    }
}

/// A direction: how to move along the north-south axis and along the
/// east-west axis.
#[derive(Debug, Clone, Copy, PartialEq, Eq, Structural)]
pub struct Dir {
    pub ns: MoveDir,
    pub ew: MoveDir,
}

/// A move along one axis: one cell back, none, or one cell on.
#[derive(Debug, Clone, Copy, PartialEq, Eq, Structural)]
pub enum MoveDir {
    Minus,
    Zero,
    Plus,
}

impl MoveDir {
    /// The change of a coordinate: -1, 0 or 1.
    pub open spec fn delta(self) -> int {
        match self {
            MoveDir::Minus => -1,
            MoveDir::Zero => 0,
            MoveDir::Plus => 1,
        }
    }

    /// The coordinate `i` after the move; the move must not leave the range
    /// of coordinates.
    pub fn apply(self, i: DimIndex) -> (r: DimIndex)
        requires
            0 <= i + self.delta() <= DimIndex::MAX,
        ensures
            r == i + self.delta(),
    {
        match self {
            MoveDir::Minus => i - 1,
            MoveDir::Plus => i + 1,
            MoveDir::Zero => i,
        }
    }

    /// The coordinate `i` after the move, or `None` if the move leaves the
    /// range of coordinates.
    pub fn checked_apply(self, i: DimIndex) -> (r: Option<DimIndex>)
        ensures
            r == if 0 <= i + self.delta() <= DimIndex::MAX {
                Some((i + self.delta()) as DimIndex)
            } else {
                None
            },
    {
        match self {
            MoveDir::Minus => if i > 0 {
                Some(i - 1)
            } else {
                None
            },
            MoveDir::Plus => if i < DimIndex::MAX {
                Some(i + 1)
            } else {
                None
            },
            MoveDir::Zero => Some(i),
        }
    }

    /// The change of a coordinate as a number: -1, 0 or 1.
    pub fn to_int(self) -> (r: i8)
        ensures
            r == self.delta(),
    {
        match self {
            MoveDir::Minus => -1,
            MoveDir::Plus => 1,
            MoveDir::Zero => 0,
        }
    }
}

impl MoveDir {
    /// The change of a coordinate as a number of the type `T`: what `T`
    /// makes of -1, 0 or 1.
    pub fn to_num<T: From<i8>>(self) -> (r: T)
        ensures
            call_ensures(T::from, (self.delta() as i8,), r),
    {
        match self {
            MoveDir::Minus => T::from(-1),
            MoveDir::Plus => T::from(1),
            MoveDir::Zero => T::from(0),
        }
    }
}

impl Dir {
    /// One cell north: towards smaller `y`.
    pub fn north() -> (r: Dir)
        ensures
            r == (Dir { ns: MoveDir::Minus, ew: MoveDir::Zero }),
    {
        Dir { ns: MoveDir::Minus, ew: MoveDir::Zero }
    }

    /// One cell south: towards larger `y`.
    pub fn south() -> (r: Dir)
        ensures
            r == (Dir { ns: MoveDir::Plus, ew: MoveDir::Zero }),
    {
        Dir { ns: MoveDir::Plus, ew: MoveDir::Zero }
    }

    /// One cell west: towards smaller `x`.
    pub fn west() -> (r: Dir)
        ensures
            r == (Dir { ns: MoveDir::Zero, ew: MoveDir::Minus }),
    {
        Dir { ns: MoveDir::Zero, ew: MoveDir::Minus }
    }

    /// One cell east: towards larger `x`.
    pub fn east() -> (r: Dir)
        ensures
            r == (Dir { ns: MoveDir::Zero, ew: MoveDir::Plus }),
    {
        Dir { ns: MoveDir::Zero, ew: MoveDir::Plus }
    }
}

/// Where a step from `p` in direction `dir` leads, if that is a coordinate
/// at all.
pub open spec fn stepped(p: Pos, dir: Dir) -> Option<Pos> {
    if 0 <= p.x + dir.ew.delta() <= DimIndex::MAX && 0 <= p.y + dir.ns.delta() <= DimIndex::MAX {
        Some(
            Pos {
                x: (p.x + dir.ew.delta()) as DimIndex,
                y: (p.y + dir.ns.delta()) as DimIndex,
            },
        )
    } else {
        None
    }
}

impl Pos {
    /// The position one step in direction `dir`; the step must not leave
    /// the range of coordinates.
    pub fn moved(self, dir: Dir) -> (r: Pos)
        requires
            stepped(self, dir) is Some,
        ensures
            Some(r) == stepped(self, dir),
    {
        let x: DimIndex = dir.ew.apply(self.x);
        let y: DimIndex = dir.ns.apply(self.y);
        Pos { x, y }
    }

    /// The position one step in direction `dir`, or `None` if the step
    /// leaves the range of coordinates.
    pub fn checked_moved(self, dir: Dir) -> (r: Option<Pos>)
        ensures
            r == stepped(self, dir),
    {
        match (dir.ew.checked_apply(self.x), dir.ns.checked_apply(self.y)) {
            (Some(x), Some(y)) => Some(Pos { x, y }),
            _ => None,
        }
    }
}

} // verus!
