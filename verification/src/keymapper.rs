//! Which key asks for which command.

use vstd::prelude::*;
use vstd::hash_map::StringHashMap;
use crate::structures::ActorCommand;
use crate::structures::Command;
use crate::structures::Dir;
use crate::structures::GameCommand;
use crate::structures::MoveDir;

verus! {

/// The keys that the game listens to; every other key is `Other`.
#[derive(Debug, Clone, Copy, PartialEq, Eq, Structural)]
pub enum KeyCode {
    Left,
    Right,
    Up,
    Down,
    Escape,
    Other,
}

impl KeyCode {
    /// The name under which the key is bound, if the game listens to it.
    pub open spec fn spec_mnemonic(self) -> Option<Seq<char>> {
        match self {
            KeyCode::Left => Some("ArrowLeft"@),
            KeyCode::Right => Some("ArrowRight"@),
            KeyCode::Up => Some("ArrowUp"@),
            KeyCode::Down => Some("ArrowDown"@),
            KeyCode::Escape => Some("Escape"@),
            KeyCode::Other => None,
        }
    }

    /// The name under which the key is bound, if the game listens to it.
    pub fn mnemonic(self) -> (r: Option<&'static str>)
        ensures
            r is Some == self.spec_mnemonic() is Some,
            r matches Some(name) ==> name@ == self.spec_mnemonic()->Some_0,
    {
        match self {
            KeyCode::Left => Some("ArrowLeft"),
            KeyCode::Right => Some("ArrowRight"),
            KeyCode::Up => Some("ArrowUp"),
            KeyCode::Down => Some("ArrowDown"),
            KeyCode::Escape => Some("Escape"),
            KeyCode::Other => None,
        }
    }
}

/// The command that moves the player by `ns` along the north-south axis
/// and by `ew` along the east-west axis.
pub open spec fn move_by(ns: MoveDir, ew: MoveDir) -> Command {
    Command::PlayerCommand(ActorCommand::Move(Dir { ns, ew }))
}

/// The bindings of the game: Escape ends it, the arrow keys move the
/// player.
pub open spec fn game_bindings() -> Map<Seq<char>, Command> {
    Map::<Seq<char>, Command>::empty().insert(
        "Escape"@,
        Command::GameCommand(GameCommand::Exit),
    ).insert("ArrowLeft"@, move_by(MoveDir::Zero, MoveDir::Minus)).insert(
        "ArrowRight"@,
        move_by(MoveDir::Zero, MoveDir::Plus),
    ).insert("ArrowUp"@, move_by(MoveDir::Minus, MoveDir::Zero)).insert(
        "ArrowDown"@,
        move_by(MoveDir::Plus, MoveDir::Zero),
    )
}

/// Whether `name` is one of `names`.
pub open spec fn is_listed(names: Seq<String>, name: Seq<char>) -> bool {
    exists|i: int| 0 <= i < names.len() && (#[trigger] names[i])@ == name
}

/// Whether `names` lists exactly the names that `bindings` binds.
pub open spec fn lists_the_keys(bindings: Map<Seq<char>, Command>, names: Seq<String>) -> bool {
    forall|k: Seq<char>| #[trigger] bindings.contains_key(k) <==> is_listed(names, k)
}

/// The bindings of keys, by name, to commands.
pub struct KeyMapper {
    /// The command for each bound name.
    game_commands: StringHashMap<Command>,
    /// The bound names, each once: what the bindings are walked by.
    names: Vec<String>,
}

impl KeyMapper {
    #[verifier::type_invariant]
    spec fn names_are_the_keys(self) -> bool {
        lists_the_keys(self.game_commands@, self.names@)
    }

    /// The bindings: for the name of each bound key the command that it
    /// asks for.
    pub closed spec fn bindings(self) -> Map<Seq<char>, Command> {
        self.game_commands@
    }

    /// The bindings of the game.
    pub fn new() -> (r: KeyMapper)
        ensures
            r.bindings() == game_bindings(),
    {
        let mut game_commands: StringHashMap<Command> = StringHashMap::new();
        game_commands.insert("Escape".to_owned(), Command::exit());
        game_commands.insert("ArrowLeft".to_owned(), Command::west());
        game_commands.insert("ArrowRight".to_owned(), Command::east());
        game_commands.insert("ArrowUp".to_owned(), Command::north());
        game_commands.insert("ArrowDown".to_owned(), Command::south());
        let mut names: Vec<String> = Vec::new();
        names.push("Escape".to_owned());
        names.push("ArrowLeft".to_owned());
        names.push("ArrowRight".to_owned());
        names.push("ArrowUp".to_owned());
        names.push("ArrowDown".to_owned());
        proof {
            assert(names@[0]@ == "Escape"@);
            assert(names@[1]@ == "ArrowLeft"@);
            assert(names@[2]@ == "ArrowRight"@);
            assert(names@[3]@ == "ArrowUp"@);
            assert(names@[4]@ == "ArrowDown"@);
            assert(game_commands@ == game_bindings());
            assert forall|k: Seq<char>| #[trigger]
                game_commands@.contains_key(k) <==> is_listed(names@, k) by {
                if game_commands@.contains_key(k) {
                    let i: int = if k == "Escape"@ {
                        0
                    } else if k == "ArrowLeft"@ {
                        1
                    } else if k == "ArrowRight"@ {
                        2
                    } else if k == "ArrowUp"@ {
                        3
                    } else {
                        4
                    };
                    assert(names@[i]@ == k);
                }
            }
        }
        KeyMapper { game_commands, names }
    }

    /// All bindings: each bound name once with its command, in no order
    /// that can be relied on.
    pub fn commands(&self) -> (r: Vec<(String, Command)>)
        ensures
            forall|i: int|
                0 <= i < r@.len() ==> self.bindings().contains_key((#[trigger] r@[i]).0@)
                    && self.bindings()[r@[i].0@] == r@[i].1,
            forall|k: Seq<char>|
                self.bindings().contains_key(k) ==> exists|i: int|
                    0 <= i < r@.len() && (#[trigger] r@[i]).0@ == k,
    {
        proof {
            use_type_invariant(self);
        }
        let mut all: Vec<(String, Command)> = Vec::new();
        let mut i: usize = 0;
        while i < self.names.len()
            invariant
                i <= self.names.len(),
                all@.len() == i,
                lists_the_keys(self.game_commands@, self.names@),
                forall|j: int|
                    0 <= j < i ==> (#[trigger] all@[j]).0@ == self.names@[j]@
                        && self.game_commands@.contains_key(all@[j].0@) && self.game_commands@[all@[j].0@]
                        == all@[j].1,
            decreases self.names.len() - i,
        {
            let name = self.names[i].clone();
            assert(is_listed(self.names@, self.names@[i as int]@));
            match self.game_commands.get(name.as_str()) {
                Some(command) => {
                    all.push((name, *command));
                },
                None => {
                    assert(false);
                },
            }
            i += 1;
        }
        proof {
            assert forall|k: Seq<char>| self.bindings().contains_key(k) implies exists|i: int|
                0 <= i < all@.len() && (#[trigger] all@[i]).0@ == k by {
                assert(is_listed(self.names@, k));
                let j = choose|j: int|
                    0 <= j < self.names@.len() && (#[trigger] self.names@[j])@ == k;
                assert(all@[j].0@ == k);
            }
        }
        all
    }

    /// The command bound to the key with the name `key`, if any is.
    pub fn lookup(&self, key: &str) -> (r: Option<&Command>)
        ensures
            r is Some == self.bindings().contains_key(key@),
            r matches Some(c) ==> *c == self.bindings()[key@],
    {
        self.game_commands.get(key)
    }

    /// The command that the pressed key asks for, if the game listens to
    /// the key and a command is bound to its name.
    pub fn command(&self, key: KeyCode) -> (r: Option<&Command>)
        ensures
            r is Some == (key.spec_mnemonic() matches Some(name) && self.bindings().contains_key(
                name,
            )),
            r matches Some(c) ==> *c == self.bindings()[key.spec_mnemonic()->Some_0],
    {
        match key.mnemonic() {
            Some(name) => self.lookup(name),
            None => None,
        }
    }
}

} // verus!
