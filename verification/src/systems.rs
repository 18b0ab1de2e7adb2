//! The steps of a turn, each as a decision on plain values.

use vstd::prelude::*;
use crate::components::Attr;
use crate::components::HasEffectStack;
use crate::components::IsFighter;
use crate::pos::Pos;
use crate::structures::stepped;
use crate::structures::ActorCommand;

verus! {

/// What carrying out a command changes.
#[derive(Debug, Clone, Copy, PartialEq, Eq, Structural)]
pub enum Effect {
    /// The actor now stands at this position.
    MovedTo(Pos),
    /// The actor `target` is to take damage of this power.
    Struck { target: u32, power: Attr },
}

/// The step that carries out the commands that actors have planned.
#[derive(Debug, Default)]
pub struct ExecuteCommands;

impl ExecuteCommands {
    /// Carries out the plan of an actor who stands at `pos`. A move takes
    /// the actor one step on; a move must not leave the range of
    /// coordinates. An attack strikes the target with the power of the
    /// actor, who must be a fighter.
    pub fn run(&mut self, pos: Pos, plan: &ActorCommand, fighter: Option<&IsFighter>) -> (r: Effect)
        requires
            *plan matches ActorCommand::Move(dir) ==> stepped(pos, dir) is Some,
            *plan is MeleeAttack ==> fighter is Some,
        ensures
            r == match *plan {
                ActorCommand::Move(dir) => Effect::MovedTo(stepped(pos, dir)->Some_0),
                ActorCommand::MeleeAttack { pos: _, target } => Effect::Struck {
                    target,
                    power: fighter->Some_0.power,
                },
            },
    {
        match plan {
            ActorCommand::Move(dir) => Effect::MovedTo(pos.moved(*dir)),
            ActorCommand::MeleeAttack { pos: _, target } => {
                let f = fighter.unwrap();
                Effect::Struck { target: *target, power: f.power }
            },
        }
    }
}

/// The step that deals the damage that waits.
#[derive(Debug, Default)]
pub struct ExecuteEffects;

impl ExecuteEffects {
    /// Deals the damage that waits in `dam` to the fighter `hp`.
    pub fn run(&mut self, hp: &mut IsFighter, dam: &HasEffectStack)
        requires
            Attr::MIN <= dam.attack_power - old(hp).defense <= Attr::MAX,
            Attr::MIN <= old(hp).current_hp - old(hp).damage_from(dam.attack_power),
        ensures
            final(hp).current_hp == old(hp).current_hp - old(hp).damage_from(dam.attack_power),
            final(hp).max_hp == old(hp).max_hp,
            final(hp).power == old(hp).power,
            final(hp).defense == old(hp).defense,
    {
        hp.inflict_damage(dam.attack_power);
    }
}

/// The dead among `fighters`, in the order in which they are listed.
pub open spec fn dead_of(fighters: Seq<(u32, IsFighter)>) -> Seq<u32>
    decreases fighters.len(),
{
    if fighters.len() == 0 {
        Seq::empty()
    } else if fighters.last().1.current_hp < 0 {
        dead_of(fighters.drop_last()).push(fighters.last().0)
    } else {
        dead_of(fighters.drop_last())
    }
}

/// The step that clears away the dead.
#[derive(Debug, Default)]
pub struct Clean;

impl Clean {
    /// The actors that are to be removed: those of `fighters` that are
    /// dead.
    pub fn run(&mut self, fighters: &Vec<(u32, IsFighter)>) -> (r: Vec<u32>)
        ensures
            r@ == dead_of(fighters@),
    {
        let mut dead: Vec<u32> = Vec::new();
        let mut i: usize = 0;
        assert(fighters@.subrange(0, 0) =~= Seq::<(u32, IsFighter)>::empty());
        while i < fighters.len()
            invariant
                i <= fighters.len(),
                dead@ == dead_of(fighters@.subrange(0, i as int)),
            decreases fighters.len() - i,
        {
            proof {
                let next = fighters@.subrange(0, i + 1);
                assert(next.drop_last() =~= fighters@.subrange(0, i as int));
                assert(next.last() == fighters@[i as int]);
            }
            let (entity, hp) = fighters[i];
            if hp.is_dead() {
                dead.push(entity);
            }
            i += 1;
        }
        assert(fighters@.subrange(0, fighters@.len() as int) =~= fighters@);
        dead
    }
}

} // verus!
