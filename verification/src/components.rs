//! The data that actors carry: fighting skills and pending damage.

use vstd::prelude::*;

verus! {

/// The integer type of combat attributes.
pub type Attr = i32;

/// Damage that waits to be dealt to an actor.
#[derive(Default, Debug, Clone, Copy, PartialEq, Eq, Structural)]
pub struct HasEffectStack {
    pub attack_power: Attr,
}

impl HasEffectStack {
    /// Adds the power of the attacker `f` to the damage that waits.
    pub fn add_damage(&mut self, f: &IsFighter)
        requires
            Attr::MIN <= old(self).attack_power + f.power <= Attr::MAX,
        ensures
            final(self).attack_power == old(self).attack_power + f.power,
    {
        self.attack_power += f.power;
    }
}

/// How well an actor fights and how much it can still take.
#[derive(Clone, Copy, Debug, PartialEq, Eq, Structural)]
pub struct IsFighter {
    pub max_hp: Attr,
    pub current_hp: Attr,
    pub power: Attr,
    pub defense: Attr,
}

impl IsFighter {
    /// The damage that an attack of strength `damage_power` does to this
    /// fighter: what the defense leaves of it, and never less than nothing.
    pub open spec fn damage_from(self, damage_power: Attr) -> int {
        if damage_power - self.defense > 0 {
            damage_power - self.defense
        } else {
            0
        }
    }

    /// A fighter at full health.
    pub fn new(hp: Attr, power: Attr, defense: Attr) -> (r: IsFighter)
        ensures
            r == (IsFighter { max_hp: hp, current_hp: hp, power, defense }),
    {
        IsFighter { max_hp: hp, current_hp: hp, power, defense }
    }

    /// Takes what the defense leaves of an attack of strength `damage_power`
    /// from the fighter's health.
    pub fn inflict_damage(&mut self, damage_power: Attr)
        requires
            Attr::MIN <= damage_power - old(self).defense <= Attr::MAX,
            Attr::MIN <= old(self).current_hp - old(self).damage_from(damage_power),
        ensures
            final(self).current_hp == old(self).current_hp - old(self).damage_from(damage_power),
            final(self).max_hp == old(self).max_hp,
            final(self).power == old(self).power,
            final(self).defense == old(self).defense,
    {
        let raw: Attr = damage_power - self.defense;
        let damage: Attr = if raw > 0 { raw } else { 0 };
        self.current_hp -= damage;
    }

    /// Whether the fighter's health has fallen below zero.
    pub fn is_dead(&self) -> (r: bool)
        ensures
            r == (self.current_hp < 0),
    {
        self.current_hp < 0
    }
}

} // verus!
