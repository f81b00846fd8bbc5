//! The arithmetic of taking damage.

use vstd::prelude::*;

use crate::components::CombatStats;

verus! {

impl CombatStats {
    /// Subtract damage from hit points, never below zero. The entity is
    /// dead exactly when the result reaches zero.
    pub fn damaged(self, amount: i32) -> (r: CombatStats)
        requires
            0 <= amount,
            i32::MIN < self.hp - amount,
        ensures
            r.hp == if self.hp - amount >= 0 {
                self.hp - amount
            } else {
                0
            },
            r.max_hp == self.max_hp,
            r.defense == self.defense,
            r.power == self.power,
    {
        let reduced = self.hp - amount;
        let hp = if reduced >= 0 {
            reduced
        } else {
            0
        };
        CombatStats { hp, ..self }
    }

    /// Is the entity out of hit points?
    pub fn is_dead(&self) -> (r: bool)
        ensures
            r == (self.hp <= 0),
    {
        self.hp <= 0
    }
}

} // verus!
