//! The arithmetic of a melee exchange.

use vstd::prelude::*;

use crate::components::CombatStats;

verus! {

/// Damage dealt by one melee blow: the attacker's power less the
/// defender's defense, and never negative.
pub fn melee_damage(attacker: &CombatStats, defender: &CombatStats) -> (r: i32)
    requires
        i32::MIN < attacker.power - defender.defense <= i32::MAX,
    ensures
        r == if attacker.power - defender.defense >= 0 {
            attacker.power - defender.defense
        } else {
            0
        },
{
    let raw = attacker.power - defender.defense;
    if raw >= 0 {
        raw
    } else {
        0
    }
}

} // verus!
