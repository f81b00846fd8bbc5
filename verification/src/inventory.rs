//! Inventory bookkeeping: listing what an entity carries and the healing
//! arithmetic of using an item.

use vstd::prelude::*;

use crate::components::{CombatStats, InInventory};
use crate::entity::EntityId;

verus! {

/// The inventory entries belonging to `owner`, in input order, as
/// `(item, name)` pairs at the level of views.
pub open spec fn inventory_view(
    entries: Seq<(EntityId, InInventory, String)>,
    owner: EntityId,
) -> Seq<(EntityId, Seq<char>)>
    decreases entries.len(),
{
    if entries.len() == 0 {
        Seq::empty()
    } else {
        let prefix = inventory_view(entries.drop_last(), owner);
        let last = entries.last();
        if last.1.owner == owner {
            prefix.push((last.0, last.2@))
        } else {
            prefix
        }
    }
}

/// List the items held by `owner`: each named entry whose `InInventory`
/// component points at `owner`, in input order.
pub fn get_inventory_list(
    entries: &Vec<(EntityId, InInventory, String)>,
    owner: EntityId,
) -> (r: Vec<(EntityId, String)>)
    ensures
        r@.len() == inventory_view(entries@, owner).len(),
        forall|k: int|
            0 <= k < r@.len() ==> (#[trigger] r@[k]).0 == inventory_view(entries@, owner)[k].0
                && r@[k].1@ == inventory_view(entries@, owner)[k].1,
{
    let n = entries.len();
    let mut r: Vec<(EntityId, String)> = Vec::new();
    let mut i: usize = 0;
    while i < n
        invariant
            n == entries@.len(),
            i <= n,
            r@.len() == inventory_view(entries@.subrange(0, i as int), owner).len(),
            forall|k: int|
                0 <= k < r@.len() ==> (#[trigger] r@[k]).0 == inventory_view(
                    entries@.subrange(0, i as int),
                    owner,
                )[k].0 && r@[k].1@ == inventory_view(entries@.subrange(0, i as int), owner)[k].1,
        decreases n - i,
    {
        let ghost sub_old = entries@.subrange(0, i as int);
        let ghost sub_new = entries@.subrange(0, i as int + 1);
        proof {
            assert(sub_new.drop_last() =~= sub_old);
            assert(sub_new.last() == entries@[i as int]);
        }
        let in_inventory = entries[i].1;
        if in_inventory.owner.0 == owner.0 {
            let item = entries[i].0;
            let name = entries[i].2.clone();
            r.push((item, name));
        }
        i = i + 1;
    }
    proof {
        assert(entries@.subrange(0, n as int) =~= entries@);
    }
    r
}

impl CombatStats {
    /// Drinking a healing item restores hit points, capped at the
    /// maximum.
    pub fn healed(self, heal_amount: i32) -> (r: CombatStats)
        requires
            0 <= heal_amount,
            self.hp + heal_amount <= i32::MAX,
        ensures
            r.hp == if self.hp + heal_amount <= self.max_hp {
                self.hp + heal_amount
            } else {
                self.max_hp as int
            },
            r.max_hp == self.max_hp,
            r.defense == self.defense,
            r.power == self.power,
    {
        let healed_hp = self.hp + heal_amount;
        let hp = if healed_hp <= self.max_hp {
            healed_hp
        } else {
            self.max_hp
        };
        CombatStats { hp, ..self }
    }
}

} // verus!
