//! The player's turn: moving, bumping into something that can fight,
//! and picking items up.

use vstd::prelude::*;

use crate::components::{InitiateAttackCommand, PickupItemCommand, Position, Viewshed};
use crate::entity::EntityId;
use crate::tilemap::TileMap;

verus! {

/// What the game loop is currently doing.
#[derive(Debug, Clone, Copy, PartialEq, Eq, Structural)]
pub enum RunState {
    AwaitingInput,
    PreRun,
    PlayerTurn,
    AiTurn,
    ShowInventory,
}

/// Try to move the player by one step.
///
/// When the destination holds a combatant (`target_with_stats`, looked up
/// by the caller from the destination cell's occupants), the move becomes
/// an attack and the player stays put. Otherwise the player moves exactly
/// when the destination cell exists and is not blocked, and the move
/// dirties the viewshed. Anything else leaves the world unchanged and
/// keeps waiting for input.
pub fn try_move_player(
    map: &TileMap,
    player: EntityId,
    pos: &mut Position,
    viewshed: &mut Viewshed,
    target_with_stats: Option<EntityId>,
    dx: i32,
    dy: i32,
) -> (r: (RunState, Option<InitiateAttackCommand>))
    requires
        map.wf(),
        map.in_bounds(old(pos).x as int, old(pos).y as int),
        -1 <= dx <= 1,
        -1 <= dy <= 1,
    ensures
        ({
            let tx = old(pos).x + dx;
            let ty = old(pos).y + dy;
            match target_with_stats {
                Some(t) => {
                    &&& r.0 == RunState::PlayerTurn
                    &&& r.1 == Some(InitiateAttackCommand { attacker: player, defender: t })
                    &&& *final(pos) == *old(pos)
                    &&& final(viewshed).visible_tiles@ == old(viewshed).visible_tiles@
                    &&& final(viewshed).range == old(viewshed).range
                    &&& final(viewshed).dirty == old(viewshed).dirty
                },
                None => {
                    &&& r.1 == None::<InitiateAttackCommand>
                    &&& final(viewshed).visible_tiles@ == old(viewshed).visible_tiles@
                    &&& final(viewshed).range == old(viewshed).range
                    &&& if map.in_bounds(tx, ty) && !map.blocked_at(tx, ty) {
                        &&& r.0 == RunState::PlayerTurn
                        &&& final(pos).x == tx && final(pos).y == ty
                        &&& final(viewshed).dirty
                    } else {
                        &&& r.0 == RunState::AwaitingInput
                        &&& *final(pos) == *old(pos)
                        &&& final(viewshed).dirty == old(viewshed).dirty
                    }
                },
            }
        }),
{
    if let Some(target) = target_with_stats {
        return (
            RunState::PlayerTurn,
            Some(InitiateAttackCommand { attacker: player, defender: target }),
        );
    }

    let x = pos.x + dx;
    let y = pos.y + dy;
    let destination_exists = match map.get_tile(x, y) {
        Some(_) => true,
        None => false,
    };
    if destination_exists && !map.is_tile_blocked(x, y) {
        pos.x = x;
        pos.y = y;
        viewshed.dirty = true;
        (RunState::PlayerTurn, None)
    } else {
        (RunState::AwaitingInput, None)
    }
}

/// Try to pick an item up from the player's cell: the first item of the
/// list standing exactly on the player's position is collected; with no
/// such item the turn is not spent.
pub fn try_pickup_item(
    player: EntityId,
    player_pos: &Position,
    items: &Vec<(EntityId, Position)>,
) -> (r: (RunState, Option<PickupItemCommand>))
    ensures
        match r.1 {
            Some(cmd) => {
                &&& r.0 == RunState::PlayerTurn
                &&& cmd.collector == player
                &&& exists|i: int|
                    0 <= i < items@.len() && (#[trigger] items@[i]).1 == *player_pos && cmd.item
                        == items@[i].0 && forall|k: int| 0 <= k < i ==> items@[k].1 != *player_pos
            },
            None => {
                &&& r.0 == RunState::AwaitingInput
                &&& forall|k: int| 0 <= k < items@.len() ==> (#[trigger] items@[k]).1 != *player_pos
            },
        },
{
    let n = items.len();
    let mut i: usize = 0;
    while i < n
        invariant
            n == items@.len(),
            i <= n,
            forall|k: int| 0 <= k < i ==> (#[trigger] items@[k]).1 != *player_pos,
        decreases n - i,
    {
        let (item, item_pos) = items[i];
        if item_pos.x == player_pos.x && item_pos.y == player_pos.y {
            proof {
                assert(items@[i as int].1 == *player_pos);
            }
            return (RunState::PlayerTurn, Some(PickupItemCommand { collector: player, item }));
        }
        i = i + 1;
    }
    (RunState::AwaitingInput, None)
}

} // verus!
