//! The data carried by entities: positions, renderables, viewsheds,
//! combat statistics, and the command records that the turn systems
//! exchange.

use vstd::prelude::*;

use crate::color::Rgb;
use crate::entity::EntityId;

verus! {

/// A grid coordinate pair.
#[derive(Clone, Copy, PartialEq, Eq, Structural, Debug, Hash)]
pub struct Point {
    pub x: i32,
    pub y: i32,
}

/// Where an entity stands on the map.
#[derive(Clone, Copy, PartialEq, Eq, Structural, Debug, Hash)]
pub struct Position {
    pub x: i32,
    pub y: i32,
}

impl Position {
    pub fn to_point(&self) -> (r: Point)
        ensures
            r.x == self.x,
            r.y == self.y,
    {
        Point { x: self.x, y: self.y }
    }
}

/// How an entity is drawn: a glyph code with colors and a draw order.
#[derive(Clone, Copy, PartialEq, Eq, Structural, Debug)]
pub struct Renderable {
    pub glyph: u16,
    pub fg: Rgb,
    pub bg: Rgb,
    pub render_order: i32,
}

/// An actor's cached set of visible tiles, recomputed when `dirty`.
#[derive(Debug)]
pub struct Viewshed {
    pub visible_tiles: Vec<Point>,
    pub range: i32,
    pub dirty: bool,
}

impl Viewshed {
    /// A fresh viewshed: dirty, so the first visibility pass computes it.
    pub fn with_range(range: i32) -> (r: Viewshed)
        ensures
            r.visible_tiles@ == Seq::<Point>::empty(),
            r.range == range,
            r.dirty,
    {
        Viewshed { visible_tiles: Vec::new(), range, dirty: true }
    }
}

/// Tag for hostile actors.
#[derive(Debug)]
pub struct Monster;

/// A display name.
#[derive(Debug)]
pub struct Name(pub String);

impl Name {
    pub fn as_str(&self) -> (r: &str)
        ensures
            r@ == self.0@,
    {
        self.0.as_str()
    }
}

/// Tag for entities that make their cell impassable.
#[derive(Debug)]
pub struct BlocksTile;

/// Hit points and melee statistics.
#[derive(Debug, Default, Clone, Copy, PartialEq, Eq, Structural)]
pub struct CombatStats {
    pub max_hp: i32,
    pub hp: i32,
    pub defense: i32,
    pub power: i32,
}

/// Tag for entities that can be picked up.
#[derive(Debug)]
pub struct Item;

/// An item that restores hit points when used.
#[derive(Debug)]
pub struct HealingItem {
    pub heal_amount: i32,
}

/// A queued melee attack.
#[derive(Debug, Clone, Copy, PartialEq, Eq, Structural)]
pub struct InitiateAttackCommand {
    pub attacker: EntityId,
    pub defender: EntityId,
}

/// Queued damage against an entity.
#[derive(Debug, Clone, Copy, PartialEq, Eq, Structural)]
pub struct DamageCommand {
    pub entity: EntityId,
    pub amount: i32,
}

/// A queued removal of an entity from the world.
#[derive(Debug, Clone, Copy, PartialEq, Eq, Structural)]
pub struct DespawnCommand(pub EntityId);

/// Tag for the player actor.
#[derive(Debug)]
pub struct Player;

/// An item held in an entity's inventory.
#[derive(Debug, Clone, Copy, PartialEq, Eq, Structural)]
pub struct InInventory {
    pub owner: EntityId,
}

/// A queued request to pick an item up from the floor.
#[derive(Debug, Clone, Copy, PartialEq, Eq, Structural)]
pub struct PickupItemCommand {
    pub collector: EntityId,
    pub item: EntityId,
}

/// A queued request to use an item.
#[derive(Debug, Clone, Copy, PartialEq, Eq, Structural)]
pub struct UseItemCommand {
    pub user: EntityId,
    pub item: EntityId,
}

/// A queued request to drop a held item.
#[derive(Debug, Clone, Copy, PartialEq, Eq, Structural)]
pub struct DropItemCommand {
    pub dropper: EntityId,
    pub item: EntityId,
}

} // verus!
