//! A roguelike dungeon core: procedural room-and-corridor map generation,
//! a dense tile grid with per-cell indices (revealed, visible, blocked,
//! occupants), A* pathfinding and field-of-view computation, together with
//! the turn-logic that drives them.

mod cliopt;
mod color;
mod components;
mod config;
mod damage_system;
mod entity;
mod fov;
mod gamelog;
mod gui;
mod inventory;
mod map_indexing_system;
mod melee_combat_system;
mod monster_ai_system;
mod pathfinding;
mod player;
mod rect;
mod rng;
mod spawner;
mod tilemap;
mod visibility_system;

pub use cliopt::ParsedOpt;
pub use color::Rgb;
pub use config::{
    cp437_code, default_user_config, parse_color_code, parse_color_code_option, parse_glyph,
    to_cp437, Config, ConfigParseError, TextConfig, TextUserConfig, TileConfig, TileUserConfig,
    UserConfig,
};

pub use components::{
    BlocksTile, CombatStats, DamageCommand, DespawnCommand, DropItemCommand, HealingItem,
    InInventory, InitiateAttackCommand, Item, Monster, Name, PickupItemCommand, Player, Point,
    Position, Renderable, UseItemCommand, Viewshed,
};
pub use entity::EntityId;
pub use fov::{apply_viewshed_to_map, dist2, field_of_view, los_clear, update_viewshed, visible_spec};
pub use gamelog::GameLog;
pub use gui::{index_to_letter, ItemMenuResult, MAP_VIEW_HEIGHT, MAP_VIEW_WIDTH};
pub use inventory::{get_inventory_list, inventory_view};
pub use map_indexing_system::{blocker_marks, map_indexing_system, occupants_of, pos_maps_to};
pub use melee_combat_system::melee_damage;
pub use monster_ai_system::{monster_ai_to_player, points_contain};
pub use pathfinding::{
    edge, find_path, reachable, valid_path, NavigationPath,
};
pub use player::{try_move_player, try_pickup_item, RunState};
pub use rect::Rect;
pub use rng::Rng;
pub use spawner::get_random_points_in_rect;
pub use tilemap::{Corridor, TileMap, TileType};
pub use visibility_system::{
    lemma_visible_spec_same_terrain, map_shows_viewshed, viewshed_updated, visibility_system,
};
