use rogue_grid::{
    get_inventory_list, get_random_points_in_rect, map_indexing_system, melee_damage,
    monster_ai_to_player, try_move_player, try_pickup_item, CombatStats, EntityId, GameLog,
    InInventory, InitiateAttackCommand, Name, PickupItemCommand, Point, Position, Rect, Rng,
    RunState, TileMap, TileType, Viewshed,
};

fn open_map(width: i32, height: i32) -> TileMap {
    let mut map = TileMap::blank(width, height, TileType::Floor);
    map_indexing_system(&mut map, &vec![], &vec![]);
    map
}

#[test]
fn player_moves_onto_free_cell() {
    let map = open_map(10, 10);
    let player = EntityId(1);
    let mut pos = Position { x: 4, y: 4 };
    let mut viewshed = Viewshed::with_range(8);
    viewshed.dirty = false;
    let (state, attack) = try_move_player(&map, player, &mut pos, &mut viewshed, None, 1, 0);
    assert_eq!(state, RunState::PlayerTurn);
    assert!(attack.is_none());
    assert_eq!(pos, Position { x: 5, y: 4 });
    assert!(viewshed.dirty);
}

#[test]
fn player_blocked_by_wall_stays_put() {
    let mut map = TileMap::blank(10, 10, TileType::Floor);
    map.apply_tile(5, 4, TileType::Wall);
    map_indexing_system(&mut map, &vec![], &vec![]);
    let player = EntityId(1);
    let mut pos = Position { x: 4, y: 4 };
    let mut viewshed = Viewshed::with_range(8);
    viewshed.dirty = false;
    let (state, attack) = try_move_player(&map, player, &mut pos, &mut viewshed, None, 1, 0);
    assert_eq!(state, RunState::AwaitingInput);
    assert!(attack.is_none());
    assert_eq!(pos, Position { x: 4, y: 4 });
    assert!(!viewshed.dirty);
}

#[test]
fn player_attacks_combatant_instead_of_moving() {
    let map = open_map(10, 10);
    let player = EntityId(1);
    let monster = EntityId(2);
    let mut pos = Position { x: 4, y: 4 };
    let mut viewshed = Viewshed::with_range(8);
    let (state, attack) =
        try_move_player(&map, player, &mut pos, &mut viewshed, Some(monster), 1, 0);
    assert_eq!(state, RunState::PlayerTurn);
    assert_eq!(attack, Some(InitiateAttackCommand { attacker: player, defender: monster }));
    assert_eq!(pos, Position { x: 4, y: 4 });
}

#[test]
fn pickup_takes_first_item_on_cell() {
    let player = EntityId(1);
    let player_pos = Position { x: 3, y: 3 };
    let items = vec![
        (EntityId(10), Position { x: 2, y: 3 }),
        (EntityId(11), Position { x: 3, y: 3 }),
        (EntityId(12), Position { x: 3, y: 3 }),
    ];
    let (state, cmd) = try_pickup_item(player, &player_pos, &items);
    assert_eq!(state, RunState::PlayerTurn);
    assert_eq!(cmd, Some(PickupItemCommand { collector: player, item: EntityId(11) }));

    let (state, cmd) = try_pickup_item(player, &Position { x: 9, y: 9 }, &items);
    assert_eq!(state, RunState::AwaitingInput);
    assert!(cmd.is_none());
}

#[test]
fn adjacent_monster_attacks_player() {
    let mut map = open_map(10, 10);
    map_indexing_system(&mut map, &vec![Position { x: 5, y: 5 }], &vec![]);
    let player_pos = Position { x: 4, y: 4 };
    let player_index = map.get_index(4, 4).unwrap();
    let mut monster_pos = Position { x: 5, y: 5 };
    let mut viewshed = Viewshed::with_range(8);
    viewshed.visible_tiles.push(Point { x: 4, y: 4 });
    viewshed.dirty = false;

    let cmd = monster_ai_to_player(
        &mut map,
        EntityId(2),
        &mut monster_pos,
        &mut viewshed,
        EntityId(1),
        &player_pos,
        player_index,
    );
    assert_eq!(cmd, Some(InitiateAttackCommand { attacker: EntityId(2), defender: EntityId(1) }));
    assert_eq!(monster_pos, Position { x: 5, y: 5 });
}

#[test]
fn distant_monster_steps_toward_player() {
    let mut map = open_map(10, 10);
    map_indexing_system(&mut map, &vec![Position { x: 8, y: 4 }], &vec![]);
    let player_pos = Position { x: 4, y: 4 };
    let player_index = map.get_index(4, 4).unwrap();
    let mut monster_pos = Position { x: 8, y: 4 };
    let mut viewshed = Viewshed::with_range(8);
    viewshed.visible_tiles.push(Point { x: 4, y: 4 });
    viewshed.dirty = false;

    let cmd = monster_ai_to_player(
        &mut map,
        EntityId(2),
        &mut monster_pos,
        &mut viewshed,
        EntityId(1),
        &player_pos,
        player_index,
    );
    assert!(cmd.is_none());
    // The monster moved one king-step closer and updated the blocked
    // index for its old and new cells.
    assert_ne!(monster_pos, Position { x: 8, y: 4 });
    assert!((monster_pos.x - 8).abs() <= 1 && (monster_pos.y - 4).abs() <= 1);
    assert!(viewshed.dirty);
    assert!(!map.is_tile_blocked(8, 4));
    assert!(map.is_tile_blocked(monster_pos.x, monster_pos.y));
}

#[test]
fn unseen_player_is_ignored() {
    let mut map = open_map(10, 10);
    let player_pos = Position { x: 4, y: 4 };
    let player_index = map.get_index(4, 4).unwrap();
    let mut monster_pos = Position { x: 8, y: 4 };
    let mut viewshed = Viewshed::with_range(8);
    viewshed.dirty = false;

    let cmd = monster_ai_to_player(
        &mut map,
        EntityId(2),
        &mut monster_pos,
        &mut viewshed,
        EntityId(1),
        &player_pos,
        player_index,
    );
    assert!(cmd.is_none());
    assert_eq!(monster_pos, Position { x: 8, y: 4 });
    assert!(!viewshed.dirty);
}

#[test]
fn inventory_list_filters_by_owner() {
    let owner = EntityId(1);
    let other = EntityId(2);
    let entries = vec![
        (EntityId(10), InInventory { owner }, "Health Potion".to_string()),
        (EntityId(11), InInventory { owner: other }, "Dagger".to_string()),
        (EntityId(12), InInventory { owner }, "Scroll".to_string()),
    ];
    let list = get_inventory_list(&entries, owner);
    assert_eq!(list.len(), 2);
    assert_eq!(list[0].0, EntityId(10));
    assert_eq!(list[0].1, "Health Potion");
    assert_eq!(list[1].0, EntityId(12));
    assert_eq!(list[1].1, "Scroll");
}

#[test]
fn combat_arithmetic() {
    let attacker = CombatStats { max_hp: 30, hp: 30, defense: 2, power: 5 };
    let defender = CombatStats { max_hp: 16, hp: 16, defense: 1, power: 4 };
    assert_eq!(melee_damage(&attacker, &defender), 4);
    assert_eq!(melee_damage(&defender, &attacker), 2);
    let tough = CombatStats { max_hp: 10, hp: 10, defense: 9, power: 1 };
    assert_eq!(melee_damage(&tough, &attacker), 0);

    let hurt = defender.damaged(10);
    assert_eq!(hurt.hp, 6);
    assert!(!hurt.is_dead());
    let dead = hurt.damaged(10);
    assert_eq!(dead.hp, 0);
    assert!(dead.is_dead());

    let healed = hurt.healed(8);
    assert_eq!(healed.hp, 14);
    let overhealed = healed.healed(8);
    assert_eq!(overhealed.hp, 16);
}

#[test]
fn random_points_stay_in_rect_and_never_repeat() {
    let rect = Rect { x1: 2, y1: 3, x2: 8, y2: 9 };
    let mut rng = Rng::new(5);
    let points = get_random_points_in_rect(&rect, &mut rng, 10);
    assert!(points.len() <= 10);
    for (i, p) in points.iter().enumerate() {
        assert!(rect.x1 < p.0 && p.0 <= rect.x2);
        assert!(rect.y1 < p.1 && p.1 <= rect.y2);
        for q in points[..i].iter() {
            assert_ne!(p, q);
        }
    }
}

#[test]
fn game_log_appends_in_order() {
    let mut log = GameLog::new();
    assert!(log.entries.is_empty());
    log.push("Welcome".to_string());
    log.push("A goblin appears".to_string());
    assert_eq!(log.entries, vec!["Welcome".to_string(), "A goblin appears".to_string()]);
}

#[test]
fn component_constructors() {
    let pos = Position { x: 3, y: -2 };
    let pt = pos.to_point();
    assert_eq!((pt.x, pt.y), (3, -2));

    let vs = Viewshed::with_range(8);
    assert!(vs.dirty);
    assert_eq!(vs.range, 8);
    assert!(vs.visible_tiles.is_empty());

    let name = Name("Orc".to_string());
    assert_eq!(name.as_str(), "Orc");
}
