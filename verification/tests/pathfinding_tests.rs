use rogue_grid::{find_path, map_indexing_system, EntityId, Position, Rect, TileMap, TileType};

/// Build the two-room scenario: a 20x20 all-wall grid, a 5x5 room near
/// each of two opposite corners, and one L-shaped corridor joining the
/// room centers.
fn two_room_map() -> TileMap {
    let mut map = TileMap::blank(20, 20, TileType::Wall);
    let room_a = Rect { x1: 1, y1: 1, x2: 6, y2: 6 };
    let room_b = Rect { x1: 12, y1: 12, x2: 17, y2: 17 };
    map.apply_rect(&room_a, TileType::Floor);
    map.apply_rect(&room_b, TileType::Floor);
    let (ax, ay) = room_a.center();
    let (bx, by) = room_b.center();
    map.apply_horizontal_line(ax, bx, ay, TileType::Floor);
    map.apply_vertical_line(ay, by, bx, TileType::Floor);
    // Derive blocked flags from the terrain alone.
    map_indexing_system(&mut map, &vec![], &vec![]);
    map
}

/// A* over an unobstructed grid reaches the goal, starting at the start
/// and ending at the goal.
#[test]
fn a_star_succeeds_on_open_grid() {
    let mut map = TileMap::blank(20, 20, TileType::Floor);
    map_indexing_system(&mut map, &vec![], &vec![]);
    let start = map.get_index(1, 1).unwrap();
    let goal = map.get_index(17, 9).unwrap();
    let nav = find_path(&map, start, goal);
    assert!(nav.success);
    assert_eq!(nav.steps[0], start);
    assert_eq!(*nav.steps.last().unwrap(), goal);
    // Each consecutive pair of steps is one king-move apart and enters
    // an unblocked cell.
    for w in nav.steps.windows(2) {
        let (x1, y1) = map.get_coords(w[0]);
        let (x2, y2) = map.get_coords(w[1]);
        assert!((x1 - x2).abs() <= 1 && (y1 - y2).abs() <= 1);
        assert!((x1, y1) != (x2, y2));
        assert!(!map.is_tile_blocked(x2, y2));
    }
}

/// A* on a grid whose goal is sealed off fails.
#[test]
fn a_star_fails_when_goal_is_walled_off() {
    let mut map = TileMap::blank(20, 20, TileType::Floor);
    // Wall a 3x3 box around the goal at (10, 10).
    for d in -1..=1 {
        map.apply_tile(10 + d, 9, TileType::Wall);
        map.apply_tile(10 + d, 11, TileType::Wall);
        map.apply_tile(9, 10 + d, TileType::Wall);
        map.apply_tile(11, 10 + d, TileType::Wall);
    }
    map_indexing_system(&mut map, &vec![], &vec![]);
    let start = map.get_index(1, 1).unwrap();
    let goal = map.get_index(10, 10).unwrap();
    let nav = find_path(&map, start, goal);
    assert!(!nav.success);
    assert!(nav.steps.is_empty());
}

/// The two-room scenario: the path between the room centers succeeds and
/// must route through the corridor, so it is longer than the straight
/// diagonal.
#[test]
fn a_star_routes_through_the_corridor() {
    let map = two_room_map();
    let start = map.get_index(3, 3).unwrap();
    let goal = map.get_index(14, 14).unwrap();
    let nav = find_path(&map, start, goal);
    assert!(nav.success);
    assert_eq!(nav.steps[0], start);
    assert_eq!(*nav.steps.last().unwrap(), goal);
    let moves: usize = nav.steps.len() - 1;
    // Chebyshev distance between the centers is 11; the corridor forces
    // a longer walk, certainly at least the Euclidean distance (~15.6).
    assert!(moves > 11);
    assert!(moves >= 16);
}

/// Blocking a corridor cell with an actor and reindexing makes the
/// previously successful path either avoid that cell or fail.
#[test]
fn blocking_the_corridor_changes_the_path() {
    let mut map = two_room_map();
    let start = map.get_index(3, 3).unwrap();
    let goal = map.get_index(14, 14).unwrap();
    assert!(find_path(&map, start, goal).success);

    // A blocking actor sits down on the corridor's horizontal leg.
    let blockers = vec![Position { x: 8, y: 3 }];
    let entities: Vec<(EntityId, Position)> = vec![];
    map_indexing_system(&mut map, &blockers, &entities);
    let blocked_cell = map.get_index(8, 3).unwrap();

    let nav = find_path(&map, start, goal);
    assert!(!nav.success || !nav.steps.contains(&blocked_cell));
    // In this map the corridor is the only route, so the path must fail.
    assert!(!nav.success);
}

/// A degenerate search: start equals goal.
#[test]
fn a_star_start_is_goal() {
    let mut map = TileMap::blank(5, 5, TileType::Floor);
    map_indexing_system(&mut map, &vec![], &vec![]);
    let start = map.get_index(2, 2).unwrap();
    let nav = find_path(&map, start, start);
    assert!(nav.success);
    assert_eq!(nav.steps, vec![start]);
}

/// Exits skip blocked neighbours and cost 100 straight, 145 diagonal.
#[test]
fn available_exits_respect_blocking_and_costs() {
    let mut map = TileMap::blank(5, 5, TileType::Floor);
    map.apply_tile(3, 2, TileType::Wall);
    map_indexing_system(&mut map, &vec![], &vec![]);
    let center = map.get_index(2, 2).unwrap();
    let exits = map.get_available_exits(center);
    assert_eq!(exits.len(), 7); // 8 neighbours, one walled off
    for (idx, cost) in exits.iter() {
        let (x, y) = map.get_coords(*idx);
        assert!(!map.is_tile_blocked(x, y));
        if x != 2 && y != 2 {
            assert_eq!(*cost, 145);
        } else {
            assert_eq!(*cost, 100);
        }
    }
}
