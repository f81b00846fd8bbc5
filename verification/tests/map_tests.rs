use rogue_grid::{map_indexing_system, EntityId, Position, Rect, Rng, TileMap, TileType};

fn floor_at(map: &TileMap, x: i32, y: i32) -> bool {
    matches!(map.get_tile(x, y), Some(TileType::Floor))
}

/// Every accepted room's interior is floor, rooms never intersect, and
/// each consecutive pair of rooms is joined by an L-shaped corridor of
/// floor between their centers.
#[test]
fn generated_rooms_are_carved_and_disjoint() {
    let mut rng = Rng::new(12345);
    let map = TileMap::rooms_and_cooridors(80, 43, &mut rng);
    let rooms = map.get_rooms().clone();
    assert!(rooms.len() >= 1);

    for room in rooms.iter() {
        for y in (room.y1 + 1)..=room.y2 {
            for x in (room.x1 + 1)..=room.x2 {
                assert!(floor_at(&map, x, y));
            }
        }
    }

    for i in 0..rooms.len() {
        for j in (i + 1)..rooms.len() {
            assert!(!rooms[i].intersect(&rooms[j]));
        }
    }
}

fn horizontal_clear(map: &TileMap, x1: i32, x2: i32, y: i32) -> bool {
    let (lo, hi) = if x1 <= x2 { (x1, x2) } else { (x2, x1) };
    (lo..=hi).all(|x| floor_at(map, x, y))
}

fn vertical_clear(map: &TileMap, y1: i32, y2: i32, x: i32) -> bool {
    let (lo, hi) = if y1 <= y2 { (y1, y2) } else { (y2, y1) };
    (lo..=hi).all(|y| floor_at(map, x, y))
}

/// Consecutive rooms are joined: one of the two possible L-shaped leg
/// orders between their centers is fully carved.
#[test]
fn consecutive_rooms_are_connected() {
    let mut rng = Rng::new(987654321);
    let map = TileMap::rooms_and_cooridors(80, 43, &mut rng);
    let rooms = map.get_rooms().clone();
    assert!(rooms.len() >= 2, "seed must generate at least two rooms");

    for w in rooms.windows(2) {
        let (px, py) = w[0].center();
        let (nx, ny) = w[1].center();
        let horizontal_first =
            horizontal_clear(&map, px, nx, py) && vertical_clear(&map, py, ny, nx);
        let vertical_first =
            vertical_clear(&map, py, ny, px) && horizontal_clear(&map, px, nx, ny);
        assert!(horizontal_first || vertical_first);
    }
}

/// Cells outside every room and corridor stay wall: count floors and
/// check the border is all wall.
#[test]
fn border_remains_wall() {
    let mut rng = Rng::new(42);
    let map = TileMap::rooms_and_cooridors(80, 43, &mut rng);
    for x in 0..80 {
        assert_eq!(*map.get_tile(x, 0).unwrap(), TileType::Wall);
        assert_eq!(*map.get_tile(x, 42).unwrap(), TileType::Wall);
    }
    for y in 0..43 {
        assert_eq!(*map.get_tile(0, y).unwrap(), TileType::Wall);
        assert_eq!(*map.get_tile(79, y).unwrap(), TileType::Wall);
    }
}

/// `get_index` and `get_coords` are inverses over the whole grid.
#[test]
fn index_and_coords_are_inverses() {
    let map = TileMap::blank(80, 43, TileType::Wall);
    for y in 0..43 {
        for x in 0..80 {
            let i = map.get_index(x, y).unwrap();
            assert_eq!(map.get_coords(i), (x, y));
        }
    }
    for i in 0..(80 * 43) {
        let (x, y) = map.get_coords(i);
        assert_eq!(map.get_index(x, y), Some(i));
    }
    assert_eq!(map.get_index(-1, 0), None);
    assert_eq!(map.get_index(80, 0), None);
    assert_eq!(map.get_index(0, 43), None);
}

/// After a reindex pass, walls are blocked regardless of occupants,
/// floor cells with a blocking entity are blocked, and occupant lists
/// hold exactly the entities standing on each cell.
#[test]
fn reindex_rebuilds_blocked_and_occupants() {
    let mut map = TileMap::blank(10, 10, TileType::Floor);
    map.apply_tile(4, 4, TileType::Wall);

    let blockers = vec![Position { x: 2, y: 3 }, Position { x: 4, y: 4 }];
    let entities = vec![
        (EntityId(7), Position { x: 2, y: 3 }),
        (EntityId(8), Position { x: 2, y: 3 }),
        (EntityId(9), Position { x: 5, y: 5 }),
    ];
    map_indexing_system(&mut map, &blockers, &entities);

    assert!(map.is_tile_blocked(4, 4)); // wall
    assert!(map.is_tile_blocked(2, 3)); // blocking entity on floor
    assert!(!map.is_tile_blocked(5, 5)); // non-blocking entity
    assert!(!map.is_tile_blocked(0, 0)); // plain floor

    assert_eq!(map.get_entities_on_tile(2, 3), &[EntityId(7), EntityId(8)]);
    assert_eq!(map.get_entities_on_tile(5, 5), &[EntityId(9)]);
    assert_eq!(map.get_entities_on_tile(0, 0), &[] as &[EntityId]);
    // Out of bounds fails closed.
    assert!(map.is_tile_blocked(-1, 0));
    assert_eq!(map.get_entities_on_tile(-1, 0), &[] as &[EntityId]);

    // A second pass never leaks stale state: the blocker moved away.
    let blockers = vec![Position { x: 6, y: 6 }];
    let entities = vec![(EntityId(7), Position { x: 6, y: 6 })];
    map_indexing_system(&mut map, &blockers, &entities);
    assert!(!map.is_tile_blocked(2, 3));
    assert!(map.is_tile_blocked(6, 6));
    assert!(map.is_tile_blocked(4, 4));
    assert_eq!(map.get_entities_on_tile(2, 3), &[] as &[EntityId]);
    assert_eq!(map.get_entities_on_tile(6, 6), &[EntityId(7)]);
}

#[test]
fn rect_accessors() {
    let r = Rect::new(3, 4, 6, 7);
    assert_eq!(r.x1, 3);
    assert_eq!(r.x2, 9);
    assert_eq!(r.y1, 4);
    assert_eq!(r.y2, 11);
    assert_eq!(r.width(), 6);
    assert_eq!(r.height(), 7);
    assert_eq!(r.center(), (6, 7));

    let other = Rect::new(9, 11, 3, 3);
    assert!(r.intersect(&other)); // inclusive bounds touch
    let far = Rect::new(20, 20, 2, 2);
    assert!(!r.intersect(&far));
}

#[test]
fn revealed_is_sticky_and_visible_is_transient() {
    let mut map = TileMap::blank(10, 10, TileType::Floor);
    map.set_tile_visible(3, 3);
    map.set_tile_revealed(3, 3);
    assert!(map.is_tile_visible(3, 3));
    map.clear_visible_tiles();
    assert!(!map.is_tile_visible(3, 3));
    // Out-of-bounds setters are ignored.
    map.set_tile_visible(-1, -1);
    map.set_tile_revealed(100, 100);
    assert!(!map.is_tile_visible(-1, -1));
}

#[test]
fn player_starting_position_is_first_room_center() {
    let mut rng = Rng::new(7);
    let map = TileMap::rooms_and_cooridors(40, 30, &mut rng);
    let rooms = map.get_rooms().clone();
    assert_eq!(map.get_player_starting_position(), rooms[0].center());

    let empty = TileMap::blank(40, 30, TileType::Wall);
    assert_eq!(empty.get_player_starting_position(), (20, 15));
}

#[test]
fn rng_is_deterministic_and_in_range() {
    let mut a = Rng::new(99);
    let mut b = Rng::new(99);
    for _ in 0..100 {
        let x = a.range(5, 12);
        assert!((5..12).contains(&x));
        assert_eq!(x, b.range(5, 12));
    }
    for _ in 0..100 {
        let roll = a.roll_dice(3, 6);
        assert!((3..=18).contains(&roll));
    }
}
