use rogue_grid::{
    field_of_view, update_viewshed, visibility_system, Point, Position, Rect, TileMap, TileType,
    Viewshed,
};

/// An open room: the field of view contains the origin, stays within
/// bounds, and hides what lies behind a wall.
#[test]
fn fov_contains_origin_and_respects_walls() {
    let mut map = TileMap::blank(30, 30, TileType::Wall);
    let room = Rect { x1: 1, y1: 1, x2: 28, y2: 28 };
    map.apply_rect(&room, TileType::Floor);

    let origin = Point { x: 10, y: 10 };
    let fov = field_of_view(&map, origin, 8);
    assert!(fov.contains(&origin));
    for p in fov.iter() {
        assert!(p.x >= 0 && p.x < 30 && p.y >= 0 && p.y < 30);
        let dx = (p.x - origin.x) as i64;
        let dy = (p.y - origin.y) as i64;
        assert!(dx * dx + dy * dy <= 64);
    }
    // An open cell in range is seen.
    assert!(fov.contains(&Point { x: 14, y: 10 }));

    // Put a wall directly north of the origin: the cell behind it is
    // occluded, while the wall itself stays visible.
    map.apply_tile(10, 9, TileType::Wall);
    let fov = field_of_view(&map, origin, 8);
    assert!(fov.contains(&Point { x: 10, y: 9 }));
    assert!(!fov.contains(&Point { x: 10, y: 8 }));
    assert!(!fov.contains(&Point { x: 10, y: 7 }));
}

/// Sight is symmetric: wherever the viewer sees a cell, a viewer on
/// that cell sees the first one.
#[test]
fn fov_is_symmetric() {
    let mut map = TileMap::blank(20, 20, TileType::Wall);
    let room = Rect { x1: 1, y1: 1, x2: 18, y2: 18 };
    map.apply_rect(&room, TileType::Floor);
    // Scatter a few walls.
    map.apply_tile(6, 6, TileType::Wall);
    map.apply_tile(7, 9, TileType::Wall);
    map.apply_tile(10, 4, TileType::Wall);

    let a = Point { x: 4, y: 5 };
    let fov_a = field_of_view(&map, a, 12);
    for p in fov_a.iter() {
        let fov_p = field_of_view(&map, *p, 12);
        assert!(fov_p.contains(&a), "asymmetric sight between {:?} and {:?}", a, p);
    }
}

/// An origin outside the grid sees nothing.
#[test]
fn fov_from_outside_is_empty() {
    let map = TileMap::blank(10, 10, TileType::Floor);
    let fov = field_of_view(&map, Point { x: -3, y: 4 }, 8);
    assert!(fov.is_empty());
}

/// The visibility pass recomputes dirty viewsheds, clears their dirty
/// flag, and drives the map's visible and revealed flags from the
/// player's viewshed only.
#[test]
fn visibility_pass_updates_player_and_map() {
    let mut map = TileMap::blank(30, 30, TileType::Wall);
    let room = Rect { x1: 1, y1: 1, x2: 28, y2: 28 };
    map.apply_rect(&room, TileType::Floor);

    let positions = vec![Position { x: 5, y: 5 }, Position { x: 20, y: 20 }];
    let mut viewsheds = vec![Viewshed::with_range(8), Viewshed::with_range(8)];
    visibility_system(&mut map, &positions, &mut viewsheds, Some(0));

    assert!(!viewsheds[0].dirty);
    assert!(!viewsheds[1].dirty);
    assert!(viewsheds[0].visible_tiles.contains(&Point { x: 5, y: 5 }));
    assert!(viewsheds[1].visible_tiles.contains(&Point { x: 20, y: 20 }));

    // Only the player's viewshed touched the map.
    assert!(map.is_tile_visible(5, 5));
    assert!(!map.is_tile_visible(20, 20));

    // Move the player and rerun: old cells stop being visible but stay
    // revealed (the fog-of-war memory).
    let positions = vec![Position { x: 25, y: 25 }, Position { x: 20, y: 20 }];
    viewsheds[0].dirty = true;
    visibility_system(&mut map, &positions, &mut viewsheds, Some(0));
    assert!(!map.is_tile_visible(5, 5));
    assert!(map.is_tile_visible(25, 25));
}

/// Recomputing a viewshed clears the dirty flag and caches exactly the
/// visible set.
#[test]
fn update_viewshed_clears_dirty() {
    let mut map = TileMap::blank(20, 20, TileType::Wall);
    let room = Rect { x1: 1, y1: 1, x2: 18, y2: 18 };
    map.apply_rect(&room, TileType::Floor);
    let mut viewshed = Viewshed::with_range(6);
    assert!(viewshed.dirty);
    let pos = Position { x: 9, y: 9 };
    update_viewshed(&mut viewshed, &pos, &map);
    assert!(!viewshed.dirty);
    let direct = field_of_view(&map, Point { x: 9, y: 9 }, 6);
    assert_eq!(viewshed.visible_tiles, direct);
}
