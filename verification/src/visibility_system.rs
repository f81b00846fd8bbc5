//! The per-turn visibility pass: recompute every dirty viewshed, and let
//! the player's viewshed drive the shared map's visible and revealed
//! flags.

use vstd::prelude::*;

use crate::components::{Point, Position, Viewshed};
use crate::fov::{apply_viewshed_to_map, los_clear, update_viewshed, visible_spec};
use crate::tilemap::TileMap;

verus! {

/// Visibility depends only on terrain: two maps with the same tiles and
/// dimensions agree on what is visible from where.
pub proof fn lemma_visible_spec_same_terrain(
    m1: TileMap,
    m2: TileMap,
    ox: int,
    oy: int,
    px: int,
    py: int,
    range: int,
)
    requires
        m1.tiles@ == m2.tiles@,
        m1.width == m2.width,
        m1.height == m2.height,
    ensures
        visible_spec(m1, ox, oy, px, py, range) == visible_spec(m2, ox, oy, px, py, range),
{
    let line = crate::fov::line_between(ox, oy, px, py);
    assert(los_clear(m1, ox, oy, px, py) == los_clear(m2, ox, oy, px, py)) by {
        if los_clear(m1, ox, oy, px, py) {
            assert forall|k: int| 1 <= k < line.len() - 1 implies m2.tile_at(
                (#[trigger] line[k]).0,
                line[k].1,
            ) != crate::tilemap::TileType::Wall by {
                assert(m1.tile_at(line[k].0, line[k].1) != crate::tilemap::TileType::Wall);
            }
        }
        if los_clear(m2, ox, oy, px, py) {
            assert forall|k: int| 1 <= k < line.len() - 1 implies m1.tile_at(
                (#[trigger] line[k]).0,
                line[k].1,
            ) != crate::tilemap::TileType::Wall by {
                assert(m2.tile_at(line[k].0, line[k].1) != crate::tilemap::TileType::Wall);
            }
        }
    }
}

/// The viewshed at `j` was freshly computed against terrain `base` from
/// position `pos`.
pub open spec fn viewshed_updated(vs_old: Viewshed, vs_new: Viewshed, base: TileMap, pos: Position) -> bool {
    &&& !vs_new.dirty
    &&& vs_new.range == vs_old.range
    &&& forall|p: Point| #[trigger]
        vs_new.visible_tiles@.contains(p) <==> visible_spec(
            base,
            pos.x as int,
            pos.y as int,
            p.x as int,
            p.y as int,
            vs_old.range as int,
        )
}

/// The map's transient and sticky visibility flags reflect viewshed
/// `vs` applied over base state `base`.
pub open spec fn map_shows_viewshed(m: TileMap, base: TileMap, vs: Viewshed) -> bool {
    &&& forall|x: int, y: int|
        base.in_bounds(x, y) ==> #[trigger] m.visible_at(x, y) == vs.visible_tiles@.contains(
            Point { x: x as i32, y: y as i32 },
        )
    &&& forall|x: int, y: int|
        base.in_bounds(x, y) ==> m.revealed_tiles@[#[trigger] base.index_of(x, y)] == (
        base.revealed_tiles@[base.index_of(x, y)] || vs.visible_tiles@.contains(
            Point { x: x as i32, y: y as i32 },
        ))
}

/// Recompute every dirty actor's viewshed; when the actor at
/// `player_index` is among them, additionally rebuild the map's visible
/// flags from that viewshed and accumulate its cells into the sticky
/// revealed flags. Clean viewsheds, and the map when the player's
/// viewshed is clean, are left untouched.
pub fn visibility_system(
    map: &mut TileMap,
    positions: &Vec<Position>,
    viewsheds: &mut Vec<Viewshed>,
    player_index: Option<usize>,
)
    requires
        old(map).wf(),
        positions@.len() == old(viewsheds)@.len(),
        forall|j: int|
            0 <= j < old(viewsheds)@.len() ==> 0 <= (#[trigger] old(viewsheds)@[j]).range <= 1000,
        match player_index {
            Some(jp) => jp < old(viewsheds)@.len(),
            None => true,
        },
    ensures
        final(map).wf(),
        final(map).width == old(map).width,
        final(map).height == old(map).height,
        final(map).tiles@ == old(map).tiles@,
        final(map).rooms@ == old(map).rooms@,
        final(map).blocked_tiles@ == old(map).blocked_tiles@,
        final(map).tile_content@ == old(map).tile_content@,
        final(map).corridors@ == old(map).corridors@,
        final(viewsheds)@.len() == old(viewsheds)@.len(),
        forall|j: int|
            0 <= j < old(viewsheds)@.len() ==> if (#[trigger] old(viewsheds)@[j]).dirty {
                viewshed_updated(
                    old(viewsheds)@[j],
                    final(viewsheds)@[j],
                    *old(map),
                    positions@[j],
                )
            } else {
                final(viewsheds)@[j] == old(viewsheds)@[j]
            },
        match player_index {
            Some(jp) => if old(viewsheds)@[jp as int].dirty {
                map_shows_viewshed(*final(map), *old(map), final(viewsheds)@[jp as int])
            } else {
                final(map).visible_tiles@ == old(map).visible_tiles@ && final(map).revealed_tiles@
                    == old(map).revealed_tiles@
            },
            None => final(map).visible_tiles@ == old(map).visible_tiles@
                && final(map).revealed_tiles@ == old(map).revealed_tiles@,
        },
{
    let n = viewsheds.len();
    let mut j: usize = 0;
    while j < n
        invariant
            map.wf(),
            n == old(viewsheds)@.len(),
            n == viewsheds@.len(),
            positions@.len() == n,
            j <= n,
            map.width == old(map).width,
            map.height == old(map).height,
            map.tiles@ == old(map).tiles@,
            map.rooms@ == old(map).rooms@,
            map.blocked_tiles@ == old(map).blocked_tiles@,
            map.tile_content@ == old(map).tile_content@,
            map.corridors@ == old(map).corridors@,
            forall|jj: int|
                0 <= jj < n ==> 0 <= (#[trigger] old(viewsheds)@[jj]).range <= 1000,
            match player_index {
                Some(jp) => jp < n,
                None => true,
            },
            forall|jj: int| j <= jj < n ==> #[trigger] viewsheds@[jj] == old(viewsheds)@[jj],
            forall|jj: int|
                0 <= jj < j ==> if (#[trigger] old(viewsheds)@[jj]).dirty {
                    viewshed_updated(
                        old(viewsheds)@[jj],
                        viewsheds@[jj],
                        *old(map),
                        positions@[jj],
                    )
                } else {
                    viewsheds@[jj] == old(viewsheds)@[jj]
                },
            match player_index {
                Some(jp) => if jp < j && old(viewsheds)@[jp as int].dirty {
                    map_shows_viewshed(*map, *old(map), viewsheds@[jp as int])
                } else {
                    map.visible_tiles@ == old(map).visible_tiles@ && map.revealed_tiles@ == old(
                        map,
                    ).revealed_tiles@
                },
                None => map.visible_tiles@ == old(map).visible_tiles@ && map.revealed_tiles@
                    == old(map).revealed_tiles@,
            },
        decreases n - j,
    {
        let ghost map_before = *map;
        let ghost vs_before = viewsheds@[j as int];
        let dirty = viewsheds[j].dirty;
        if dirty {
            update_viewshed(&mut viewsheds[j], &positions[j], map);
            proof {
                assert forall|p: Point| #[trigger]
                    viewsheds@[j as int].visible_tiles@.contains(p) <==> visible_spec(
                        *old(map),
                        positions@[j as int].x as int,
                        positions@[j as int].y as int,
                        p.x as int,
                        p.y as int,
                        vs_before.range as int,
                    ) by {
                    lemma_visible_spec_same_terrain(
                        map_before,
                        *old(map),
                        positions@[j as int].x as int,
                        positions@[j as int].y as int,
                        p.x as int,
                        p.y as int,
                        vs_before.range as int,
                    );
                }
            }
            let is_player = match player_index {
                Some(jp) => jp == j,
                None => false,
            };
            if is_player {
                let ghost map_mid = *map;
                apply_viewshed_to_map(&viewsheds[j], map);
                proof {
                    assert(map_mid.visible_tiles@ == old(map).visible_tiles@);
                    assert(map_mid.revealed_tiles@ == old(map).revealed_tiles@);
                    let vs = viewsheds@[j as int];
                    assert forall|x: int, y: int| old(map).in_bounds(x, y) implies #[trigger] map
                        .visible_at(x, y) == vs.visible_tiles@.contains(
                        Point { x: x as i32, y: y as i32 },
                    ) by {
                        assert(map_mid.in_bounds(x, y));
                        assert(map.visible_at(x, y) == vs.visible_tiles@.contains(
                            Point { x: x as i32, y: y as i32 },
                        ));
                    }
                    assert forall|x: int, y: int| old(map).in_bounds(x, y) implies map
                        .revealed_tiles@[#[trigger] old(map).index_of(x, y)] == (old(
                        map,
                    ).revealed_tiles@[old(map).index_of(x, y)] || vs.visible_tiles@.contains(
                        Point { x: x as i32, y: y as i32 },
                    )) by {
                        assert(map_mid.in_bounds(x, y));
                        assert(map_mid.index_of(x, y) == old(map).index_of(x, y));
                        assert(map.revealed_tiles@[map_mid.index_of(x, y)] == (
                        map_mid.revealed_tiles@[map_mid.index_of(x, y)]
                            || vs.visible_tiles@.contains(Point { x: x as i32, y: y as i32 })));
                    }
                    assert(map_shows_viewshed(*map, *old(map), viewsheds@[j as int]));
                }
            }
        }
        j = j + 1;
    }
}

} // verus!
