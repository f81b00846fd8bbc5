//! Monster behaviour: a monster that sees the player either strikes at
//! arm's length or takes one A* step toward them.

use vstd::prelude::*;

use crate::components::{InitiateAttackCommand, Point, Position, Viewshed};
use crate::entity::EntityId;
use crate::pathfinding::{coord_x, coord_y, edge, find_path, reachable};
use crate::tilemap::TileMap;

verus! {

/// Run one monster's turn against the player.
///
/// Nothing happens unless the player's cell is in the monster's
/// viewshed. A player within melee reach (strictly less than 1.5 cells,
/// that is squared distance at most 2) is attacked. Otherwise the
/// monster asks for a path; when one exists it steps onto the path's
/// next cell, moves its blocked flag from the old cell to the new one,
/// and dirties its viewshed.
pub fn monster_ai_to_player(
    map: &mut TileMap,
    monster_entity: EntityId,
    monster_pos: &mut Position,
    monster_viewshed: &mut Viewshed,
    player_entity: EntityId,
    player_pos: &Position,
    player_pos_index: usize,
) -> (r: Option<InitiateAttackCommand>)
    requires
        old(map).wf(),
        old(map).in_bounds(player_pos.x as int, player_pos.y as int),
        player_pos_index == old(map).index_of(player_pos.x as int, player_pos.y as int),
    ensures
        final(map).wf(),
        final(map).width == old(map).width,
        final(map).height == old(map).height,
        final(map).tiles@ == old(map).tiles@,
        final(map).rooms@ == old(map).rooms@,
        final(map).revealed_tiles@ == old(map).revealed_tiles@,
        final(map).visible_tiles@ == old(map).visible_tiles@,
        final(map).tile_content@ == old(map).tile_content@,
        final(map).corridors@ == old(map).corridors@,
        final(monster_viewshed).visible_tiles@ == old(monster_viewshed).visible_tiles@,
        final(monster_viewshed).range == old(monster_viewshed).range,
        ({
            let sees = old(monster_viewshed).visible_tiles@.contains(
                Point { x: player_pos.x, y: player_pos.y },
            );
            let in_reach = crate::fov::dist2(
                old(monster_pos).x as int,
                old(monster_pos).y as int,
                player_pos.x as int,
                player_pos.y as int,
            ) <= 2;
            let unchanged = *final(monster_pos) == *old(monster_pos)
                && final(monster_viewshed).dirty == old(monster_viewshed).dirty
                && final(map).blocked_tiles@ == old(map).blocked_tiles@;
            if sees && in_reach {
                r == Some(
                    InitiateAttackCommand { attacker: monster_entity, defender: player_entity },
                ) && unchanged
            } else if sees && old(map).in_bounds(
                old(monster_pos).x as int,
                old(monster_pos).y as int,
            ) && reachable(
                *old(map),
                old(map).index_of(old(monster_pos).x as int, old(monster_pos).y as int) as usize,
                player_pos_index,
            ) {
                r == None::<InitiateAttackCommand> && exists|s: usize|
                    {
                        &&& #[trigger] edge(
                            *old(map),
                            old(map).index_of(old(monster_pos).x as int, old(monster_pos).y as int),
                            s as int,
                        )
                        &&& final(monster_pos).x == coord_x(*old(map), s as int)
                        &&& final(monster_pos).y == coord_y(*old(map), s as int)
                        &&& final(monster_viewshed).dirty
                        &&& final(map).blocked_tiles@ == old(map).blocked_tiles@.update(
                            old(map).index_of(old(monster_pos).x as int, old(monster_pos).y as int),
                            false,
                        ).update(s as int, true)
                    }
            } else {
                r == None::<InitiateAttackCommand> && unchanged
            }
        }),
{
    proof {
        old(map).lemma_index_in_range(player_pos.x as int, player_pos.y as int);
    }
    let sees = points_contain(
        &monster_viewshed.visible_tiles,
        Point { x: player_pos.x, y: player_pos.y },
    );
    if !sees {
        return None;
    }

    let ddx = (monster_pos.x as i128) - (player_pos.x as i128);
    let ddy = (monster_pos.y as i128) - (player_pos.y as i128);
    proof {
        assert(ddx * ddx >= 0 && ddy * ddy >= 0 && ddx * ddx <= 0x40000000000000000 && ddy * ddy
            <= 0x40000000000000000) by (nonlinear_arith)
            requires
                -4294967296 <= ddx <= 4294967296,
                -4294967296 <= ddy <= 4294967296,
        ;
        assert(ddx * ddx + ddy * ddy == crate::fov::dist2(
            old(monster_pos).x as int,
            old(monster_pos).y as int,
            player_pos.x as int,
            player_pos.y as int,
        ));
    }
    let sqx = ddx * ddx;
    let sqy = ddy * ddy;
    if sqx + sqy <= 2 {
        return Some(
            InitiateAttackCommand { attacker: monster_entity, defender: player_entity },
        );
    }

    if let Some(start) = map.get_index(monster_pos.x, monster_pos.y) {
        let nav = find_path(map, start, player_pos_index);
        if nav.success {
            proof {
                assert(nav.steps@[0] == start);
                assert(nav.steps@[nav.steps@.len() - 1] == player_pos_index);
                assert(start != player_pos_index) by {
                    if start == player_pos_index {
                        old(map).lemma_index_injective(
                            old(monster_pos).x as int,
                            old(monster_pos).y as int,
                            player_pos.x as int,
                            player_pos.y as int,
                        );
                        assert(ddx == 0 && ddy == 0);
                        assert(sqx == 0 && sqy == 0) by (nonlinear_arith)
                            requires
                                sqx == ddx * ddx,
                                sqy == ddy * ddy,
                                ddx == 0,
                                ddy == 0,
                        ;
                        assert(false);
                    }
                }
                assert(nav.steps@.len() >= 2);
            }
            if nav.steps.len() > 1 {
                let next = nav.steps[1];
                proof {
                    assert(edge(*old(map), nav.steps@[0] as int, nav.steps@[0int + 1] as int));
                }
                let (next_x, next_y) = map.get_coords(next);
                let old_x = monster_pos.x;
                let old_y = monster_pos.y;
                map.set_tile_blocked(old_x, old_y, false);
                monster_pos.x = next_x;
                monster_pos.y = next_y;
                monster_viewshed.dirty = true;
                map.set_tile_blocked(monster_pos.x, monster_pos.y, true);
                proof {
                    let s = next;
                    assert(edge(*old(map), start as int, s as int));
                    assert(map.blocked_tiles@ == old(map).blocked_tiles@.update(
                        start as int,
                        false,
                    ).update(s as int, true)) by {
                        old(map).lemma_coords_index_inverse(s as int);
                    }
                }
            }
        } else {
            proof {
                assert(!reachable(*old(map), start, player_pos_index));
            }
        }
    }
    None
}

/// Does the list contain the given point?
pub fn points_contain(points: &Vec<Point>, p: Point) -> (r: bool)
    ensures
        r == points@.contains(p),
{
    let n = points.len();
    let mut i: usize = 0;
    while i < n
        invariant
            n == points@.len(),
            i <= n,
            forall|k: int| 0 <= k < i ==> points@[k] != p,
        decreases n - i,
    {
        if points[i].x == p.x && points[i].y == p.y {
            proof {
                assert(points@[i as int] == p);
            }
            return true;
        }
        i = i + 1;
    }
    proof {
        if points@.contains(p) {
            let k = choose|k: int| 0 <= k < points@.len() && points@[k] == p;
            assert(false);
        }
    }
    false
}

} // verus!
