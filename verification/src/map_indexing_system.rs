//! The per-turn spatial index rebuild: derive every cell's blocked flag
//! from terrain plus blocking occupants, and rebuild every cell's
//! occupant list from the entities' current positions.

use vstd::prelude::*;

use crate::components::Position;
use crate::entity::EntityId;
use crate::tilemap::{TileMap, TileType};

verus! {

/// Does position `p` name the in-bounds cell with row-major index `cell`
/// on a `width x height` grid?
pub open spec fn pos_maps_to(p: Position, width: int, height: int, cell: int) -> bool {
    0 <= p.x < width && 0 <= p.y < height && p.y * width + p.x == cell
}

/// Is some position in `blockers` on the cell with index `cell`?
pub open spec fn blocker_marks(blockers: Seq<Position>, width: int, height: int, cell: int) -> bool {
    exists|k: int| 0 <= k < blockers.len() && pos_maps_to(#[trigger] blockers[k], width, height, cell)
}

/// The occupant list a cell ends up with: the ids of exactly those
/// entities whose position maps to the cell, in input order.
pub open spec fn occupants_of(
    entities: Seq<(EntityId, Position)>,
    width: int,
    height: int,
    cell: int,
) -> Seq<EntityId>
    decreases entities.len(),
{
    if entities.len() == 0 {
        Seq::empty()
    } else {
        let prefix = occupants_of(entities.drop_last(), width, height, cell);
        let last = entities.last();
        if pos_maps_to(last.1, width, height, cell) {
            prefix.push(last.0)
        } else {
            prefix
        }
    }
}

/// Rebuild the map's blocked flags and occupant lists from scratch.
///
/// Afterwards a cell is blocked exactly when its terrain is wall or some
/// blocking entity stands on it, and each cell's occupant list holds
/// exactly the entities positioned there — stale state from earlier
/// turns never survives the rebuild.
pub fn map_indexing_system(
    map: &mut TileMap,
    blockers: &Vec<Position>,
    entities: &Vec<(EntityId, Position)>,
)
    requires
        old(map).wf(),
    ensures
        final(map).wf(),
        final(map).width == old(map).width,
        final(map).height == old(map).height,
        final(map).tiles@ == old(map).tiles@,
        final(map).rooms@ == old(map).rooms@,
        final(map).revealed_tiles@ == old(map).revealed_tiles@,
        final(map).visible_tiles@ == old(map).visible_tiles@,
        final(map).corridors@ == old(map).corridors@,
        forall|i: int|
            0 <= i < final(map).blocked_tiles@.len() ==> final(map).blocked_tiles@[i] == (old(
                map,
            ).tiles@[i] == TileType::Wall || blocker_marks(
                blockers@,
                old(map).width as int,
                old(map).height as int,
                i,
            )),
        forall|i: int|
            0 <= i < final(map).tile_content@.len() ==> #[trigger] final(map).tile_content@[i]@
                == occupants_of(entities@, old(map).width as int, old(map).height as int, i),
{
    let ghost w = old(map).width as int;
    let ghost h = old(map).height as int;

    map.reset_blocked_tiles();
    map.clear_content_index();

    let n_blockers = blockers.len();
    let mut k: usize = 0;
    while k < n_blockers
        invariant
            map.wf(),
            n_blockers == blockers@.len(),
            k <= n_blockers,
            map.width == old(map).width,
            map.height == old(map).height,
            w == map.width as int,
            h == map.height as int,
            map.tiles@ == old(map).tiles@,
            map.rooms@ == old(map).rooms@,
            map.revealed_tiles@ == old(map).revealed_tiles@,
            map.visible_tiles@ == old(map).visible_tiles@,
            map.corridors@ == old(map).corridors@,
            forall|i: int|
                0 <= i < map.tile_content@.len() ==> #[trigger] map.tile_content@[i]@ == Seq::<
                    EntityId,
                >::empty(),
            forall|i: int|
                0 <= i < map.blocked_tiles@.len() ==> map.blocked_tiles@[i] == (old(map).tiles@[i]
                    == TileType::Wall || blocker_marks(blockers@.subrange(0, k as int), w, h, i)),
        decreases n_blockers - k,
    {
        let ghost before = *map;
        let p = blockers[k];
        map.set_tile_blocked(p.x, p.y, true);
        proof {
            assert forall|i: int| 0 <= i < map.blocked_tiles@.len() implies map.blocked_tiles@[i]
                == (old(map).tiles@[i] == TileType::Wall || blocker_marks(
                blockers@.subrange(0, k as int + 1),
                w,
                h,
                i,
            )) by {
                let sub_new = blockers@.subrange(0, k as int + 1);
                let sub_old = blockers@.subrange(0, k as int);
                assert(sub_new[k as int] == p);
                if before.in_bounds(p.x as int, p.y as int) {
                    before.lemma_index_in_range(p.x as int, p.y as int);
                }
                if map.blocked_tiles@[i] {
                    if before.blocked_tiles@[i] {
                        if blocker_marks(sub_old, w, h, i) {
                            let kk = choose|kk: int|
                                0 <= kk < sub_old.len() && pos_maps_to(
                                    #[trigger] sub_old[kk],
                                    w,
                                    h,
                                    i,
                                );
                            assert(pos_maps_to(sub_new[kk], w, h, i));
                        }
                    } else {
                        assert(before.in_bounds(p.x as int, p.y as int) && before.index_of(
                            p.x as int,
                            p.y as int,
                        ) == i);
                        assert(pos_maps_to(sub_new[k as int], w, h, i));
                    }
                } else {
                    assert(!blocker_marks(sub_old, w, h, i));
                    if blocker_marks(sub_new, w, h, i) {
                        let kk = choose|kk: int|
                            0 <= kk < sub_new.len() && pos_maps_to(#[trigger] sub_new[kk], w, h, i);
                        if kk < k as int {
                            assert(pos_maps_to(sub_old[kk], w, h, i));
                            assert(false);
                        } else {
                            assert(pos_maps_to(p, w, h, i));
                            assert(before.in_bounds(p.x as int, p.y as int));
                            assert(before.index_of(p.x as int, p.y as int) == i);
                            assert(false);
                        }
                    }
                }
            }
        }
        k = k + 1;
    }
    proof {
        assert(blockers@.subrange(0, blockers@.len() as int) =~= blockers@);
    }

    let n_entities = entities.len();
    let mut j: usize = 0;
    while j < n_entities
        invariant
            map.wf(),
            n_entities == entities@.len(),
            j <= n_entities,
            map.width == old(map).width,
            map.height == old(map).height,
            w == map.width as int,
            h == map.height as int,
            map.tiles@ == old(map).tiles@,
            map.rooms@ == old(map).rooms@,
            map.revealed_tiles@ == old(map).revealed_tiles@,
            map.visible_tiles@ == old(map).visible_tiles@,
            map.corridors@ == old(map).corridors@,
            forall|i: int|
                0 <= i < map.blocked_tiles@.len() ==> map.blocked_tiles@[i] == (old(map).tiles@[i]
                    == TileType::Wall || blocker_marks(blockers@, w, h, i)),
            forall|i: int|
                0 <= i < map.tile_content@.len() ==> #[trigger] map.tile_content@[i]@
                    == occupants_of(entities@.subrange(0, j as int), w, h, i),
        decreases n_entities - j,
    {
        let ghost before = *map;
        let (entity, p) = entities[j];
        map.add_entity_to_tile_content(p.x, p.y, entity);
        proof {
            let sub_new = entities@.subrange(0, j as int + 1);
            let sub_old = entities@.subrange(0, j as int);
            assert(sub_new.drop_last() =~= sub_old);
            assert(sub_new.last() == (entity, p));
            if before.in_bounds(p.x as int, p.y as int) {
                before.lemma_index_in_range(p.x as int, p.y as int);
            }
            assert forall|i: int| 0 <= i < map.tile_content@.len() implies #[trigger] map
                .tile_content@[i]@ == occupants_of(sub_new, w, h, i) by {
                assert(occupants_of(sub_new, w, h, i) == if pos_maps_to((entity, p).1, w, h, i) {
                    occupants_of(sub_old, w, h, i).push(entity)
                } else {
                    occupants_of(sub_old, w, h, i)
                });
                if pos_maps_to(p, w, h, i) {
                    assert(before.in_bounds(p.x as int, p.y as int));
                    assert(before.index_of(p.x as int, p.y as int) == i);
                } else {
                    if before.in_bounds(p.x as int, p.y as int) && before.index_of(
                        p.x as int,
                        p.y as int,
                    ) == i {
                        assert(pos_maps_to(p, w, h, i));
                    }
                }
            }
        }
        j = j + 1;
    }
    proof {
        assert(entities@.subrange(0, entities@.len() as int) =~= entities@);
    }
}

} // verus!
