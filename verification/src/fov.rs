//! Field of view: which cells an actor standing on the map can see.
//!
//! A cell is visible when it lies within the sight radius and the
//! straight grid line between it and the origin passes through no wall.
//! The line between two cells is walked by midpoint comparison and is
//! canonicalised by endpoint order, so sight is symmetric: `a` sees `b`
//! exactly when `b` sees `a`.

use vstd::prelude::*;

use crate::components::{Point, Position, Viewshed};
use crate::tilemap::{TileMap, TileType};

verus! {

/// Squared Euclidean distance between two cells.
pub open spec fn dist2(ax: int, ay: int, bx: int, by: int) -> int {
    (ax - bx) * (ax - bx) + (ay - by) * (ay - by)
}

/// The cells of the grid line from `(x, y)` (inclusive) to the cell
/// `(nx - ix, ny - iy)` steps away in direction `(sx, sy)`: at each step
/// the axis whose next midpoint is nearer advances, both at a tie.
pub open spec fn walk_rec(
    x: int,
    y: int,
    sx: int,
    sy: int,
    nx: int,
    ny: int,
    ix: int,
    iy: int,
) -> Seq<(int, int)>
    decreases nx + ny - ix - iy,
        when 0 <= ix <= nx && 0 <= iy <= ny
{
    if ix >= nx && iy >= ny {
        seq![(x, y)]
    } else if iy >= ny {
        seq![(x, y)] + walk_rec(x + sx, y, sx, sy, nx, ny, ix + 1, iy)
    } else if ix >= nx {
        seq![(x, y)] + walk_rec(x, y + sy, sx, sy, nx, ny, ix, iy + 1)
    } else if (1 + 2 * ix) * ny < (1 + 2 * iy) * nx {
        seq![(x, y)] + walk_rec(x + sx, y, sx, sy, nx, ny, ix + 1, iy)
    } else if (1 + 2 * ix) * ny > (1 + 2 * iy) * nx {
        seq![(x, y)] + walk_rec(x, y + sy, sx, sy, nx, ny, ix, iy + 1)
    } else {
        seq![(x, y)] + walk_rec(x + sx, y + sy, sx, sy, nx, ny, ix + 1, iy + 1)
    }
}

pub open spec fn sign_of(d: int) -> int {
    if d > 0 {
        1
    } else if d < 0 {
        -1
    } else {
        0
    }
}

/// The grid line from `a` to `b`, walked from the lexicographically
/// smaller endpoint so that swapping the endpoints gives the same cells.
pub open spec fn line_between(ax: int, ay: int, bx: int, by: int) -> Seq<(int, int)> {
    if ax < bx || (ax == bx && ay <= by) {
        walk_rec(
            ax,
            ay,
            sign_of(bx - ax),
            sign_of(by - ay),
            vstd::math::abs(bx - ax) as int,
            vstd::math::abs(by - ay) as int,
            0,
            0,
        )
    } else {
        walk_rec(
            bx,
            by,
            sign_of(ax - bx),
            sign_of(ay - by),
            vstd::math::abs(ax - bx) as int,
            vstd::math::abs(ay - by) as int,
            0,
            0,
        )
    }
}

/// Line of sight: no cell strictly between the two endpoints on their
/// grid line is a wall.
pub open spec fn los_clear(m: TileMap, ax: int, ay: int, bx: int, by: int) -> bool {
    let line = line_between(ax, ay, bx, by);
    forall|k: int|
        1 <= k < line.len() - 1 ==> m.tile_at((#[trigger] line[k]).0, line[k].1) != TileType::Wall
}

/// Swapping the endpoints of a line of sight changes nothing.
pub proof fn lemma_los_symmetric(m: TileMap, ax: int, ay: int, bx: int, by: int)
    ensures
        los_clear(m, ax, ay, bx, by) == los_clear(m, bx, by, ax, ay),
{
    assert(line_between(ax, ay, bx, by) == line_between(bx, by, ax, ay));
}

/// What an actor at `(ox, oy)` with sight radius `range` sees of cell
/// `(px, py)`: both cells on the map, the target within the radius, and
/// an unobstructed line between them.
pub open spec fn visible_spec(m: TileMap, ox: int, oy: int, px: int, py: int, range: int) -> bool {
    &&& m.in_bounds(ox, oy)
    &&& m.in_bounds(px, py)
    &&& dist2(ox, oy, px, py) <= range * range
    &&& los_clear(m, ox, oy, px, py)
}

/// An actor always sees the cell it stands on: the origin is in its own
/// field of view, whatever the terrain.
pub proof fn lemma_origin_visible(m: TileMap, ox: int, oy: int, range: int)
    requires
        m.in_bounds(ox, oy),
        range >= 0,
    ensures
        visible_spec(m, ox, oy, ox, oy, range),
{
    assert(dist2(ox, oy, ox, oy) == 0);
    assert(range * range >= 0) by (nonlinear_arith)
        requires
            range >= 0,
    ;
    assert(line_between(ox, oy, ox, oy) == walk_rec(ox, oy, 0, 0, 0, 0, 0, 0));
    assert(walk_rec(ox, oy, 0, 0, 0, 0, 0, 0) == seq![(ox, oy)]);
    assert(los_clear(m, ox, oy, ox, oy));
}

/// Every cell sequence produced by the walk starts at its start cell.
proof fn lemma_walk_first(x: int, y: int, sx: int, sy: int, nx: int, ny: int, ix: int, iy: int)
    requires
        0 <= ix <= nx,
        0 <= iy <= ny,
    ensures
        walk_rec(x, y, sx, sy, nx, ny, ix, iy).len() >= 1,
        walk_rec(x, y, sx, sy, nx, ny, ix, iy)[0] == (x, y),
        ix < nx || iy < ny ==> walk_rec(x, y, sx, sy, nx, ny, ix, iy).len() >= 2,
    decreases nx + ny - ix - iy,
{
    if ix >= nx && iy >= ny {
    } else if iy >= ny {
        lemma_walk_first(x + sx, y, sx, sy, nx, ny, ix + 1, iy);
    } else if ix >= nx {
        lemma_walk_first(x, y + sy, sx, sy, nx, ny, ix, iy + 1);
    } else if (1 + 2 * ix) * ny < (1 + 2 * iy) * nx {
        lemma_walk_first(x + sx, y, sx, sy, nx, ny, ix + 1, iy);
    } else if (1 + 2 * ix) * ny > (1 + 2 * iy) * nx {
        lemma_walk_first(x, y + sy, sx, sy, nx, ny, ix, iy + 1);
    } else {
        lemma_walk_first(x + sx, y + sy, sx, sy, nx, ny, ix + 1, iy + 1);
    }
}

/// A coordinate `i` signed steps from `x0` toward `x1` stays between
/// the two.
proof fn lemma_step_between(x0: int, x1: int, s: int, n: int, i: int)
    requires
        s == sign_of(x1 - x0),
        n == vstd::math::abs(x1 - x0),
        0 <= i <= n,
    ensures
        crate::tilemap::min_int(x0, x1) <= x0 + s * i <= crate::tilemap::max_int(x0, x1),
        x0 + s * n == x1,
    {
    if s == 1 {
        assert(s * i == i) by (nonlinear_arith)
            requires
                s == 1,
        ;
        assert(s * n == n) by (nonlinear_arith)
            requires
                s == 1,
        ;
    } else if s == -1 {
        assert(s * i == -i) by (nonlinear_arith)
            requires
                s == -1,
        ;
        assert(s * n == -n) by (nonlinear_arith)
            requires
                s == -1,
        ;
    } else {
        assert(s * i == 0) by (nonlinear_arith)
            requires
                s == 0,
        ;
        assert(s * n == 0) by (nonlinear_arith)
            requires
                s == 0,
        ;
    }
}

/// Walk the grid line between two cells and report whether every cell
/// strictly between them is free of walls.
#[verifier::rlimit(60)]
fn line_clear(map: &TileMap, ax: i32, ay: i32, bx: i32, by: i32) -> (r: bool)
    requires
        map.wf(),
        map.in_bounds(ax as int, ay as int),
        map.in_bounds(bx as int, by as int),
    ensures
        r == los_clear(*map, ax as int, ay as int, bx as int, by as int),
{
    // Canonical endpoint order.
    let (x0, y0, x1, y1): (i32, i32, i32, i32) = if ax < bx || (ax == bx && ay <= by) {
        (ax, ay, bx, by)
    } else {
        (bx, by, ax, ay)
    };
    let sx: i32 = if x1 > x0 {
        1
    } else if x1 < x0 {
        -1
    } else {
        0
    };
    let sy: i32 = if y1 > y0 {
        1
    } else if y1 < y0 {
        -1
    } else {
        0
    };
    let nx: i32 = if x1 >= x0 {
        x1 - x0
    } else {
        x0 - x1
    };
    let ny: i32 = if y1 >= y0 {
        y1 - y0
    } else {
        y0 - y1
    };
    let ghost line = line_between(ax as int, ay as int, bx as int, by as int);
    proof {
        assert(line == walk_rec(x0 as int, y0 as int, sx as int, sy as int, nx as int, ny as int, 0, 0));
    }

    let mut x = x0;
    let mut y = y0;
    let mut ix: i32 = 0;
    let mut iy: i32 = 0;
    let ghost mut visited: Seq<(int, int)> = Seq::empty();

    while ix < nx || iy < ny
        invariant
            map.wf(),
            map.in_bounds(x0 as int, y0 as int),
            map.in_bounds(x1 as int, y1 as int),
            0 <= ix <= nx,
            0 <= iy <= ny,
            nx <= 20000,
            ny <= 20000,
            nx == vstd::math::abs(x1 as int - x0 as int),
            ny == vstd::math::abs(y1 as int - y0 as int),
            sx == sign_of(x1 as int - x0 as int),
            sy == sign_of(y1 as int - y0 as int),
            x == x0 + sx * ix,
            y == y0 + sy * iy,
            map.in_bounds(x as int, y as int),
            line == line_between(ax as int, ay as int, bx as int, by as int),
            line == visited + walk_rec(
                x as int,
                y as int,
                sx as int,
                sy as int,
                nx as int,
                ny as int,
                ix as int,
                iy as int,
            ),
            visited.len() >= 1 && (ix < nx || iy < ny) ==> map.tile_at(x as int, y as int)
                != TileType::Wall,
            forall|k: int|
                1 <= k < visited.len() ==> map.tile_at((#[trigger] visited[k]).0, visited[k].1)
                    != TileType::Wall,
        decreases nx + ny - ix - iy,
    {
        let ghost cx = x as int;
        let ghost cy = y as int;
        let ghost old_visited = visited;
        let ghost old_ix = ix as int;
        let ghost old_iy = iy as int;
        proof {
            visited = visited.push((cx, cy));
        }
        // Advance one cell along the line.
        if iy >= ny {
            x = x + sx;
            ix = ix + 1;
        } else if ix >= nx {
            y = y + sy;
            iy = iy + 1;
        } else {
            proof {
                assert((1 + 2 * old_ix) * (ny as int) <= 3000000000 && (1 + 2 * old_iy) * (
                nx as int) <= 3000000000 && (1 + 2 * old_ix) * (ny as int) >= 0 && (1 + 2 * old_iy)
                    * (nx as int) >= 0) by (nonlinear_arith)
                    requires
                        0 <= old_ix <= 20000,
                        0 <= old_iy <= 20000,
                        0 <= nx <= 20000,
                        0 <= ny <= 20000,
                ;
            }
            let ml = (1 + 2 * (ix as i64)) * (ny as i64);
            let mr = (1 + 2 * (iy as i64)) * (nx as i64);
            if ml < mr {
                x = x + sx;
                ix = ix + 1;
            } else if ml > mr {
                y = y + sy;
                iy = iy + 1;
            } else {
                x = x + sx;
                y = y + sy;
                ix = ix + 1;
                iy = iy + 1;
            }
        }
        proof {
            lemma_step_between(x0 as int, x1 as int, sx as int, nx as int, ix as int);
            lemma_step_between(y0 as int, y1 as int, sy as int, ny as int, iy as int);
            assert(map.in_bounds(x as int, y as int));
            lemma_walk_first(
                x as int,
                y as int,
                sx as int,
                sy as int,
                nx as int,
                ny as int,
                ix as int,
                iy as int,
            );
            let rest = walk_rec(
                x as int,
                y as int,
                sx as int,
                sy as int,
                nx as int,
                ny as int,
                ix as int,
                iy as int,
            );
            assert(walk_rec(cx, cy, sx as int, sy as int, nx as int, ny as int, old_ix, old_iy)
                == seq![(cx, cy)] + rest);
            assert(old_visited + (seq![(cx, cy)] + rest) =~= visited + rest);
            assert(line == visited + rest);
            assert(line[visited.len() as int] == (x as int, y as int));
        }
        if !(ix == nx && iy == ny) {
            // An interior cell of the line: opaque terrain blocks sight.
            let tile_is_wall = match map.get_tile(x, y) {
                Some(t) => t.is_opaque(),
                None => true,
            };
            if tile_is_wall {
                proof {
                    assert(1 <= visited.len() < line.len() - 1);
                    let kk = visited.len() as int;
                    assert(line_between(ax as int, ay as int, bx as int, by as int)[kk] == (
                    x as int,
                    y as int,
                    ));
                    assert(map.tile_at(line[kk].0, line[kk].1) == TileType::Wall);
                }
                return false;
            }
        }
    }
    proof {
        assert(walk_rec(
            x as int,
            y as int,
            sx as int,
            sy as int,
            nx as int,
            ny as int,
            ix as int,
            iy as int,
        ) == seq![(x as int, y as int)]);
        assert(line.len() == visited.len() + 1);
        assert forall|k: int| 1 <= k < line.len() - 1 implies map.tile_at(
            (#[trigger] line[k]).0,
            line[k].1,
        ) != TileType::Wall by {
            assert(line[k] == visited[k]);
        }
    }
    true
}

/// A cell within squared distance `r * r` of another differs from it by
/// at most `r` on each axis.
proof fn lemma_dist_bound(ax: int, ay: int, bx: int, by: int, r: int)
    requires
        dist2(ax, ay, bx, by) <= r * r,
        r >= 0,
    ensures
        -r <= ax - bx <= r,
        -r <= ay - by <= r,
{
    assert(-r <= ax - bx <= r && -r <= ay - by <= r) by (nonlinear_arith)
        requires
            (ax - bx) * (ax - bx) + (ay - by) * (ay - by) <= r * r,
            r >= 0,
    ;
}

/// Compute the set of cells visible from `origin` within `range`: every
/// in-bounds cell within the radius whose line of sight from the origin
/// is unobstructed, the origin itself included. An out-of-bounds origin
/// sees nothing.
pub fn field_of_view(map: &TileMap, origin: Point, range: i32) -> (r: Vec<Point>)
    requires
        map.wf(),
        0 <= range <= 1000,
    ensures
        forall|p: Point| #[trigger]
            r@.contains(p) <==> visible_spec(
                *map,
                origin.x as int,
                origin.y as int,
                p.x as int,
                p.y as int,
                range as int,
            ),
{
    let mut result: Vec<Point> = Vec::new();
    let ox = origin.x;
    let oy = origin.y;
    if ox < 0 || ox >= map.get_width() || oy < 0 || oy >= map.get_height() {
        return result;
    }

    let y_lo = if oy - range > 0 {
        oy - range
    } else {
        0
    };
    let y_hi = if oy + range < map.get_height() - 1 {
        oy + range
    } else {
        map.get_height() - 1
    };
    let x_lo = if ox - range > 0 {
        ox - range
    } else {
        0
    };
    let x_hi = if ox + range < map.get_width() - 1 {
        ox + range
    } else {
        map.get_width() - 1
    };

    proof {
        assert forall|p: Point|
            visible_spec(*map, ox as int, oy as int, p.x as int, p.y as int, range as int)
                implies y_lo <= p.y <= y_hi && x_lo <= p.x <= x_hi by {
            lemma_dist_bound(ox as int, oy as int, p.x as int, p.y as int, range as int);
        }
    }
    let mut ty = y_lo;
    while ty <= y_hi
        invariant
            map.wf(),
            map.in_bounds(ox as int, oy as int),
            ox == origin.x,
            oy == origin.y,
            0 <= range <= 1000,
            y_lo <= ty,
            ty <= y_hi + 1,
            0 <= y_lo,
            y_hi < map.height,
            0 <= x_lo,
            x_hi < map.width,
            y_lo == crate::tilemap::max_int(0, oy as int - range as int),
            y_hi == crate::tilemap::min_int(map.height as int - 1, oy as int + range as int),
            x_lo == crate::tilemap::max_int(0, ox as int - range as int),
            x_hi == crate::tilemap::min_int(map.width as int - 1, ox as int + range as int),
            forall|p: Point| #[trigger]
                result@.contains(p) <==> (visible_spec(
                    *map,
                    ox as int,
                    oy as int,
                    p.x as int,
                    p.y as int,
                    range as int,
                ) && p.y < ty),
        decreases y_hi + 1 - ty,
    {
        proof {
            assert forall|p: Point|
                visible_spec(*map, ox as int, oy as int, p.x as int, p.y as int, range as int)
                    implies x_lo <= p.x <= x_hi by {
                lemma_dist_bound(ox as int, oy as int, p.x as int, p.y as int, range as int);
            }
        }
        let mut tx = x_lo;
        while tx <= x_hi
            invariant
                map.wf(),
                map.in_bounds(ox as int, oy as int),
                ox == origin.x,
                oy == origin.y,
                0 <= range <= 1000,
                y_lo <= ty <= y_hi,
                x_lo <= tx,
                tx <= x_hi + 1,
                0 <= y_lo,
                y_hi < map.height,
                0 <= x_lo,
                x_hi < map.width,
                y_lo == crate::tilemap::max_int(0, oy as int - range as int),
                y_hi == crate::tilemap::min_int(map.height as int - 1, oy as int + range as int),
                x_lo == crate::tilemap::max_int(0, ox as int - range as int),
                x_hi == crate::tilemap::min_int(map.width as int - 1, ox as int + range as int),
                forall|p: Point| #[trigger]
                    result@.contains(p) <==> (visible_spec(
                        *map,
                        ox as int,
                        oy as int,
                        p.x as int,
                        p.y as int,
                        range as int,
                    ) && (p.y < ty || (p.y == ty && p.x < tx))),
            decreases x_hi + 1 - tx,
        {
            let ghost old_result = result@;
            let dx = (ox as i64) - (tx as i64);
            let dy = (oy as i64) - (ty as i64);
            proof {
                assert(dx * dx <= 1000000 && dy * dy <= 1000000 && dx * dx >= 0 && dy * dy >= 0)
                    by (nonlinear_arith)
                    requires
                        -1000 <= dx <= 1000,
                        -1000 <= dy <= 1000,
                ;
                assert((range as i64) * (range as i64) <= 1000000 && (range as i64) * (
                range as i64) >= 0) by (nonlinear_arith)
                    requires
                        0 <= range <= 1000,
                ;
            }
            let in_radius = dx * dx + dy * dy <= (range as i64) * (range as i64);
            let q = Point { x: tx, y: ty };
            if in_radius && line_clear(map, ox, oy, tx, ty) {
                result.push(q);
            }
            proof {
                let visible_q = visible_spec(
                    *map,
                    ox as int,
                    oy as int,
                    tx as int,
                    ty as int,
                    range as int,
                );
                assert forall|p: Point| #[trigger]
                    result@.contains(p) <==> (visible_spec(
                        *map,
                        ox as int,
                        oy as int,
                        p.x as int,
                        p.y as int,
                        range as int,
                    ) && (p.y < ty || (p.y == ty && p.x < tx + 1))) by {
                    if result@.contains(p) {
                        let k = choose|k: int| 0 <= k < result@.len() && result@[k] == p;
                        if k < old_result.len() {
                            assert(old_result.contains(p));
                        } else {
                            assert(p == q);
                        }
                    }
                    if old_result.contains(p) {
                        let k = choose|k: int| 0 <= k < old_result.len() && old_result[k] == p;
                        assert(result@[k] == p);
                        assert(result@.contains(p));
                    }
                    if visible_q && p == q {
                        assert(result@[result@.len() - 1] == q);
                        assert(result@.contains(p));
                    }
                }
            }
            tx = tx + 1;
        }
        proof {
            assert forall|p: Point| #[trigger]
                result@.contains(p) <==> (visible_spec(
                    *map,
                    ox as int,
                    oy as int,
                    p.x as int,
                    p.y as int,
                    range as int,
                ) && p.y < ty + 1) by {
                if visible_spec(*map, ox as int, oy as int, p.x as int, p.y as int, range as int)
                    && p.y == ty {
                    lemma_dist_bound(ox as int, oy as int, p.x as int, p.y as int, range as int);
                    assert(x_lo <= p.x <= x_hi);
                }
            }
        }
        ty = ty + 1;
    }
    proof {
        assert forall|p: Point| #[trigger]
            result@.contains(p) <==> visible_spec(
                *map,
                origin.x as int,
                origin.y as int,
                p.x as int,
                p.y as int,
                range as int,
            ) by {
            if visible_spec(*map, ox as int, oy as int, p.x as int, p.y as int, range as int) {
                lemma_dist_bound(ox as int, oy as int, p.x as int, p.y as int, range as int);
                assert(y_lo <= p.y <= y_hi);
            }
        }
    }
    result
}

/// Recompute an actor's viewshed from its position and clear its dirty
/// flag; the cached tiles become exactly the visible set.
pub fn update_viewshed(viewshed: &mut Viewshed, pos: &Position, map: &TileMap)
    requires
        map.wf(),
        0 <= old(viewshed).range <= 1000,
    ensures
        !final(viewshed).dirty,
        final(viewshed).range == old(viewshed).range,
        forall|p: Point| #[trigger]
            final(viewshed).visible_tiles@.contains(p) <==> visible_spec(
                *map,
                pos.x as int,
                pos.y as int,
                p.x as int,
                p.y as int,
                old(viewshed).range as int,
            ),
{
    viewshed.dirty = false;
    let origin = pos.to_point();
    viewshed.visible_tiles = field_of_view(map, origin, viewshed.range);
}

/// Write an actor's viewshed onto the shared map: the transient visible
/// flags become exactly the viewshed, and every seen cell's sticky
/// revealed flag is set.
pub fn apply_viewshed_to_map(viewshed: &Viewshed, map: &mut TileMap)
    requires
        old(map).wf(),
    ensures
        final(map).wf(),
        final(map).width == old(map).width,
        final(map).height == old(map).height,
        final(map).tiles@ == old(map).tiles@,
        final(map).rooms@ == old(map).rooms@,
        final(map).blocked_tiles@ == old(map).blocked_tiles@,
        final(map).tile_content@ == old(map).tile_content@,
        final(map).corridors@ == old(map).corridors@,
        forall|x: int, y: int|
            old(map).in_bounds(x, y) ==> #[trigger] final(map).visible_at(x, y)
                == viewshed.visible_tiles@.contains(Point { x: x as i32, y: y as i32 }),
        forall|x: int, y: int|
            old(map).in_bounds(x, y) ==> final(map).revealed_tiles@[#[trigger] old(map).index_of(
                x,
                y,
            )] == (old(map).revealed_tiles@[old(map).index_of(x, y)]
                || viewshed.visible_tiles@.contains(Point { x: x as i32, y: y as i32 })),
{
    map.clear_visible_tiles();
    proof {
        assert forall|x: int, y: int| old(map).in_bounds(x, y) implies !(#[trigger] map.visible_at(
            x,
            y,
        )) by {
            old(map).lemma_index_in_range(x, y);
        }
    }
    let n = viewshed.visible_tiles.len();
    let mut k: usize = 0;
    while k < n
        invariant
            map.wf(),
            old(map).wf(),
            n == viewshed.visible_tiles@.len(),
            k <= n,
            map.width == old(map).width,
            map.height == old(map).height,
            map.tiles@ == old(map).tiles@,
            map.rooms@ == old(map).rooms@,
            map.blocked_tiles@ == old(map).blocked_tiles@,
            map.tile_content@ == old(map).tile_content@,
            map.corridors@ == old(map).corridors@,
            forall|x: int, y: int|
                old(map).in_bounds(x, y) ==> #[trigger] map.visible_at(x, y)
                    == viewshed.visible_tiles@.subrange(0, k as int).contains(
                    Point { x: x as i32, y: y as i32 },
                ),
            forall|x: int, y: int|
                old(map).in_bounds(x, y) ==> map.revealed_tiles@[#[trigger] old(map).index_of(
                    x,
                    y,
                )] == (old(map).revealed_tiles@[old(map).index_of(x, y)]
                    || viewshed.visible_tiles@.subrange(0, k as int).contains(
                    Point { x: x as i32, y: y as i32 },
                )),
        decreases n - k,
    {
        let ghost before = *map;
        let p = viewshed.visible_tiles[k];
        map.set_tile_revealed(p.x, p.y);
        map.set_tile_visible(p.x, p.y);
        proof {
            let sub_new = viewshed.visible_tiles@.subrange(0, k as int + 1);
            let sub_old = viewshed.visible_tiles@.subrange(0, k as int);
            assert(sub_new =~= sub_old.push(p));
            if before.in_bounds(p.x as int, p.y as int) {
                before.lemma_index_in_range(p.x as int, p.y as int);
            }
            assert(sub_new[k as int] == p);
            assert(sub_new.contains(p));
            assert forall|x: int, y: int| old(map).in_bounds(x, y) implies #[trigger] map
                .visible_at(x, y) == sub_new.contains(Point { x: x as i32, y: y as i32 }) by {
                let pt = Point { x: x as i32, y: y as i32 };
                old(map).lemma_index_in_range(x, y);
                assert(before.visible_at(x, y) == sub_old.contains(pt));
                assert(sub_new.contains(pt) == (sub_old.contains(pt) || pt == p)) by {
                    if sub_new.contains(pt) {
                        let kk = choose|kk: int| 0 <= kk < sub_new.len() && sub_new[kk] == pt;
                        if kk < k as int {
                            assert(sub_old[kk] == pt);
                            assert(sub_old.contains(pt));
                        } else {
                            assert(pt == p);
                        }
                    }
                    if sub_old.contains(pt) {
                        let kk = choose|kk: int| 0 <= kk < sub_old.len() && sub_old[kk] == pt;
                        assert(sub_new[kk] == pt);
                        assert(sub_new.contains(pt));
                    }
                }
                if before.in_bounds(p.x as int, p.y as int) && before.index_of(
                    p.x as int,
                    p.y as int,
                ) == before.index_of(x, y) {
                    before.lemma_index_injective(p.x as int, p.y as int, x, y);
                    assert(pt == p);
                    assert(map.visible_at(x, y));
                } else {
                    assert(map.visible_at(x, y) == before.visible_at(x, y));
                    assert(pt != p);
                }
            }
            assert forall|x: int, y: int| old(map).in_bounds(x, y) implies map.revealed_tiles@[
            #[trigger] old(map).index_of(x, y)] == (old(map).revealed_tiles@[old(map).index_of(
                x,
                y,
            )] || sub_new.contains(Point { x: x as i32, y: y as i32 })) by {
                let pt = Point { x: x as i32, y: y as i32 };
                old(map).lemma_index_in_range(x, y);
                assert(before.revealed_tiles@[old(map).index_of(x, y)] == (old(
                    map,
                ).revealed_tiles@[old(map).index_of(x, y)] || sub_old.contains(pt)));
                assert(sub_new.contains(pt) == (sub_old.contains(pt) || pt == p)) by {
                    if sub_new.contains(pt) {
                        let kk = choose|kk: int| 0 <= kk < sub_new.len() && sub_new[kk] == pt;
                        if kk < k as int {
                            assert(sub_old[kk] == pt);
                            assert(sub_old.contains(pt));
                        } else {
                            assert(pt == p);
                        }
                    }
                    if sub_old.contains(pt) {
                        let kk = choose|kk: int| 0 <= kk < sub_old.len() && sub_old[kk] == pt;
                        assert(sub_new[kk] == pt);
                        assert(sub_new.contains(pt));
                    }
                }
                if before.in_bounds(p.x as int, p.y as int) && before.index_of(
                    p.x as int,
                    p.y as int,
                ) == before.index_of(x, y) {
                    before.lemma_index_injective(p.x as int, p.y as int, x, y);
                    assert(pt == p);
                    assert(map.revealed_tiles@[old(map).index_of(x, y)]);
                } else {
                    assert(map.revealed_tiles@[old(map).index_of(x, y)] == before.revealed_tiles@[
                    old(map).index_of(x, y)]);
                    assert(pt != p);
                }
            }
        }
        k = k + 1;
    }
    proof {
        assert(viewshed.visible_tiles@.subrange(0, viewshed.visible_tiles@.len() as int)
            =~= viewshed.visible_tiles@);
    }
}

} // verus!
