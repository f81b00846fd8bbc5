//! A* pathfinding over the map's blocked index.
//!
//! Cells are connected to their eight neighbours, with straight steps
//! costing 100 and diagonal steps 145 (the classic fixed approximation of
//! the diagonal, scaled to integers). A step may only enter a cell that
//! is not blocked; the start cell itself may be blocked (an actor path-
//! finds out of its own, blocking, cell).

use vstd::prelude::*;

use crate::tilemap::{max_int, TileMap};

verus! {

/// Cost of a straight step, scaled by 100.
pub open spec fn straight_cost() -> int {
    100
}

/// Cost of a diagonal step: the fixed 1.45 approximation, scaled by 100.
pub open spec fn diagonal_cost() -> int {
    145
}

/// Column of the cell with row-major index `i`.
pub open spec fn coord_x(m: TileMap, i: int) -> int {
    i % (m.width as int)
}

/// Row of the cell with row-major index `i`.
pub open spec fn coord_y(m: TileMap, i: int) -> int {
    i / (m.width as int)
}

/// Cells `a` and `b` are distinct and touch, orthogonally or diagonally.
pub open spec fn adjacent(m: TileMap, a: int, b: int) -> bool {
    max_int(
        vstd::math::abs(coord_x(m, a) - coord_x(m, b)) as int,
        vstd::math::abs(coord_y(m, a) - coord_y(m, b)) as int,
    ) == 1
}

/// A step of the path graph: from `a` one may move to the adjacent,
/// unblocked cell `b`.
pub open spec fn edge(m: TileMap, a: int, b: int) -> bool {
    &&& 0 <= a < m.area()
    &&& 0 <= b < m.area()
    &&& adjacent(m, a, b)
    &&& !m.blocked_tiles@[b]
}

/// Cost of the step from `a` to `b`.
pub open spec fn step_cost(m: TileMap, a: int, b: int) -> int {
    if vstd::math::abs(coord_x(m, a) - coord_x(m, b)) == 1 && vstd::math::abs(
        coord_y(m, a) - coord_y(m, b),
    ) == 1 {
        diagonal_cost()
    } else {
        straight_cost()
    }
}

/// The scaled octile distance between two cells: the cheapest cost of
/// an unobstructed eight-directional walk between them, with straight
/// steps at 100 and diagonal steps at 145.
pub open spec fn pathing_distance_spec(m: TileMap, a: int, b: int) -> int {
    let dx = vstd::math::abs(coord_x(m, a) - coord_x(m, b)) as int;
    let dy = vstd::math::abs(coord_y(m, a) - coord_y(m, b)) as int;
    100 * max_int(dx, dy) + 45 * crate::tilemap::min_int(dx, dy)
}

/// `p` walks from `start` to `goal` along edges of the path graph.
pub open spec fn valid_path(m: TileMap, p: Seq<usize>, start: usize, goal: usize) -> bool {
    &&& p.len() >= 1
    &&& p[0] == start
    &&& p[p.len() - 1] == goal
    &&& forall|k: int| 0 <= k < p.len() - 1 ==> #[trigger] edge(m, p[k] as int, p[k + 1] as int)
}

/// Some path leads from `start` to `goal`.
pub open spec fn reachable(m: TileMap, start: usize, goal: usize) -> bool {
    exists|p: Seq<usize>| valid_path(m, p, start, goal)
}

/// The outcome of a pathfinding request: on success, the full list of
/// cell indices from start to goal inclusive; on failure, an empty list.
pub struct NavigationPath {
    pub success: bool,
    pub steps: Vec<usize>,
}

/// A vector of `n` copies of `value`.
fn filled<T: Copy>(n: usize, value: T) -> (r: Vec<T>)
    ensures
        r@.len() == n,
        forall|i: int| 0 <= i < n ==> r@[i] == value,
{
    let mut r: Vec<T> = Vec::new();
    let mut i: usize = 0;
    while i < n
        invariant
            i <= n,
            r@.len() == i,
            forall|j: int| 0 <= j < i ==> r@[j] == value,
        decreases n - i,
    {
        r.push(value);
        i = i + 1;
    }
    r
}

/// Any path from a cell of the closed set ends in the closed set, as
/// long as the set is closed under edges of the path graph.
proof fn lemma_path_in_closed(
    m: TileMap,
    closed: Seq<bool>,
    p: Seq<usize>,
    start: usize,
    goal: usize,
)
    requires
        closed.len() == m.area(),
        valid_path(m, p, start, goal),
        start < m.area(),
        closed[start as int],
        forall|v: int, b: int|
            0 <= v < m.area() && closed[v] && #[trigger] edge(m, v, b) ==> closed[b],
    ensures
        goal < m.area(),
        closed[goal as int],
    decreases p.len(),
{
    if p.len() == 1 {
        assert(p[0] == start && p[0] == goal);
    } else {
        let q = p.drop_last();
        let mid = p[p.len() - 2];
        assert(valid_path(m, q, start, mid)) by {
            assert(q[0] == p[0]);
            assert(q[q.len() - 1] == p[p.len() - 2]);
            assert(forall|k: int|
                0 <= k < q.len() - 1 ==> #[trigger] edge(m, q[k] as int, q[k + 1] as int) == edge(
                    m,
                    p[k] as int,
                    p[k + 1] as int,
                ));
        }
        lemma_path_in_closed(m, closed, q, start, mid);
        let kk = p.len() - 2;
        assert(edge(m, p[kk] as int, p[kk + 1] as int));
        assert(p[kk + 1] == goal);
    }
}

/// Standard A* search from `start` to `goal` over the map's blocked
/// index: succeeds, with the full path from `start` to `goal` inclusive,
/// exactly when the goal is reachable by eight-directional steps through
/// unblocked cells; fails, with an empty step list, exactly when it is
/// not.
pub fn find_path(map: &TileMap, start: usize, goal: usize) -> (r: NavigationPath)
    requires
        map.wf(),
        start < map.area(),
        goal < map.area(),
    ensures
        r.success == reachable(*map, start, goal),
        r.success ==> valid_path(*map, r.steps@, start, goal),
        !r.success ==> r.steps@.len() == 0,
{
    let n = map.tiles.len();
    proof {
        assert(map.area() <= 100000000) by (nonlinear_arith)
            requires
                1 <= map.width <= 10000,
                1 <= map.height <= 10000,
        ;
    }
    let mut closed: Vec<bool> = filled(n, false);
    let mut open: Vec<bool> = filled(n, false);
    let mut parent: Vec<usize> = filled(n, 0);
    let mut g: Vec<u64> = filled(n, 0);
    let mut depth: Vec<usize> = filled(n, 0);
    open[start] = true;
    let ghost mut closed_set: Set<int> = Set::empty();
    let mut closed_count: usize = 0;

    loop
        invariant
            map.wf(),
            n == map.area(),
            map.area() <= 100000000,
            start < n,
            goal < n,
            closed@.len() == n,
            open@.len() == n,
            parent@.len() == n,
            g@.len() == n,
            depth@.len() == n,
            forall|i: int| 0 <= i < n ==> !(closed@[i] && open@[i]),
            closed@[start as int] || open@[start as int],
            !closed@[goal as int],
            forall|i: int|
                0 <= i < n && (closed@[i] || open@[i]) && i != start ==> (#[trigger] parent@[i])
                    < n && closed@[parent@[i] as int] && edge(*map, parent@[i] as int, i)
                    && depth@[i] == depth@[parent@[i] as int] + 1,
            forall|i: int| 0 <= i < n && closed@[i] ==> (#[trigger] depth@[i]) < closed_count,
            forall|i: int| 0 <= i < n && open@[i] ==> (#[trigger] depth@[i]) <= closed_count,
            closed_count <= n,
            forall|i: int|
                0 <= i < n && (closed@[i] || open@[i]) ==> (#[trigger] g@[i]) <= 145 * depth@[i],
            forall|v: int, b: int|
                0 <= v < n && closed@[v] && #[trigger] edge(*map, v, b) ==> (closed@[b]
                    || open@[b]),
            closed_set.finite(),
            closed_set.len() == closed_count,
            forall|i: int| closed_set.contains(i) <==> (0 <= i < n && closed@[i]),
        decreases n - closed_count,
    {
        // Select the open cell with the least f = g + heuristic.
        let mut best: usize = 0;
        let mut best_f: u64 = 0;
        let mut found = false;
        let mut i: usize = 0;
        while i < n
            invariant
                map.wf(),
                n == map.area(),
                map.area() <= 100000000,
                goal < n,
                open@.len() == n,
                g@.len() == n,
                depth@.len() == n,
                closed@.len() == n,
                closed_count <= n,
                i <= n,
                forall|j: int| 0 <= j < n && open@[j] ==> (#[trigger] depth@[j]) <= closed_count,
                forall|j: int|
                    0 <= j < n && (closed@[j] || open@[j]) ==> (#[trigger] g@[j]) <= 145
                        * depth@[j],
                !found ==> forall|j: int| 0 <= j < i ==> !open@[j],
                found ==> best < n && open@[best as int],
            decreases n - i,
        {
            if open[i] {
                let h = map.get_pathing_distance(i, goal);
                let f = g[i] + h;
                if !found || f < best_f {
                    found = true;
                    best = i;
                    best_f = f;
                }
            }
            i = i + 1;
        }

        if !found {
            // The frontier is exhausted: everything reached is closed and
            // closed cells only step to reached cells, so no path can
            // leave the closed set; the goal was never closed.
            proof {
                if reachable(*map, start, goal) {
                    let p = choose|p: Seq<usize>| valid_path(*map, p, start, goal);
                    lemma_path_in_closed(*map, closed@, p, start, goal);
                }
            }
            return NavigationPath { success: false, steps: Vec::new() };
        }

        let v = best;
        if v == goal {
            // Walk the parent chain back to the start, then reverse it.
            let mut rev: Vec<usize> = Vec::new();
            rev.push(goal);
            let mut cur = goal;
            while cur != start
                invariant
                    map.wf(),
                    n == map.area(),
                    start < n,
                    goal < n,
                    cur < n,
                    closed@.len() == n,
                    open@.len() == n,
                    parent@.len() == n,
                    depth@.len() == n,
                    closed@[cur as int] || open@[cur as int],
                    forall|j: int|
                        0 <= j < n && (closed@[j] || open@[j]) && j != start ==> (
                        #[trigger] parent@[j]) < n && closed@[parent@[j] as int] && edge(
                            *map,
                            parent@[j] as int,
                            j,
                        ) && depth@[j] == depth@[parent@[j] as int] + 1,
                    rev@.len() >= 1,
                    rev@[0] == goal,
                    rev@[rev@.len() - 1] == cur,
                    forall|t: int|
                        0 <= t < rev@.len() - 1 ==> #[trigger] edge(
                            *map,
                            rev@[t + 1] as int,
                            rev@[t] as int,
                        ),
                decreases depth@[cur as int],
            {
                let pnode = parent[cur];
                rev.push(pnode);
                cur = pnode;
            }
            let len = rev.len();
            let mut steps: Vec<usize> = Vec::new();
            let mut t: usize = 0;
            while t < len
                invariant
                    len == rev@.len(),
                    t <= len,
                    steps@.len() == t,
                    forall|k: int| 0 <= k < t ==> steps@[k] == rev@[len - 1 - k],
                decreases len - t,
            {
                steps.push(rev[len - 1 - t]);
                t = t + 1;
            }
            proof {
                assert(steps@[0] == rev@[len - 1]);
                assert(steps@[steps@.len() - 1] == rev@[0]);
                assert forall|k: int| 0 <= k < steps@.len() - 1 implies #[trigger] edge(
                    *map,
                    steps@[k] as int,
                    steps@[k + 1] as int,
                ) by {
                    assert(steps@[k] == rev@[len - 1 - k]);
                    assert(steps@[k + 1] == rev@[len - 1 - (k + 1)]);
                    assert(edge(*map, rev@[(len - 2 - k) + 1] as int, rev@[len - 2 - k] as int));
                }
                assert(valid_path(*map, steps@, start, goal));
            }
            return NavigationPath { success: true, steps };
        }

        // Close the selected cell.
        open[v] = false;
        closed[v] = true;
        closed_count = closed_count + 1;
        proof {
            broadcast use vstd::set::axiom_set_insert_len;

            assert(!closed_set.contains(v as int));
            closed_set = closed_set.insert(v as int);
            assert(closed_set.len() == closed_count);
            assert(closed_set.subset_of(vstd::set_lib::set_int_range(0, n as int)));
            vstd::set_lib::lemma_int_range(0, n as int);
            vstd::set_lib::lemma_len_subset(
                closed_set,
                vstd::set_lib::set_int_range(0, n as int),
            );
        }

        // Open or improve every neighbour the cell can step to.
        let exits = map.get_available_exits(v);
        let n_exits = exits.len();
        let mut e: usize = 0;
        while e < n_exits
            invariant
                map.wf(),
                n == map.area(),
                map.area() <= 100000000,
                start < n,
                goal < n,
                v < n,
                closed@.len() == n,
                open@.len() == n,
                parent@.len() == n,
                g@.len() == n,
                depth@.len() == n,
                e <= n_exits,
                n_exits == exits@.len(),
                closed@[v as int],
                forall|k: int|
                    0 <= k < exits@.len() ==> edge(*map, v as int, #[trigger] exits@[k].0 as int)
                        && exits@[k].0 < n && 100 <= exits@[k].1 <= 145,
                forall|b: int|
                    #[trigger] edge(*map, v as int, b) ==> exists|k: int|
                        0 <= k < exits@.len() && #[trigger] exits@[k].0 == b,
                forall|i2: int| 0 <= i2 < n ==> !(closed@[i2] && open@[i2]),
                closed@[start as int] || open@[start as int],
                !closed@[goal as int],
                forall|i2: int|
                    0 <= i2 < n && (closed@[i2] || open@[i2]) && i2 != start ==> (
                    #[trigger] parent@[i2]) < n && closed@[parent@[i2] as int] && edge(
                        *map,
                        parent@[i2] as int,
                        i2,
                    ) && depth@[i2] == depth@[parent@[i2] as int] + 1,
                forall|i2: int|
                    0 <= i2 < n && closed@[i2] ==> (#[trigger] depth@[i2]) < closed_count,
                forall|i2: int|
                    0 <= i2 < n && open@[i2] ==> (#[trigger] depth@[i2]) <= closed_count,
                closed_count <= n,
                forall|i2: int|
                    0 <= i2 < n && (closed@[i2] || open@[i2]) ==> (#[trigger] g@[i2]) <= 145
                        * depth@[i2],
                forall|w: int, b: int|
                    0 <= w < n && closed@[w] && w != v && #[trigger] edge(*map, w, b) ==> (
                    closed@[b] || open@[b]),
                forall|k: int|
                    0 <= k < e ==> (closed@[(#[trigger] exits@[k].0) as int] || open@[exits@[k].0 as int]),
                closed_set.finite(),
                closed_set.len() == closed_count,
                forall|i2: int| closed_set.contains(i2) <==> (0 <= i2 < n && closed@[i2]),
            decreases n_exits - e,
        {
            let (u, cost) = exits[e];
            if !closed[u] && !open[u] {
                let dv = depth[v];
                let gv = g[v];
                open[u] = true;
                parent[u] = v;
                depth[u] = dv + 1;
                g[u] = gv + cost;
            } else {
                let was_open = open[u];
                if was_open {
                    let gv = g[v];
                    let cand = gv + cost;
                    if cand < g[u] {
                        let dv = depth[v];
                        parent[u] = v;
                        depth[u] = dv + 1;
                        g[u] = cand;
                    }
                }
            }
            e = e + 1;
        }
        proof {
            assert forall|w: int, b: int|
                0 <= w < n && closed@[w] && #[trigger] edge(*map, w, b) implies (closed@[b]
                || open@[b]) by {
                if w == v as int {
                    let k = choose|k: int| 0 <= k < exits@.len() && #[trigger] exits@[k].0 == b;
                    assert(closed@[exits@[k].0 as int] || open@[exits@[k].0 as int]);
                }
            }
        }
    }
}

impl TileMap {
    /// Whether a move may end on this cell.
    pub fn is_valid_exit(&self, x: i32, y: i32) -> (r: bool)
        requires
            self.wf(),
        ensures
            r == !self.blocked_at(x as int, y as int),
    {
        !self.is_tile_blocked(x, y)
    }

    /// The scaled octile distance between two cells: the exact length of
    /// an unobstructed eight-directional walk under the 100/145 step
    /// costs. Used as the A* heuristic.
    pub fn get_pathing_distance(&self, index1: usize, index2: usize) -> (r: u64)
        requires
            self.wf(),
            index1 < self.area(),
            index2 < self.area(),
        ensures
            r == pathing_distance_spec(*self, index1 as int, index2 as int),
            r <= 1450000,
    {
        let (x1, y1) = self.get_coords(index1);
        let (x2, y2) = self.get_coords(index2);
        let dx = if x1 >= x2 {
            x1 - x2
        } else {
            x2 - x1
        };
        let dy = if y1 >= y2 {
            y1 - y2
        } else {
            y2 - y1
        };
        let lo = if dx <= dy {
            dx
        } else {
            dy
        };
        let hi = if dx <= dy {
            dy
        } else {
            dx
        };
        100 * (hi as u64) + 45 * (lo as u64)
    }

    /// Every neighbouring cell a step from `index` may enter, with its
    /// step cost: exactly the edges of the path graph leaving `index`.
    pub fn get_available_exits(&self, index: usize) -> (r: Vec<(usize, u64)>)
        requires
            self.wf(),
            index < self.area(),
        ensures
            forall|k: int|
                0 <= k < r@.len() ==> edge(*self, index as int, #[trigger] r@[k].0 as int)
                    && r@[k].0 < self.area() && r@[k].1 == step_cost(
                    *self,
                    index as int,
                    r@[k].0 as int,
                ) && 100 <= r@[k].1 <= 145,
            forall|b: int|
                #[trigger] edge(*self, index as int, b) ==> exists|k: int|
                    0 <= k < r@.len() && #[trigger] r@[k].0 == b,
    {
        let (x, y) = self.get_coords(index);
        let mut result: Vec<(usize, u64)> = Vec::new();
        let mut dy: i32 = -1;
        while dy <= 1
            invariant
                self.wf(),
                index < self.area(),
                -1 <= dy <= 2,
                x == coord_x(*self, index as int),
                y == coord_y(*self, index as int),
                self.in_bounds(x as int, y as int),
                forall|k: int|
                    0 <= k < result@.len() ==> edge(*self, index as int, #[trigger] result@[k].0 as int)
                        && result@[k].0 < self.area() && result@[k].1 == step_cost(
                        *self,
                        index as int,
                        result@[k].0 as int,
                    ) && 100 <= result@[k].1 <= 145,
                forall|b: int|
                    #[trigger] edge(*self, index as int, b) && coord_y(*self, b) - y < dy
                        ==> exists|k: int| 0 <= k < result@.len() && #[trigger] result@[k].0 == b,
            decreases 2 - dy,
        {
            let mut dx: i32 = -1;
            while dx <= 1
                invariant
                    self.wf(),
                    index < self.area(),
                    -1 <= dy <= 1,
                    -1 <= dx <= 2,
                    x == coord_x(*self, index as int),
                    y == coord_y(*self, index as int),
                    self.in_bounds(x as int, y as int),
                    forall|k: int|
                        0 <= k < result@.len() ==> edge(
                            *self,
                            index as int,
                            #[trigger] result@[k].0 as int,
                        ) && result@[k].0 < self.area() && result@[k].1 == step_cost(
                            *self,
                            index as int,
                            result@[k].0 as int,
                        ) && 100 <= result@[k].1 <= 145,
                    forall|b: int|
                        #[trigger] edge(*self, index as int, b) && (coord_y(*self, b) - y < dy || (
                        coord_y(*self, b) - y == dy && coord_x(*self, b) - x < dx)) ==> exists|
                            k: int,
                        | 0 <= k < result@.len() && #[trigger] result@[k].0 == b,
                decreases 2 - dx,
            {
                let ghost prev_result = result@;
                if dx != 0 || dy != 0 {
                    let nx = x + dx;
                    let ny = y + dy;
                    if self.is_valid_exit(nx, ny) {
                        if let Some(b) = self.get_index(nx, ny) {
                            let cost: u64 = if dx != 0 && dy != 0 {
                                145
                            } else {
                                100
                            };
                            proof {
                                self.lemma_index_coords_inverse(nx as int, ny as int);
                            }
                            result.push((b, cost));
                        }
                    }
                }
                proof {
                    assert forall|b: int|
                        #[trigger] edge(*self, index as int, b) && (coord_y(*self, b) - y < dy || (
                        coord_y(*self, b) - y == dy && coord_x(*self, b) - x < dx + 1)) implies exists|
                        k: int,
                    | 0 <= k < result@.len() && #[trigger] result@[k].0 == b by {
                        if coord_y(*self, b) - y < dy || (coord_y(*self, b) - y == dy && coord_x(
                            *self,
                            b,
                        ) - x < dx) {
                            let k = choose|k: int|
                                0 <= k < prev_result.len() && #[trigger] prev_result[k].0 == b;
                            assert(result@[k].0 == b);
                        } else {
                            // b is exactly the neighbour at offset (dx, dy)
                            let bx = coord_x(*self, b);
                            let by = coord_y(*self, b);
                            assert(by == y + dy && bx == x + dx);
                            self.lemma_coords_index_inverse(b);
                            assert(!(dx == 0 && dy == 0));
                            assert(self.in_bounds(bx, by));
                            assert(b == self.index_of(bx, by));
                            assert(!self.blocked_at(bx, by));
                            assert(result@[result@.len() - 1].0 == b);
                        }
                    }
                }
                dx = dx + 1;
            }
            dy = dy + 1;
        }
        result
    }
}

} // verus!
