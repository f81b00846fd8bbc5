//! Deciding where room inhabitants spawn.

use vstd::prelude::*;

use crate::rect::Rect;
use crate::rng::Rng;

verus! {

/// How many placements are tried per requested point before giving up
/// on finding a fresh cell.
pub const SPAWN_ATTEMPTS_TIMEOUT: i32 = 1000;

/// Does the list contain the given coordinate pair?
fn coords_contain(points: &Vec<(i32, i32)>, p: (i32, i32)) -> (r: bool)
    ensures
        r == points@.contains(p),
{
    let n = points.len();
    let mut i: usize = 0;
    while i < n
        invariant
            n == points@.len(),
            i <= n,
            forall|k: int| 0 <= k < i ==> points@[k] != p,
        decreases n - i,
    {
        let q = points[i];
        if q.0 == p.0 && q.1 == p.1 {
            proof {
                assert(points@[i as int] == p);
            }
            return true;
        }
        i = i + 1;
    }
    proof {
        if points@.contains(p) {
            let k = choose|k: int| 0 <= k < points@.len() && points@[k] == p;
            assert(false);
        }
    }
    false
}

/// Pick up to `max_points` distinct random cells in the rectangle's
/// interior columns and rows: each point satisfies
/// `x1 < x <= x2` and `y1 < y <= y2`, and no point repeats.
pub fn get_random_points_in_rect(rect: &Rect, rng: &mut Rng, max_points: i32) -> (r: Vec<
    (i32, i32),
>)
    requires
        0 <= rect.x1 < rect.x2 <= 100000,
        0 <= rect.y1 < rect.y2 <= 100000,
    ensures
        r@.len() <= vstd::math::max(max_points as int, 0),
        forall|k: int|
            0 <= k < r@.len() ==> rect.x1 < (#[trigger] r@[k]).0 <= rect.x2 && rect.y1 < r@[k].1
                <= rect.y2,
        forall|k: int, l: int| 0 <= k < l < r@.len() ==> r@[k] != r@[l],
{
    let mut points: Vec<(i32, i32)> = Vec::new();
    let width = rect.x2 - rect.x1;
    let height = rect.y2 - rect.y1;

    let mut n: i32 = 0;
    while n < max_points
        invariant
            0 <= rect.x1 < rect.x2 <= 100000,
            0 <= rect.y1 < rect.y2 <= 100000,
            width == rect.x2 - rect.x1,
            height == rect.y2 - rect.y1,
            n <= max_points || n == 0,
            0 <= n,
            points@.len() <= n,
            forall|k: int|
                0 <= k < points@.len() ==> rect.x1 < (#[trigger] points@[k]).0 <= rect.x2
                    && rect.y1 < points@[k].1 <= rect.y2,
            forall|k: int, l: int| 0 <= k < l < points@.len() ==> points@[k] != points@[l],
        decreases max_points - n,
    {
        let mut attempt: i32 = 0;
        let mut placed = false;
        while attempt < SPAWN_ATTEMPTS_TIMEOUT && !placed
            invariant
                0 <= rect.x1 < rect.x2 <= 100000,
                0 <= rect.y1 < rect.y2 <= 100000,
                width == rect.x2 - rect.x1,
                height == rect.y2 - rect.y1,
                0 <= attempt <= SPAWN_ATTEMPTS_TIMEOUT,
                points@.len() <= n + 1,
                !placed ==> points@.len() <= n,
                forall|k: int|
                    0 <= k < points@.len() ==> rect.x1 < (#[trigger] points@[k]).0 <= rect.x2
                        && rect.y1 < points@[k].1 <= rect.y2,
                forall|k: int, l: int| 0 <= k < l < points@.len() ==> points@[k] != points@[l],
            decreases SPAWN_ATTEMPTS_TIMEOUT - attempt,
        {
            let x = rect.x1 + rng.roll_dice(1, width);
            let y = rect.y1 + rng.roll_dice(1, height);
            let point = (x, y);

            if !coords_contain(&points, point) {
                points.push(point);
                placed = true;
            }
            attempt = attempt + 1;
        }
        n = n + 1;
    }
    points
}

} // verus!
