//! Where the party can walk: one step, the nearest cells of the walking grid,
//! and everything within reach.

use vstd::prelude::*;

use crate::engine::Engine;
use crate::geometry;
use crate::geometry::Pos;

verus! {

/// How many cells the search for reachable cells collects.
pub const REACH_MAX_NODES: usize = 6000;

/// The position is on the walking grid.
pub open spec fn on_grid(p: Pos) -> bool {
    p.0 % 16 == 0 && p.1 % 8 == 0
}

/// The nearest position on the walking grid.
pub open spec fn grid_snap(p: Pos) -> Pos {
    (((p.0 + 8) / 16 * 16) as i64, ((p.1 + 4) / 8 * 8) as i64)
}

/// Whether a position is on the walking grid.
pub fn is_iso_grid(pos: Pos) -> (b: bool)
    ensures
        b == on_grid(pos),
{
    pos.0 % 16 == 0 && pos.1 % 8 == 0
}

/// The nearest position on the walking grid.
pub fn nearest_iso_grid(pos: Pos) -> (r: Pos)
    requires
        geometry::in_world(pos),
    ensures
        r == grid_snap(pos),
{
    let x: i64 = pos.0 + 8;
    let y: i64 = pos.1 + 4;
    let qx: i64 = if x % 16 < 0 {
        x / 16 - 1
    } else {
        x / 16
    };
    let qy: i64 = if y % 8 < 0 {
        y / 8 - 1
    } else {
        y / 8
    };
    (qx * 16, qy * 8)
}

/// The nearest position on the grid is on the grid, and near.
pub proof fn law_grid_snap_is_near(p: Pos)
    requires
        geometry::in_world(p),
    ensures
        on_grid(grid_snap(p)),
        -8 <= grid_snap(p).0 - p.0 <= 8,
        -4 <= grid_snap(p).1 - p.1 <= 4,
        on_grid(p) ==> grid_snap(p) == p,
{
}

impl Engine {
    /// The party could step from `p` in walking direction `d`.
    pub open spec fn can_step(&self, p: Pos, d: int) -> bool {
        !self.obstacle(geometry::stepped(p, d), true, 0, true)
    }

    /// The number of directions in which the party could step from `p`.
    pub open spec fn free_steps(&self, p: Pos) -> int {
        (if self.can_step(p, 0) { 1int } else { 0 }) + (if self.can_step(p, 1) { 1int } else { 0 }) + (
        if self.can_step(p, 2) { 1int } else { 0 }) + (if self.can_step(p, 3) { 1int } else { 0 })
    }
}

/// In which of the walking directions the party could step.
pub fn compute_walk(engine: &Engine, player: Pos) -> (walk: [bool; 4])
    requires
        engine.res.wf(),
        geometry::inland(player),
    ensures
        forall|d: int| 0 <= d < 4 ==> #[trigger] walk@[d] == engine.can_step(player, d),
{
    let up: bool = !engine.obstacle_at(geometry::step_from(player, 0), true, 0, true);
    let right: bool = !engine.obstacle_at(geometry::step_from(player, 1), true, 0, true);
    let down: bool = !engine.obstacle_at(geometry::step_from(player, 2), true, 0, true);
    let left: bool = !engine.obstacle_at(geometry::step_from(player, 3), true, 0, true);
    [up, right, down, left]
}

/// The number of directions in which the party could step.
pub(crate) fn count_free(engine: &Engine, p: Pos) -> (n: usize)
    requires
        engine.res.wf(),
        geometry::inland(p),
    ensures
        n == engine.free_steps(p),
{
    let walk: [bool; 4] = compute_walk(engine, p);
    let mut n: usize = 0;
    if walk[0] {
        n = n + 1;
    }
    if walk[1] {
        n = n + 1;
    }
    if walk[2] {
        n = n + 1;
    }
    if walk[3] {
        n = n + 1;
    }
    n
}

/// The cell is in the list.
pub open spec fn listed(cells: Seq<(Pos, u16)>, p: Pos) -> bool {
    exists|i: int| 0 <= i < cells.len() && (#[trigger] cells[i]).0 == p
}

/// One more step, as far as 16 bits count.
pub open spec fn step_more(s: u16) -> u16 {
    if s < 0xffff {
        (s + 1) as u16
    } else {
        s
    }
}

/// The cell can be entered: it is none of `hazards`, and free.
pub open spec fn enterable(e: &Engine, hazards: Set<Pos>, p: Pos) -> bool {
    !hazards.contains(p) && !e.obstacle(p, true, 0, false)
}

/// The list after a look from its cell `i` in direction `d`: a cell found
/// there joins if it is new and can be entered.
pub open spec fn looked(e: &Engine, hazards: Set<Pos>, cells: Seq<(Pos, u16)>, i: int, d: int) -> Seq<(Pos, u16)> {
    let p = geometry::stepped(cells[i].0, d);
    if !listed(cells, p) && enterable(e, hazards, p) {
        cells.push((p, step_more(cells[i].1)))
    } else {
        cells
    }
}

/// The list after a look from its cell `i` in the first `n` directions.
pub open spec fn looked_around(e: &Engine, hazards: Set<Pos>, cells: Seq<(Pos, u16)>, i: int, n: int) -> Seq<(Pos, u16)>
    decreases n,
{
    if n <= 0 {
        cells
    } else {
        looked(e, hazards, looked_around(e, hazards, cells, i, n - 1), i, n - 1)
    }
}

/// The cells found from `start` after a look around from the first `k` of
/// them, but from none that is `depth` steps away.
pub open spec fn flooded(e: &Engine, hazards: Set<Pos>, start: Pos, depth: int, k: int) -> Seq<(Pos, u16)>
    decreases k,
{
    if k <= 0 {
        Seq::empty().push((start, 0u16))
    } else {
        let cells = flooded(e, hazards, start, depth, k - 1);
        if cells[k - 1].1 < depth {
            looked_around(e, hazards, cells, k - 1, 4)
        } else {
            cells
        }
    }
}

/// The search ends: nothing is left to look from, or `max` cells are found.
pub open spec fn flood_ends(e: &Engine, hazards: Set<Pos>, start: Pos, depth: int, max: int, k: int) -> bool {
    let n = flooded(e, hazards, start, depth, k).len();
    k >= n || n >= max
}

/// The search ends with the look from the `k`-th cell, and not before.
pub open spec fn flood_ends_at(e: &Engine, hazards: Set<Pos>, start: Pos, depth: int, max: int, k: int) -> bool {
    &&& 0 <= k
    &&& flood_ends(e, hazards, start, depth, max, k)
    &&& forall|j: int| 0 <= j < k ==> !#[trigger] flood_ends(e, hazards, start, depth, max, j)
}

/// From how many cells the search looks around.
pub open spec fn flood_end(e: &Engine, hazards: Set<Pos>, start: Pos, depth: int, max: int) -> int {
    choose|k: int| flood_ends_at(e, hazards, start, depth, max, k)
}

/// The cells that the search finds, with the number of steps to each.
pub open spec fn reached(e: &Engine, hazards: Set<Pos>, start: Pos, max: int) -> Seq<(Pos, u16)> {
    flooded(e, hazards, start, 0x1_0000, flood_end(e, hazards, start, 0x1_0000, max))
}

/// The cells of a search grow out of each other.
pub open spec fn grown(e: &Engine, hazards: Set<Pos>, start: Pos, cells: Seq<(Pos, u16)>, k: int) -> bool {
    &&& cells.len() >= 1
    &&& cells[0] == (start, 0u16)
    &&& forall|i: int, j: int| 0 <= i < j < cells.len() ==> (#[trigger] cells[i]).0 != (#[trigger] cells[j]).0
    &&& forall|i: int, j: int| 0 <= i <= j < cells.len() ==> (#[trigger] cells[i]).1 <= (#[trigger] cells[j]).1
    &&& forall|j: int| 1 <= j < cells.len() ==> #[trigger] grown_from_earlier(e, hazards, cells, k, j)
}

/// Cell `j` was found by a look from one of the first `k` cells before it.
pub open spec fn grown_from_earlier(e: &Engine, hazards: Set<Pos>, cells: Seq<(Pos, u16)>, k: int, j: int) -> bool {
    &&& enterable(e, hazards, cells[j].0)
    &&& exists|i: int, d: int|
        0 <= i < j && i < k && 0 <= d < 4 && #[trigger] is_step_from(cells, i, d, j)
}

pub open spec fn is_step_from(cells: Seq<(Pos, u16)>, i: int, d: int, j: int) -> bool {
    cells[j].0 == geometry::stepped(cells[i].0, d) && cells[j].1 == step_more(cells[i].1)
}

/// Whatever can be entered around cell `i` is in the list, no farther away
/// than one step more.
pub open spec fn surveyed(e: &Engine, hazards: Set<Pos>, cells: Seq<(Pos, u16)>, i: int, d: int) -> bool {
    let p = geometry::stepped(cells[i].0, d);
    enterable(e, hazards, p) ==> exists|j: int|
        0 <= j < cells.len() && (#[trigger] cells[j]).0 == p && cells[j].1 <= step_more(cells[i].1)
}

/// A look adds at most one cell and keeps the order.
proof fn lemma_looked(e: &Engine, hazards: Set<Pos>, start: Pos, cells: Seq<(Pos, u16)>, k: int, i: int, d: int)
    requires
        grown(e, hazards, start, cells, k),
        0 <= i < k,
        i < cells.len(),
        0 <= d < 4,
        forall|j: int| 0 <= j < cells.len() ==> (#[trigger] cells[j]).1 <= step_more(cells[i].1),
    ensures
        ({
            let next = looked(e, hazards, cells, i, d);
            &&& grown(e, hazards, start, next, k)
            &&& cells.len() <= next.len() <= cells.len() + 1
            &&& forall|j: int| 0 <= j < cells.len() ==> next[j] == cells[j]
            &&& forall|j: int| 0 <= j < next.len() ==> (#[trigger] next[j]).1 <= step_more(cells[i].1)
            &&& surveyed(e, hazards, next, i, d)
        }),
{
    let p = geometry::stepped(cells[i].0, d);
    let next = looked(e, hazards, cells, i, d);
    let n = cells.len() as int;
    if !listed(cells, p) && enterable(e, hazards, p) {
        assert(next[n] == (p, step_more(cells[i].1)));
        assert forall|a: int, b: int| 0 <= a < b < next.len() implies (#[trigger] next[a]).0 != (#[trigger] next[b]).0 by {
            assert(next[a] == cells[a]);
            if b < n {
                assert(next[b] == cells[b]);
            }
        }
        assert forall|j: int| 1 <= j < next.len() implies #[trigger] grown_from_earlier(e, hazards, next, k, j) by {
            if j < n {
                assert(grown_from_earlier(e, hazards, cells, k, j));
                let (a, b) = choose|a: int, b: int| 0 <= a < j && a < k && 0 <= b < 4 && #[trigger] is_step_from(cells, a, b, j);
                assert(is_step_from(next, a, b, j));
            } else {
                assert(is_step_from(next, i, d, j));
            }
        }
    }
}

/// A look around surveys a cell.
proof fn lemma_looked_around(e: &Engine, hazards: Set<Pos>, start: Pos, cells: Seq<(Pos, u16)>, k: int, i: int, n: int)
    requires
        grown(e, hazards, start, cells, k),
        0 <= i < k,
        i < cells.len(),
        0 <= n <= 4,
        forall|j: int| 0 <= j < cells.len() ==> (#[trigger] cells[j]).1 <= step_more(cells[i].1),
    ensures
        ({
            let next = looked_around(e, hazards, cells, i, n);
            &&& grown(e, hazards, start, next, k)
            &&& cells.len() <= next.len() <= cells.len() + n
            &&& forall|j: int| 0 <= j < cells.len() ==> next[j] == cells[j]
            &&& forall|j: int| 0 <= j < next.len() ==> (#[trigger] next[j]).1 <= step_more(cells[i].1)
            &&& forall|d: int| 0 <= d < n ==> #[trigger] surveyed(e, hazards, next, i, d)
        }),
    decreases n,
{
    if n > 0 {
        lemma_looked_around(e, hazards, start, cells, k, i, n - 1);
        let before = looked_around(e, hazards, cells, i, n - 1);
        let next = looked_around(e, hazards, cells, i, n);
        lemma_looked(e, hazards, start, before, k, i, n - 1);
        assert forall|d: int| 0 <= d < n implies #[trigger] surveyed(e, hazards, next, i, d) by {
            if d < n - 1 {
                lemma_surveyed_stays(e, hazards, before, next, i, d);
            }
        }
    }
}

/// What is surveyed stays so while the list grows.
proof fn lemma_surveyed_stays(e: &Engine, hazards: Set<Pos>, cells: Seq<(Pos, u16)>, next: Seq<(Pos, u16)>, i: int, d: int)
    requires
        0 <= i < cells.len() <= next.len(),
        forall|j: int| 0 <= j < cells.len() ==> next[j] == cells[j],
        surveyed(e, hazards, cells, i, d),
    ensures
        surveyed(e, hazards, next, i, d),
{
    let p = geometry::stepped(cells[i].0, d);
    if enterable(e, hazards, p) {
        let j = choose|j: int|
            0 <= j < cells.len() && (#[trigger] cells[j]).0 == p && cells[j].1 <= step_more(cells[i].1);
        assert(next[j] == cells[j]);
    }
}

/// Everything that holds of the search without a limit of depth after a look
/// from `k` cells.
pub open spec fn flood_sound(e: &Engine, hazards: Set<Pos>, start: Pos, depth: int, k: int) -> bool {
    let cells = flooded(e, hazards, start, depth, k);
    &&& grown(e, hazards, start, cells, k)
    &&& cells.len() <= 4 * k + 1
    &&& k >= 1 ==> forall|j: int| 0 <= j < cells.len() ==> (#[trigger] cells[j]).1 <= step_more(cells[k - 1].1)
    &&& depth > 0xffff ==> forall|i: int, d: int|
        0 <= i < k && 0 <= d < 4 ==> #[trigger] surveyed(e, hazards, cells, i, d)
}

pub proof fn lemma_flood_sound(e: &Engine, hazards: Set<Pos>, start: Pos, depth: int, k: int)
    requires
        k >= 0,
        forall|j: int| 0 <= j < k ==> j < (#[trigger] flooded(e, hazards, start, depth, j)).len(),
    ensures
        flood_sound(e, hazards, start, depth, k),
        k >= 1 ==> flooded(e, hazards, start, depth, k - 1).len() <= flooded(e, hazards, start, depth, k).len(),
        k >= 1 ==> forall|j: int|
            0 <= j < flooded(e, hazards, start, depth, k - 1).len() ==> flooded(e, hazards, start, depth, k)[j] == flooded(
                e,
                hazards,
                start,
                depth,
                k - 1,
            )[j],
    decreases k,
{
    if k > 0 {
        lemma_flood_sound(e, hazards, start, depth, k - 1);
        let cells = flooded(e, hazards, start, depth, k - 1);
        let next = flooded(e, hazards, start, depth, k);
        let i = k - 1;
        assert(i < cells.len());
        assert(grown(e, hazards, start, cells, k)) by {
            assert forall|j: int| 1 <= j < cells.len() implies #[trigger] grown_from_earlier(e, hazards, cells, k, j) by {
                assert(grown_from_earlier(e, hazards, cells, k - 1, j));
            }
        }
        assert forall|j: int| 0 <= j < cells.len() implies (#[trigger] cells[j]).1 <= step_more(cells[i].1) by {
            if k >= 2 {
                assert(cells[k - 2].1 <= cells[i].1);
                assert(cells[j].1 <= step_more(cells[k - 2].1));
            }
        }
        if cells[i].1 < depth {
            lemma_looked_around(e, hazards, start, cells, k, i, 4);
        }
        if depth > 0xffff {
            assert forall|a: int, d: int| 0 <= a < k && 0 <= d < 4 implies #[trigger] surveyed(e, hazards, next, a, d) by {
                if a < i {
                    assert(surveyed(e, hazards, cells, a, d));
                    lemma_surveyed_stays(e, hazards, cells, next, a, d);
                }
            }
        }
    }
}

/// The end of a search is one and no other.
proof fn lemma_flood_end(e: &Engine, hazards: Set<Pos>, start: Pos, depth: int, max: int, k: int)
    requires
        flood_ends_at(e, hazards, start, depth, max, k),
    ensures
        flood_end(e, hazards, start, depth, max) == k,
{
    let other = flood_end(e, hazards, start, depth, max);
    assert(flood_ends_at(e, hazards, start, depth, max, other));
    if other < k {
        assert(!flood_ends(e, hazards, start, depth, max, other));
    } else if k < other {
        assert(!flood_ends(e, hazards, start, depth, max, k));
    }
}

/// A walk: each cell is a step away from the one before and can be entered.
pub open spec fn is_walk(e: &Engine, hazards: Set<Pos>, walk: Seq<Pos>) -> bool {
    forall|i: int| 1 <= i < walk.len() ==> #[trigger] is_walk_step(e, hazards, walk, i)
}

pub open spec fn is_walk_step(e: &Engine, hazards: Set<Pos>, walk: Seq<Pos>, i: int) -> bool {
    &&& enterable(e, hazards, walk[i])
    &&& exists|d: int| 0 <= d < 4 && walk[i] == #[trigger] geometry::stepped(walk[i - 1], d)
}

/// Where the search came to its end, it found the end of every walk from the
/// start, and no walk there is shorter than the steps that it counts.
pub proof fn law_reach_is_complete_and_shortest(e: &Engine, hazards: Set<Pos>, start: Pos, k: int, walk: Seq<Pos>)
    requires
        k >= 0,
        forall|j: int| 0 <= j < k ==> j < (#[trigger] flooded(e, hazards, start, 0x1_0000, j)).len(),
        k >= flooded(e, hazards, start, 0x1_0000, k).len(),
        walk.len() >= 1,
        walk[0] == start,
        is_walk(e, hazards, walk),
    ensures
        ({
            let cells = flooded(e, hazards, start, 0x1_0000, k);
            exists|i: int| 0 <= i < cells.len() && (#[trigger] cells[i]).0 == walk.last() && cells[i].1 <= walk.len() - 1
        }),
    decreases walk.len(),
{
    lemma_flood_sound(e, hazards, start, 0x1_0000, k);
    let cells = flooded(e, hazards, start, 0x1_0000, k);
    if walk.len() == 1 {
        assert(cells[0].0 == walk.last());
    } else {
        let n = walk.len() - 1;
        let front = walk.drop_last();
        assert forall|i: int| 1 <= i < front.len() implies #[trigger] is_walk_step(e, hazards, front, i) by {
            assert(is_walk_step(e, hazards, walk, i));
            let d = choose|d: int| 0 <= d < 4 && walk[i] == #[trigger] geometry::stepped(walk[i - 1], d);
            assert(front[i] == geometry::stepped(front[i - 1], d));
        }
        law_reach_is_complete_and_shortest(e, hazards, start, k, front);
        let i = choose|i: int| 0 <= i < cells.len() && (#[trigger] cells[i]).0 == front.last() && cells[i].1 <= front.len() - 1;
        assert(is_walk_step(e, hazards, walk, n));
        let d = choose|d: int| 0 <= d < 4 && walk[n] == #[trigger] geometry::stepped(walk[n - 1], d);
        assert(surveyed(e, hazards, cells, i, d));
        let j = choose|j: int|
            0 <= j < cells.len() && (#[trigger] cells[j]).0 == geometry::stepped(cells[i].0, d) && cells[j].1 <= step_more(
                cells[i].1,
            );
        assert(cells[j].0 == walk.last());
    }
}

/// No cell of the search but its start is a hazard or blocked.
pub proof fn law_reach_avoids_hazards(e: &Engine, hazards: Set<Pos>, start: Pos, k: int, i: int)
    requires
        k >= 0,
        forall|j: int| 0 <= j < k ==> j < (#[trigger] flooded(e, hazards, start, 0x1_0000, j)).len(),
        1 <= i < flooded(e, hazards, start, 0x1_0000, k).len(),
    ensures
        enterable(e, hazards, flooded(e, hazards, start, 0x1_0000, k)[i].0),
{
    lemma_flood_sound(e, hazards, start, 0x1_0000, k);
    assert(grown_from_earlier(e, hazards, flooded(e, hazards, start, 0x1_0000, k), k, i));
}

/// Cells with the number of steps to each, in the order of that number.
pub struct Reachability {
    pub steps: Vec<(Pos, u16)>,
}

impl View for Reachability {
    type V = Seq<(Pos, u16)>;

    open spec fn view(&self) -> Seq<(Pos, u16)> {
        self.steps@
    }
}

/// All cells are well inside the world.
pub open spec fn all_inland(cells: Seq<(Pos, u16)>) -> bool {
    forall|i: int| 0 <= i < cells.len() ==> geometry::inland((#[trigger] cells[i]).0)
}

/// The nearest of the first `n` cells within a distance of a goal.
pub open spec fn nearest_end(cells: Seq<(Pos, u16)>, goal: Pos, dist: int, n: int) -> Option<(Pos, u16)>
    decreases n,
{
    if n <= 0 {
        None
    } else {
        let best = nearest_end(cells, goal, dist, n - 1);
        let here = cells[n - 1];
        if geometry::distance(here.0, goal) <= dist && (best is None || here.1 < (best->0).1) {
            Some(here)
        } else {
            best
        }
    }
}

/// The nearest cell within a distance of a goal.
pub open spec fn end_near(cells: Seq<(Pos, u16)>, goal: Pos, dist: int) -> Option<(Pos, u16)> {
    nearest_end(cells, goal, dist, cells.len() as int)
}

/// The number of steps to within a distance of a goal.
pub open spec fn steps_near(cells: Seq<(Pos, u16)>, goal: Pos, dist: int) -> Option<u16> {
    match end_near(cells, goal, dist) {
        Some(end) => Some(end.1),
        None => None,
    }
}

/// The cell before `cur` on a shortest way, if the list has it; the first
/// direction that leads there counts.
pub open spec fn cell_before(cells: Seq<(Pos, u16)>, cur: Pos, steps: int) -> Option<Pos> {
    let before = |d: int| ((cur.0 - geometry::walk_delta(d).0) as i64, (cur.1 - geometry::walk_delta(d).1) as i64);
    let want = (steps - 1) as u16;
    if cells.contains((before(0), want)) {
        Some(before(0))
    } else if cells.contains((before(1), want)) {
        Some(before(1))
    } else if cells.contains((before(2), want)) {
        Some(before(2))
    } else if cells.contains((before(3), want)) {
        Some(before(3))
    } else {
        None
    }
}

/// A shortest way to a cell that is `steps` steps away.
pub open spec fn way_to(cells: Seq<(Pos, u16)>, cur: Pos, steps: int) -> Seq<Pos>
    decreases steps,
{
    if steps <= 0 {
        Seq::empty().push(cur)
    } else {
        match cell_before(cells, cur, steps) {
            Some(before) => way_to(cells, before, steps - 1).push(cur),
            None => Seq::empty().push(cur),
        }
    }
}

/// The nearest cell of the list: it is in the list and near the goal, and no
/// other such cell is nearer.
pub proof fn law_nearest_end(cells: Seq<(Pos, u16)>, goal: Pos, dist: int, n: int)
    requires
        0 <= n <= cells.len(),
    ensures
        nearest_end(cells, goal, dist, n) is None <==> forall|i: int|
            0 <= i < n ==> geometry::distance((#[trigger] cells[i]).0, goal) > dist,
        nearest_end(cells, goal, dist, n) matches Some(end) ==> {
            &&& exists|i: int| 0 <= i < n && #[trigger] cells[i] == end
            &&& geometry::distance(end.0, goal) <= dist
            &&& forall|i: int|
                0 <= i < n && geometry::distance((#[trigger] cells[i]).0, goal) <= dist ==> end.1 <= cells[i].1
        },
    decreases n,
{
    if n > 0 {
        law_nearest_end(cells, goal, dist, n - 1);
        if nearest_end(cells, goal, dist, n) is Some {
            let end = nearest_end(cells, goal, dist, n)->0;
            if end == cells[n - 1] {
                assert(cells[n - 1] == end);
            }
        } else {
            assert(geometry::distance(cells[n - 1].0, goal) > dist);
        }
    }
}

/// In what a search found, the way to a cell is a walk from the start with as
/// many steps as the search counts.
pub proof fn law_way_is_a_shortest_walk(e: &Engine, hazards: Set<Pos>, start: Pos, k: int, cur: Pos, steps: u16)
    requires
        k >= 0,
        forall|j: int| 0 <= j < k ==> j < (#[trigger] flooded(e, hazards, start, 0x1_0000, j)).len(),
        flooded(e, hazards, start, 0x1_0000, k).len() < 0xffff,
        flooded(e, hazards, start, 0x1_0000, k).contains((cur, steps)),
        forall|i: int| 0 <= i < flooded(e, hazards, start, 0x1_0000, k).len() ==> geometry::in_world(
            (#[trigger] flooded(e, hazards, start, 0x1_0000, k)[i]).0,
        ),
    ensures
        ({
            let way = way_to(flooded(e, hazards, start, 0x1_0000, k), cur, steps as int);
            &&& way.len() == steps + 1
            &&& way[0] == start
            &&& way.last() == cur
            &&& is_walk(e, hazards, way)
        }),
    decreases steps,
{
    lemma_flood_sound(e, hazards, start, 0x1_0000, k);
    let cells = flooded(e, hazards, start, 0x1_0000, k);
    let j = choose|j: int| 0 <= j < cells.len() && cells[j] == (cur, steps);
    let way = way_to(cells, cur, steps as int);
    lemma_steps_below_index(e, hazards, start, k, j);
    if steps == 0 {
        if j > 0 {
            assert(grown_from_earlier(e, hazards, cells, k, j));
        }
        assert(way =~= seq![cur]);
    } else {
        assert(grown_from_earlier(e, hazards, cells, k, j));
        let (i, d) = choose|i: int, d: int| 0 <= i < j && i < k && 0 <= d < 4 && #[trigger] is_step_from(cells, i, d, j);
        lemma_steps_below_index(e, hazards, start, k, i);
        assert(cells[i].1 == steps - 1);
        let back = ((cur.0 - geometry::walk_delta(d).0) as i64, (cur.1 - geometry::walk_delta(d).1) as i64);
        assert(cells[i].0 == back);
        assert(cells[i] == (back, (steps - 1) as u16));
        assert(cells.contains((back, (steps - 1) as u16)));
        assert(d == 0 || d == 1 || d == 2 || d == 3);
        assert(cell_before(cells, cur, steps as int) is Some);
        let before = cell_before(cells, cur, steps as int)->0;
        let m = choose|m: int| 0 <= m < 4 && before == #[trigger] back_step(cur, m) && cells.contains((before, (steps - 1) as u16));
        assert(back_step(cur, 0) == ((cur.0 - 16) as i64, (cur.1 + 8) as i64));
        assert(back_step(cur, 1) == ((cur.0 - 16) as i64, (cur.1 - 8) as i64));
        assert(back_step(cur, 2) == ((cur.0 + 16) as i64, (cur.1 - 8) as i64));
        assert(back_step(cur, 3) == ((cur.0 + 16) as i64, (cur.1 + 8) as i64));
        assert(cells.contains((before, (steps - 1) as u16)));
        assert(geometry::stepped(before, m) == cur);
        law_way_is_a_shortest_walk(e, hazards, start, k, before, (steps - 1) as u16);
        let front = way_to(cells, before, steps - 1);
        assert(way == front.push(cur));
        assert forall|a: int| 1 <= a < way.len() implies #[trigger] is_walk_step(e, hazards, way, a) by {
            if a < front.len() {
                assert(is_walk_step(e, hazards, front, a));
                let b = choose|b: int| 0 <= b < 4 && front[a] == #[trigger] geometry::stepped(front[a - 1], b);
                assert(way[a] == geometry::stepped(way[a - 1], b));
            } else {
                assert(way[a - 1] == before);
                assert(way[a] == geometry::stepped(way[a - 1], m));
            }
        }
    }
}

/// The cell from which a step in direction `d` leads to `p`.
pub open spec fn back_step(p: Pos, d: int) -> Pos {
    ((p.0 - geometry::walk_delta(d).0) as i64, (p.1 - geometry::walk_delta(d).1) as i64)
}

/// A cell is no more steps away than cells stand before it.
proof fn lemma_steps_below_index(e: &Engine, hazards: Set<Pos>, start: Pos, k: int, j: int)
    requires
        k >= 0,
        forall|i: int| 0 <= i < k ==> i < (#[trigger] flooded(e, hazards, start, 0x1_0000, i)).len(),
        0 <= j < flooded(e, hazards, start, 0x1_0000, k).len(),
    ensures
        flooded(e, hazards, start, 0x1_0000, k)[j].1 <= j,
        j >= 1 ==> flooded(e, hazards, start, 0x1_0000, k)[j].1 >= 1,
    decreases j,
{
    lemma_flood_sound(e, hazards, start, 0x1_0000, k);
    let cells = flooded(e, hazards, start, 0x1_0000, k);
    if j > 0 {
        assert(grown_from_earlier(e, hazards, cells, k, j));
        let (i, d) = choose|i: int, d: int| 0 <= i < j && i < k && 0 <= d < 4 && #[trigger] is_step_from(cells, i, d, j);
        lemma_steps_below_index(e, hazards, start, k, i);
    }
}

/// Whether a position is in a list.
pub(crate) fn contains_pos(list: &Vec<Pos>, p: Pos) -> (r: bool)
    ensures
        r == list@.contains(p),
{
    for i in 0..list.len()
        invariant
            forall|k: int| 0 <= k < i ==> list@[k] != p,
    {
        if list[i].0 == p.0 && list[i].1 == p.1 {
            assert(list@[i as int] == p);
            return true;
        }
    }
    false
}

/// Whether a cell is in the list.
fn is_listed(cells: &Vec<(Pos, u16)>, p: Pos) -> (r: bool)
    ensures
        r == listed(cells@, p),
{
    for i in 0..cells.len()
        invariant
            forall|k: int| 0 <= k < i ==> (#[trigger] cells@[k]).0 != p,
    {
        let q: Pos = cells[i].0;
        if q.0 == p.0 && q.1 == p.1 {
            assert(cells@[i as int].0 == p);
            return true;
        }
    }
    false
}

/// Whether an entry is in the list.
fn has_entry(cells: &Vec<(Pos, u16)>, p: Pos, steps: u16) -> (r: bool)
    ensures
        r == cells@.contains((p, steps)),
{
    for i in 0..cells.len()
        invariant
            forall|k: int| 0 <= k < i ==> cells@[k] != (p, steps),
    {
        let c: (Pos, u16) = cells[i];
        if c.0.0 == p.0 && c.0.1 == p.1 && c.1 == steps {
            assert(cells@[i as int] == (p, steps));
            return true;
        }
    }
    false
}

/// Each cell is no farther from the start than its place in the list allows.
pub open spec fn in_reach_of(cells: Seq<(Pos, u16)>, start: Pos) -> bool {
    forall|i: int|
        0 <= i < cells.len() ==> {
            &&& -16 * i <= (#[trigger] cells[i]).0.0 - start.0 <= 16 * i
            &&& -16 * i <= cells[i].0.1 - start.1 <= 16 * i
        }
}

/// The cells around a start, and from how many of them the search looked.
struct Flood {
    cells: Vec<(Pos, u16)>,
    visited: usize,
}

/// Search from a start.
fn flood(engine: &Engine, start: Pos, depth: u32, max_nodes: usize, hazards: &Vec<Pos>) -> (r: Flood)
    requires
        engine.res.wf(),
        geometry::central(start),
        max_nodes <= 0x4000_0000,
    ensures
        r.cells@ == flooded(
            engine,
            hazards@.to_set(),
            start,
            depth as int,
            flood_end(engine, hazards@.to_set(), start, depth as int, max_nodes as int),
        ),
        r.visited == flood_end(engine, hazards@.to_set(), start, depth as int, max_nodes as int),
        r.visited <= r.cells@.len(),
        flood_sound(engine, hazards@.to_set(), start, depth as int, r.visited as int),
        in_reach_of(r.cells@, start),
        r.cells@.len() <= 0x4000_0004,
{
    let mut cells: Vec<(Pos, u16)> = Vec::new();
    cells.push((start, 0u16));
    let mut i: usize = 0;
    proof {
        assert(cells@ =~= flooded(engine, hazards@.to_set(), start, depth as int, 0));
    }
    while i < cells.len() && cells.len() < max_nodes
        invariant
            engine.res.wf(),
            geometry::central(start),
            max_nodes <= 0x4000_0000,
            cells@ == flooded(engine, hazards@.to_set(), start, depth as int, i as int),
            i <= cells@.len() <= 0x4000_0004,
            in_reach_of(cells@, start),
            forall|j: int|
                0 <= j < i ==> !#[trigger] flood_ends(engine, hazards@.to_set(), start, depth as int, max_nodes as int, j),
        decreases max_nodes - i,
    {
        assert(!flood_ends(engine, hazards@.to_set(), start, depth as int, max_nodes as int, i as int));
        let (p, steps): (Pos, u16) = cells[i];
        let ghost before = cells@;
        if (steps as u32) < depth {
            let more: u16 = if steps < 0xffff {
                steps + 1
            } else {
                steps
            };
            for d in 0..4usize
                invariant
                    engine.res.wf(),
                    geometry::central(start),
                    cells@ == looked_around(engine, hazards@.to_set(), before, i as int, d as int),
                    i < before.len(),
                    before.len() <= cells@.len() <= before.len() + d,
                    before.len() < 0x4000_0000,
                    forall|j: int| 0 <= j < before.len() ==> cells@[j] == before[j],
                    in_reach_of(cells@, start),
                    before[i as int] == (p, steps),
                    more == step_more(steps),
            {
                assert(cells@[i as int] == (p, steps));
                let q: Pos = geometry::step_from(p, d);
                let ghost now = cells@;
                if !is_listed(&cells, q) && !contains_pos(hazards, q) && !engine.obstacle_at(q, true, 0, false) {
                    cells.push((q, more));
                }
                assert(cells@ == looked(engine, hazards@.to_set(), now, i as int, d as int));
            }
        }
        assert(cells@ == flooded(engine, hazards@.to_set(), start, depth as int, i + 1));
        i = i + 1;
    }
    proof {
        let d = depth as int;
        let m = max_nodes as int;
        assert(flood_ends(engine, hazards@.to_set(), start, d, m, i as int));
        lemma_flood_end(engine, hazards@.to_set(), start, d, m, i as int);
        assert forall|j: int| 0 <= j < i implies j < (#[trigger] flooded(engine, hazards@.to_set(), start, d, j)).len() by {
            assert(!flood_ends(engine, hazards@.to_set(), start, d, m, j));
        }
        lemma_flood_sound(engine, hazards@.to_set(), start, d, i as int);
    }
    Flood { cells, visited: i }
}

/// The hazards, or none.
pub open spec fn hazards_of(blocked: Option<&Vec<Pos>>) -> Set<Pos> {
    match blocked {
        Some(list) => list@.to_set(),
        None => Set::empty(),
    }
}

/// Everything that can be walked to from `start` without entering one of the
/// `blocked` cells, until so many cells are found.
pub fn compute_reachable(engine: &Engine, start: Pos, max_nodes: usize, blocked: Option<&Vec<Pos>>) -> (r: Reachability)
    requires
        engine.res.wf(),
        geometry::central(start),
        max_nodes <= 0x4000_0000,
    ensures
        r@ == reached(engine, hazards_of(blocked), start, max_nodes as int),
        r.wf(),
        all_inland(r@),
{
    let none: Vec<Pos> = Vec::new();
    assert(none@.to_set() =~= Set::<Pos>::empty());
    let found: Flood = flood(
        engine,
        start,
        0x1_0000,
        max_nodes,
        match blocked {
            Some(list) => list,
            None => &none,
        },
    );
    Reachability { steps: found.cells }
}

/// Whether one of the first `n` cells is on the grid with at least `want` free
/// steps, and the first that is.
pub open spec fn first_free(e: &Engine, cells: Seq<(Pos, u16)>, n: int, want: int) -> Option<Pos>
    decreases n,
{
    if n <= 0 {
        None
    } else {
        match first_free(e, cells, n - 1, want) {
            Some(p) => Some(p),
            None => if on_grid(cells[n - 1].0) && e.free_steps(cells[n - 1].0) >= want {
                Some(cells[n - 1].0)
            } else {
                None
            },
        }
    }
}

/// The first of `n` cells on the grid with two free steps, or with one.
pub open spec fn first_safe(e: &Engine, cells: Seq<(Pos, u16)>, n: int) -> Option<Pos> {
    match first_free(e, cells, n, 2) {
        Some(p) => Some(p),
        None => first_free(e, cells, n, 1),
    }
}

/// A cell to stand on: near the start of a search that was made, or of a
/// short one.
pub open spec fn safe_cell(e: &Engine, start: Pos, cells: Seq<(Pos, u16)>) -> Option<Pos> {
    let n = if cells.len() < 200 { cells.len() as int } else { 200 };
    match first_safe(e, cells, n) {
        Some(p) => Some(p),
        None => {
            let end = flood_end(e, Set::empty(), start, 6, 81);
            first_safe(e, flooded(e, Set::empty(), start, 6, end), end)
        },
    }
}

fn find_first_safe(engine: &Engine, cells: &Vec<(Pos, u16)>, n: usize) -> (r: Option<Pos>)
    requires
        engine.res.wf(),
        n <= cells@.len(),
        all_inland(cells@),
    ensures
        r == first_safe(engine, cells@, n as int),
        r matches Some(p) ==> geometry::inland(p),
{
    let mut best: Option<Pos> = None;
    let mut i: usize = 0;
    while i < n
        invariant
            engine.res.wf(),
            i <= n <= cells@.len(),
            all_inland(cells@),
            best == first_free(engine, cells@, i as int, 1),
            best matches Some(p) ==> geometry::inland(p),
            first_free(engine, cells@, i as int, 2) is None,
        decreases n - i,
    {
        let p: Pos = cells[i].0;
        assert(geometry::inland(cells@[i as int].0));
        if is_iso_grid(p) {
            let free: usize = count_free(engine, p);
            if free >= 2 {
                proof {
                    lemma_first_free(engine, cells@, i + 1, n as int, 2);
                }
                return Some(p);
            }
            if free >= 1 && best.is_none() {
                best = Some(p);
            }
        }
        i = i + 1;
    }
    best
}

/// What is found first stays first.
proof fn lemma_first_free(e: &Engine, cells: Seq<(Pos, u16)>, i: int, n: int, want: int)
    requires
        0 <= i <= n,
        first_free(e, cells, i, want) is Some,
    ensures
        first_free(e, cells, n, want) == first_free(e, cells, i, want),
    decreases n - i,
{
    if i < n {
        lemma_first_free(e, cells, i, n - 1, want);
    }
}

/// A cell to stand on: near the start of a search that was made, or of a
/// short one.
pub fn find_safe_cell(engine: &Engine, start: Pos, reach: &Reachability) -> (r: Option<Pos>)
    requires
        engine.res.wf(),
        geometry::central(start),
        reach.wf(),
        all_inland(reach@),
    ensures
        r == safe_cell(engine, start, reach@),
        r matches Some(p) ==> geometry::inland(p),
{
    let n: usize = if reach.steps.len() < 200 {
        reach.steps.len()
    } else {
        200
    };
    let near: Option<Pos> = find_first_safe(engine, &reach.steps, n);
    if near.is_some() {
        return near;
    }
    let none: Vec<Pos> = Vec::new();
    assert(none@.to_set() =~= Set::<Pos>::empty());
    let found: Flood = flood(engine, start, 6, 81, &none);
    find_first_safe(engine, &found.cells, found.visited)
}

impl Reachability {
    /// The cells are in the order of their steps.
    pub open spec fn wf(&self) -> bool {
        forall|i: int, j: int| 0 <= i <= j < self@.len() ==> (#[trigger] self@[i]).1 <= (#[trigger] self@[j]).1
    }

    /// Whether a cell within a distance of a goal can be reached.
    pub fn can_reach(&self, goal: Pos, goal_dist: i64) -> (b: bool)
        requires
            all_inland(self@),
            geometry::in_world(goal),
        ensures
            b == (steps_near(self@, goal, goal_dist as int) is Some),
    {
        self.steps_to(goal, goal_dist).is_some()
    }

    /// The number of steps to within a distance of a goal.
    pub fn steps_to(&self, goal: Pos, goal_dist: i64) -> (r: Option<u16>)
        requires
            all_inland(self@),
            geometry::in_world(goal),
        ensures
            r == steps_near(self@, goal, goal_dist as int),
    {
        match self.best_end(goal, goal_dist) {
            Some(end) => Some(end.1),
            None => None,
        }
    }

    /// The nearest cell within a distance of a goal.
    pub fn best_end(&self, goal: Pos, goal_dist: i64) -> (r: Option<(Pos, u16)>)
        requires
            all_inland(self@),
            geometry::in_world(goal),
        ensures
            r == end_near(self@, goal, goal_dist as int),
    {
        let mut best: Option<(Pos, u16)> = None;
        for i in 0..self.steps.len()
            invariant
                all_inland(self@),
                geometry::in_world(goal),
                best == nearest_end(self@, goal, goal_dist as int, i as int),
        {
            let here: (Pos, u16) = self.steps[i];
            assert(geometry::inland(self@[i as int].0));
            if geometry::metric(here.0, goal) <= goal_dist {
                best = match best {
                    None => Some(here),
                    Some(b) => if here.1 < b.1 {
                        Some(here)
                    } else {
                        Some(b)
                    },
                };
            }
        }
        best
    }

    /// A shortest way to a cell within a distance of a goal, from the start.
    pub fn path_to(&self, goal: Pos, goal_dist: i64) -> (r: Option<Vec<Pos>>)
        requires
            all_inland(self@),
            geometry::in_world(goal),
        ensures
            match end_near(self@, goal, goal_dist as int) {
                Some(end) => r matches Some(way) && way@ == way_to(self@, end.0, end.1 as int),
                None => r is None,
            },
    {
        let end: (Pos, u16) = match self.best_end(goal, goal_dist) {
            Some(end) => end,
            None => {
                return None;
            },
        };
        proof {
            law_nearest_end(self@, goal, goal_dist as int, self@.len() as int);
        }
        Some(self.way(end.0, end.1))
    }

    fn way(&self, cur: Pos, need: u16) -> (way: Vec<Pos>)
        requires
            all_inland(self@),
            geometry::inland(cur),
        ensures
            way@ == way_to(self@, cur, need as int),
        decreases need,
    {
        if need > 0 {
            let mut d: usize = 0;
            while d < 4
                invariant
                    d <= 4,
                    need > 0,
                    all_inland(self@),
                    geometry::inland(cur),
                    forall|k: int| 0 <= k < d ==> !self@.contains((#[trigger] back_step(cur, k), (need - 1) as u16)),
                decreases 4 - d,
            {
                let (dx, dy): (i64, i64) = geometry::walk_step(d);
                let before: Pos = (cur.0 - dx, cur.1 - dy);
                assert(before == back_step(cur, d as int));
                if has_entry(&self.steps, before, need - 1) {
                    proof {
                        lemma_cell_before(self@, cur, need as int, d as int);
                        let i = choose|i: int| 0 <= i < self@.len() && self@[i] == (before, (need - 1) as u16);
                        assert(geometry::inland(self@[i].0));
                    }
                    let mut way: Vec<Pos> = self.way(before, need - 1);
                    way.push(cur);
                    return way;
                }
                d = d + 1;
            }
            proof {
                assert(!self@.contains((back_step(cur, 0), (need - 1) as u16)));
                assert(!self@.contains((back_step(cur, 1), (need - 1) as u16)));
                assert(!self@.contains((back_step(cur, 2), (need - 1) as u16)));
                assert(!self@.contains((back_step(cur, 3), (need - 1) as u16)));
                assert(cell_before(self@, cur, need as int) is None);
            }
        }
        let mut way: Vec<Pos> = Vec::new();
        way.push(cur);
        assert(way@ =~= Seq::empty().push(cur));
        way
    }
}

proof fn lemma_cell_before(cells: Seq<(Pos, u16)>, cur: Pos, steps: int, d: int)
    requires
        0 <= d < 4,
        cells.contains((back_step(cur, d), (steps - 1) as u16)),
        forall|k: int| 0 <= k < d ==> !cells.contains((#[trigger] back_step(cur, k), (steps - 1) as u16)),
    ensures
        cell_before(cells, cur, steps) == Some(back_step(cur, d)),
{
    assert(0 < d ==> !cells.contains((back_step(cur, 0), (steps - 1) as u16)));
    assert(1 < d ==> !cells.contains((back_step(cur, 1), (steps - 1) as u16)));
    assert(2 < d ==> !cells.contains((back_step(cur, 2), (steps - 1) as u16)));
}

/// A search comes to an end.
proof fn lemma_flood_comes_to_an_end(e: &Engine, hazards: Set<Pos>, start: Pos, depth: int, max: int, j: int)
    requires
        0 <= j,
        forall|i: int| 0 <= i < j ==> !#[trigger] flood_ends(e, hazards, start, depth, max, i),
    ensures
        flood_ends_at(e, hazards, start, depth, max, flood_end(e, hazards, start, depth, max)),
    decreases max - j,
{
    if flood_ends(e, hazards, start, depth, max, j) {
        assert(flood_ends_at(e, hazards, start, depth, max, j));
    } else {
        lemma_flood_comes_to_an_end(e, hazards, start, depth, max, j + 1);
    }
}

/// The cells found by a search: the start comes first, no cell comes twice,
/// and those that are fewer steps away come earlier. Every other cell is one
/// step from an earlier one, counts one step more than it, is no hazard, and
/// has no obstacle. The search stops once it has found enough.
pub proof fn law_reached_cells(e: &Engine, hazards: Set<Pos>, start: Pos, max: int, i: int, j: int)
    requires
        1 <= max < 0xffff - 3,
        0 <= i < j < reached(e, hazards, start, max).len(),
    ensures
        ({
            let cells = reached(e, hazards, start, max);
            &&& cells[0] == (start, 0u16)
            &&& cells.len() <= max + 3
            &&& cells[i].0 != cells[j].0
            &&& cells[i].1 <= cells[j].1
            &&& !hazards.contains(cells[j].0)
            &&& !e.obstacle(cells[j].0, true, 0, false)
            &&& exists|k: int, d: int|
                0 <= k < j && 0 <= d < 4 && cells[j].0 == #[trigger] geometry::stepped((#[trigger] cells[k]).0, d)
                    && cells[j].1 == cells[k].1 + 1
        }),
{
    lemma_flood_comes_to_an_end(e, hazards, start, 0x1_0000, max, 0);
    let end = flood_end(e, hazards, start, 0x1_0000, max);
    assert forall|n: int| 0 <= n < end implies n < (#[trigger] flooded(e, hazards, start, 0x1_0000, n)).len() by {
        assert(!flood_ends(e, hazards, start, 0x1_0000, max, n));
    }
    lemma_flood_sound(e, hazards, start, 0x1_0000, end);
    let cells = reached(e, hazards, start, max);
    lemma_reached_size(e, hazards, start, max);
    assert(grown_from_earlier(e, hazards, cells, end, j));
    let (k, d) = choose|k: int, d: int| 0 <= k < j && k < end && 0 <= d < 4 && #[trigger] is_step_from(cells, k, d, j);
    lemma_steps_below_index(e, hazards, start, end, k);
    assert(cells[j].0 == geometry::stepped(cells[k].0, d));
}

proof fn lemma_reached_size(e: &Engine, hazards: Set<Pos>, start: Pos, max: int)
    requires
        max >= 1,
    ensures
        reached(e, hazards, start, max).len() <= max + 3,
{
    lemma_flood_comes_to_an_end(e, hazards, start, 0x1_0000, max, 0);
    let end = flood_end(e, hazards, start, 0x1_0000, max);
    if end > 0 {
        assert(!flood_ends(e, hazards, start, 0x1_0000, max, end - 1));
        let before = flooded(e, hazards, start, 0x1_0000, end - 1);
        lemma_looks_add_little(e, hazards, before, end - 1, 4);
    }
}

proof fn lemma_looks_add_little(e: &Engine, hazards: Set<Pos>, cells: Seq<(Pos, u16)>, i: int, n: int)
    requires
        n >= 0,
    ensures
        looked_around(e, hazards, cells, i, n).len() <= cells.len() + n,
    decreases n,
{
    if n > 0 {
        lemma_looks_add_little(e, hazards, cells, i, n - 1);
    }
}

/// A search that did not stop for having found enough finds everything: the end
/// of every walk from the start, over cells that are no hazards and have no
/// obstacle, is among the cells, with no more steps than the walk has.
pub proof fn law_reached_is_everything(e: &Engine, hazards: Set<Pos>, start: Pos, max: int, walk: Seq<Pos>)
    requires
        reached(e, hazards, start, max).len() < max,
        walk.len() >= 1,
        walk[0] == start,
        forall|i: int|
            1 <= i < walk.len() ==> {
                &&& !hazards.contains(#[trigger] walk[i])
                &&& !e.obstacle(walk[i], true, 0, false)
                &&& exists|d: int| 0 <= d < 4 && walk[i] == #[trigger] geometry::stepped(walk[i - 1], d)
            },
    ensures
        exists|i: int|
            {
                &&& 0 <= i < reached(e, hazards, start, max).len()
                &&& (#[trigger] reached(e, hazards, start, max)[i]).0 == walk.last()
                &&& reached(e, hazards, start, max)[i].1 <= walk.len() - 1
            },
{
    lemma_flood_comes_to_an_end(e, hazards, start, 0x1_0000, max, 0);
    let end = flood_end(e, hazards, start, 0x1_0000, max);
    assert forall|n: int| 0 <= n < end implies n < (#[trigger] flooded(e, hazards, start, 0x1_0000, n)).len() by {
        assert(!flood_ends(e, hazards, start, 0x1_0000, max, n));
    }
    assert forall|i: int| 1 <= i < walk.len() implies #[trigger] is_walk_step(e, hazards, walk, i) by {
        assert(!hazards.contains(walk[i]));
    }
    law_reach_is_complete_and_shortest(e, hazards, start, end, walk);
}

/// The steps to within a distance of a goal are those of the nearest cell
/// there, the earliest of them in the list; without one there is no way.
pub proof fn law_steps_near(cells: Seq<(Pos, u16)>, goal: Pos, dist: int)
    ensures
        steps_near(cells, goal, dist) is None <==> forall|i: int|
            0 <= i < cells.len() ==> vstd::math::abs((#[trigger] cells[i]).0.0 - goal.0) + 2 * vstd::math::abs(
                cells[i].0.1 - goal.1,
            ) > dist,
        steps_near(cells, goal, dist) matches Some(s) ==> exists|i: int|
            {
                &&& 0 <= i < cells.len()
                &&& #[trigger] cells[i] == ((end_near(cells, goal, dist)->0).0, s)
                &&& vstd::math::abs(cells[i].0.0 - goal.0) + 2 * vstd::math::abs(cells[i].0.1 - goal.1) <= dist
                &&& forall|j: int|
                    0 <= j < i && vstd::math::abs((#[trigger] cells[j]).0.0 - goal.0) + 2 * vstd::math::abs(
                        cells[j].0.1 - goal.1,
                    ) <= dist ==> s < cells[j].1
                &&& forall|j: int|
                    0 <= j < cells.len() && vstd::math::abs((#[trigger] cells[j]).0.0 - goal.0) + 2 * vstd::math::abs(
                        cells[j].0.1 - goal.1,
                    ) <= dist ==> s <= cells[j].1
            },
{
    lemma_steps_near(cells, goal, dist, cells.len() as int);
    assert forall|i: int| #[trigger] near(cells[i].0, goal, dist) <==> vstd::math::abs(cells[i].0.0 - goal.0) + 2
        * vstd::math::abs(cells[i].0.1 - goal.1) <= dist by {}
    if steps_near(cells, goal, dist) is Some {
        let end = nearest_end(cells, goal, dist, cells.len() as int)->0;
        let i = choose|i: int|
            {
                &&& 0 <= i < cells.len()
                &&& #[trigger] cells[i] == end
                &&& forall|j: int| 0 <= j < i && near((#[trigger] cells[j]).0, goal, dist) ==> end.1 < cells[j].1
            };
        assert(cells[i] == ((end_near(cells, goal, dist)->0).0, steps_near(cells, goal, dist)->0));
        assert(near(cells[i].0, goal, dist));
        assert forall|j: int|
            0 <= j < i && vstd::math::abs((#[trigger] cells[j]).0.0 - goal.0) + 2 * vstd::math::abs(cells[j].0.1 - goal.1) <= dist implies end.1
            < cells[j].1 by {
            assert(near(cells[j].0, goal, dist));
        }
        assert forall|j: int|
            0 <= j < cells.len() && vstd::math::abs((#[trigger] cells[j]).0.0 - goal.0) + 2 * vstd::math::abs(cells[j].0.1 - goal.1) <= dist implies end.1
            <= cells[j].1 by {
            assert(near(cells[j].0, goal, dist));
        }
    } else {
        assert forall|i: int|
            0 <= i < cells.len() implies vstd::math::abs((#[trigger] cells[i]).0.0 - goal.0) + 2 * vstd::math::abs(cells[i].0.1 - goal.1)
            > dist by {
            assert(!near(cells[i].0, goal, dist));
        }
    }
}

/// The position is within a distance of a goal.
pub open spec fn near(p: Pos, goal: Pos, dist: int) -> bool {
    geometry::distance(p, goal) <= dist
}

proof fn lemma_steps_near(cells: Seq<(Pos, u16)>, goal: Pos, dist: int, n: int)
    requires
        0 <= n <= cells.len(),
    ensures
        nearest_end(cells, goal, dist, n) is None <==> forall|i: int|
            0 <= i < n ==> !near((#[trigger] cells[i]).0, goal, dist),
        nearest_end(cells, goal, dist, n) matches Some(end) ==> {
            &&& near(end.0, goal, dist)
            &&& exists|i: int|
                {
                    &&& 0 <= i < n
                    &&& #[trigger] cells[i] == end
                    &&& forall|j: int| 0 <= j < i && near((#[trigger] cells[j]).0, goal, dist) ==> end.1 < cells[j].1
                }
            &&& forall|i: int| 0 <= i < n && near((#[trigger] cells[i]).0, goal, dist) ==> end.1 <= cells[i].1
        },
    decreases n,
{
    if n > 0 {
        lemma_steps_near(cells, goal, dist, n - 1);
        let best = nearest_end(cells, goal, dist, n - 1);
        let here = cells[n - 1];
        if near(here.0, goal, dist) && (best is None || here.1 < (best->0).1) {
            assert(cells[n - 1] == here);
            assert forall|j: int| 0 <= j < n - 1 && near((#[trigger] cells[j]).0, goal, dist) implies here.1 < cells[j].1 by {}
        } else if best is Some {
            let i = choose|i: int|
                {
                    &&& 0 <= i < n - 1
                    &&& #[trigger] cells[i] == best->0
                    &&& forall|j: int| 0 <= j < i && near((#[trigger] cells[j]).0, goal, dist) ==> (best->0).1 < cells[j].1
                };
            assert(cells[i] == best->0);
        } else {
            assert(!near(cells[n - 1].0, goal, dist));
        }
    }
}

/// The party can step up, right, down or left where no obstacle stands half a
/// tile that way.
pub proof fn law_steps_go_askew(e: &Engine, p: Pos)
    requires
        geometry::in_world(p),
    ensures
        e.can_step(p, 0) <==> !e.obstacle(((p.0 + 16) as i64, (p.1 - 8) as i64), true, 0, true),
        e.can_step(p, 1) <==> !e.obstacle(((p.0 + 16) as i64, (p.1 + 8) as i64), true, 0, true),
        e.can_step(p, 2) <==> !e.obstacle(((p.0 - 16) as i64, (p.1 + 8) as i64), true, 0, true),
        e.can_step(p, 3) <==> !e.obstacle(((p.0 - 16) as i64, (p.1 - 8) as i64), true, 0, true),
        e.free_steps(p) == 0 <==> !e.can_step(p, 0) && !e.can_step(p, 1) && !e.can_step(p, 2) && !e.can_step(p, 3),
        e.free_steps(p) == 4 <==> e.can_step(p, 0) && e.can_step(p, 1) && e.can_step(p, 2) && e.can_step(p, 3),
        e.free_steps(p) == 1 ==> !(e.can_step(p, 0) && e.can_step(p, 1)),
        0 <= e.free_steps(p) <= 4,
{
}

/// The first of the nearest 200 cells that is on the walking grid and leaves
/// two ways is the one to stand on. If none does, it is the first that leaves
/// one way.
pub proof fn law_safe_cell_is_first(e: &Engine, start: Pos, cells: Seq<(Pos, u16)>, i: int)
    requires
        0 <= i < cells.len(),
        i < 200,
        cells[i].0.0 % 16 == 0,
        cells[i].0.1 % 8 == 0,
    ensures
        e.free_steps(cells[i].0) >= 2 && (forall|j: int|
            0 <= j < i ==> (#[trigger] cells[j]).0.0 % 16 != 0 || cells[j].0.1 % 8 != 0 || e.free_steps(cells[j].0) < 2)
            ==> safe_cell(e, start, cells) == Some(cells[i].0),
        e.free_steps(cells[i].0) == 1 && (forall|j: int|
            0 <= j < 200 && j < cells.len() ==> (#[trigger] cells[j]).0.0 % 16 != 0 || cells[j].0.1 % 8 != 0 || e.free_steps(
                cells[j].0,
            ) < 2) && (forall|j: int|
            0 <= j < i ==> (#[trigger] cells[j]).0.0 % 16 != 0 || cells[j].0.1 % 8 != 0 || e.free_steps(cells[j].0) < 1)
            ==> safe_cell(e, start, cells) == Some(cells[i].0),
{
    let n: int = if cells.len() < 200 { cells.len() as int } else { 200 };
    if e.free_steps(cells[i].0) >= 2 && (forall|j: int|
        0 <= j < i ==> (#[trigger] cells[j]).0.0 % 16 != 0 || cells[j].0.1 % 8 != 0 || e.free_steps(cells[j].0) < 2) {
        lemma_none_free(e, cells, i, 2);
        lemma_first_free(e, cells, i + 1, n, 2);
    }
    if e.free_steps(cells[i].0) == 1 && (forall|j: int|
        0 <= j < 200 && j < cells.len() ==> (#[trigger] cells[j]).0.0 % 16 != 0 || cells[j].0.1 % 8 != 0 || e.free_steps(
            cells[j].0,
        ) < 2) && (forall|j: int|
        0 <= j < i ==> (#[trigger] cells[j]).0.0 % 16 != 0 || cells[j].0.1 % 8 != 0 || e.free_steps(cells[j].0) < 1) {
        lemma_none_free(e, cells, n, 2);
        lemma_none_free(e, cells, i, 1);
        lemma_first_free(e, cells, i + 1, n, 1);
    }
}

proof fn lemma_none_free(e: &Engine, cells: Seq<(Pos, u16)>, n: int, want: int)
    requires
        0 <= n <= cells.len(),
        forall|j: int|
            0 <= j < n ==> (#[trigger] cells[j]).0.0 % 16 != 0 || cells[j].0.1 % 8 != 0 || e.free_steps(cells[j].0) < want,
    ensures
        first_free(e, cells, n, want) is None,
    decreases n,
{
    if n > 0 {
        lemma_none_free(e, cells, n - 1, want);
        assert(cells[n - 1].0.0 % 16 != 0 || cells[n - 1].0.1 % 8 != 0 || e.free_steps(cells[n - 1].0) < want);
    }
}

/// A cell to stand on is on the walking grid and leaves a way.
pub proof fn law_safe_cell_leaves_a_way(e: &Engine, start: Pos, cells: Seq<(Pos, u16)>)
    ensures
        safe_cell(e, start, cells) matches Some(p) ==> p.0 % 16 == 0 && p.1 % 8 == 0 && e.free_steps(p) >= 1,
{
    let n: int = if cells.len() < 200 { cells.len() as int } else { 200 };
    lemma_free_leaves_a_way(e, cells, n, 2);
    lemma_free_leaves_a_way(e, cells, n, 1);
    let end = flood_end(e, Set::empty(), start, 6, 81);
    lemma_free_leaves_a_way(e, flooded(e, Set::empty(), start, 6, end), end, 2);
    lemma_free_leaves_a_way(e, flooded(e, Set::empty(), start, 6, end), end, 1);
}

proof fn lemma_free_leaves_a_way(e: &Engine, cells: Seq<(Pos, u16)>, n: int, want: int)
    ensures
        first_free(e, cells, n, want) matches Some(p) ==> p.0 % 16 == 0 && p.1 % 8 == 0 && e.free_steps(p) >= want,
    decreases n,
{
    if n > 0 {
        lemma_free_leaves_a_way(e, cells, n - 1, want);
    }
}

/// No position of the walking grid is nearer than the nearest one: not across,
/// and not down.
pub proof fn law_grid_snap_is_nearest(p: Pos, q: Pos)
    requires
        geometry::in_world(p),
        q.0 % 16 == 0,
        q.1 % 8 == 0,
    ensures
        grid_snap(p).0 % 16 == 0 && grid_snap(p).1 % 8 == 0,
        vstd::math::abs(grid_snap(p).0 - p.0) <= vstd::math::abs(q.0 - p.0),
        vstd::math::abs(grid_snap(p).1 - p.1) <= vstd::math::abs(q.1 - p.1),
{
    let g = grid_snap(p);
    assert(q.0 as int == 16 * (q.0 as int / 16));
    assert(q.1 as int == 8 * (q.1 as int / 8));
}

/// Every direction is either free or has an obstacle half a tile that way.
pub proof fn law_free_steps_are_counted(e: &Engine, p: Pos)
    requires
        geometry::in_world(p),
    ensures
        e.free_steps(p) == 4 - (if e.obstacle(((p.0 + 16) as i64, (p.1 - 8) as i64), true, 0, true) { 1int } else { 0 }) - (
        if e.obstacle(((p.0 + 16) as i64, (p.1 + 8) as i64), true, 0, true) { 1int } else { 0 }) - (if e.obstacle(
            ((p.0 - 16) as i64, (p.1 + 8) as i64),
            true,
            0,
            true,
        ) { 1int } else { 0 }) - (if e.obstacle(((p.0 - 16) as i64, (p.1 - 8) as i64), true, 0, true) { 1int } else { 0 }),
{
}

} // verus!
