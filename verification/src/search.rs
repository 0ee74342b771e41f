//! Searching: what the party reaches by looking where it faces, and where to
//! stand for it.

use vstd::prelude::*;

use crate::engine::Engine;
use crate::geometry;
use crate::geometry::Pos;
use crate::walk;
use crate::zones;

verus! {

/// The half-tile that a position lies on, as searching counts it.
pub open spec fn search_tile(p: Pos) -> (int, int, bool) {
    (geometry::tdiv(p.0 as int, 32), geometry::tdiv(p.1 as int, 16), p.0 % 32 != 0)
}

/// How far searching in a direction goes with each step.
pub open spec fn facing_step(direction: int) -> (int, int) {
    (
        if direction == 2 || direction == 3 { 16 } else { -16 },
        if direction == 3 || direction == 0 { 8 } else { -8 },
    )
}

/// Position `i` of the thirteen that searching looks at: where the party
/// stands, and four times the three positions in front.
pub open spec fn searched(p: Pos, direction: int, i: int) -> Pos {
    let (dx, dy) = facing_step(direction);
    let k = (i - 1) / 3;
    let r = (i - 1) % 3;
    if i == 0 {
        p
    } else if r == 0 {
        ((p.0 + k * dx + dx) as i64, (p.1 + k * dy + dy) as i64)
    } else if r == 1 {
        ((p.0 + k * dx) as i64, (p.1 + k * dy + 2 * dy) as i64)
    } else {
        ((p.0 + k * dx + 2 * dx) as i64, (p.1 + k * dy) as i64)
    }
}

/// Searching from a position in a direction finds an event object.
pub open spec fn finds(p: Pos, event: Pos, mode: u16, direction: int) -> bool {
    exists|i: int|
        0 <= i < 13 && i < mode * 6 - 4 && search_tile(#[trigger] searched(p, direction, i)) == search_tile(event)
}

/// The half-tile that a position lies on, as searching counts it.
pub fn tile_of(pos: Pos) -> (t: (i64, i64, bool))
    ensures
        (t.0 as int, t.1 as int, t.2) == search_tile(pos),
{
    (pos.0 / 32, pos.1 / 16, pos.0 % 32 != 0)
}

/// How far searching in a direction goes with each step.
pub fn dir_step_offsets(direction: u16) -> (d: (i64, i64))
    ensures
        d.0 == facing_step(direction as int).0,
        d.1 == facing_step(direction as int).1,
{
    (
        if direction == 2 || direction == 3 {
            16
        } else {
            -16
        },
        if direction == 3 || direction == 0 {
            8
        } else {
            -8
        },
    )
}

/// The positions that searching looks at.
pub fn search_range(position: Pos, direction: u16) -> (range: [Pos; 13])
    requires
        geometry::in_world(position),
    ensures
        forall|i: int| 0 <= i < 13 ==> #[trigger] range@[i] == searched(position, direction as int, i),
{
    let (dx, dy): (i64, i64) = dir_step_offsets(direction);
    let mut range: [Pos; 13] = [position; 13];
    for k in 0..4usize
        invariant
            geometry::in_world(position),
            dx == facing_step(direction as int).0,
            dy == facing_step(direction as int).1,
            forall|i: int| 0 <= i < 3 * k + 1 ==> #[trigger] range@[i] == searched(position, direction as int, i),
    {
        let ghost done = range@;
        let x: i64 = position.0 + k as i64 * dx;
        let y: i64 = position.1 + k as i64 * dy;
        range[k * 3 + 1] = (x + dx, y + dy);
        range[k * 3 + 2] = (x, y + dy * 2);
        range[k * 3 + 3] = (x + 2 * dx, y);
        assert forall|i: int| 0 <= i < 3 * (k + 1) + 1 implies #[trigger] range@[i] == searched(
            position,
            direction as int,
            i,
        ) by {
            if i < 3 * k + 1 {
                assert(range@[i] == done[i]);
            } else {
                assert((i - 1) / 3 == k && (i - 1) % 3 == i - 1 - 3 * k);
            }
        }
    }
    range
}

fn search_hits(p: Pos, event: Pos, mode: u16, direction: u16) -> (b: bool)
    requires
        geometry::in_world(p),
        1 <= mode < 4,
    ensures
        b == finds(p, event, mode, direction as int),
{
    let range: [Pos; 13] = search_range(p, direction);
    let target: (i64, i64, bool) = tile_of(event);
    let limit: usize = mode as usize * 6 - 4;
    let mut i: usize = 0;
    while i < 13 && i < limit
        invariant
            i <= 13,
            limit == mode * 6 - 4,
            (target.0 as int, target.1 as int, target.2) == search_tile(event),
            forall|k: int| 0 <= k < 13 ==> #[trigger] range@[k] == searched(p, direction as int, k),
            forall|k: int| 0 <= k < i ==> search_tile(#[trigger] searched(p, direction as int, k)) != search_tile(event),
        decreases 13 - i,
    {
        let t: (i64, i64, bool) = tile_of(range[i]);
        if t.0 == target.0 && t.1 == target.1 && t.2 == target.2 {
            assert(search_tile(searched(p, direction as int, i as int)) == search_tile(event));
            return true;
        }
        i = i + 1;
    }
    false
}

/// The name of the key for walking direction `i`.
pub open spec fn walk_key(i: int) -> Seq<char> {
    if i == 0 {
        "up"@
    } else if i == 1 {
        "right"@
    } else if i == 2 {
        "down"@
    } else {
        "left"@
    }
}

/// The name of the key for walking direction `i`.
pub fn walk_name(i: usize) -> (s: &'static str)
    ensures
        s@ == walk_key(i as int),
{
    if i == 0 {
        "up"
    } else if i == 1 {
        "right"
    } else if i == 2 {
        "down"
    } else {
        "left"
    }
}

/// The name of the key for a direction that the party faces.
pub open spec fn facing_key(dir: int) -> Seq<char> {
    let d = dir % 4;
    if d == 0 {
        "down"@
    } else if d == 1 {
        "left"@
    } else if d == 2 {
        "up"@
    } else {
        "right"@
    }
}

/// The name of the key for a direction that the party faces.
pub fn dir_to_key(dir: u16) -> (s: &'static str)
    ensures
        s@ == facing_key(dir as int),
{
    let d: u16 = dir % 4;
    if d == 0 {
        "down"
    } else if d == 1 {
        "left"
    } else if d == 2 {
        "up"
    } else {
        "right"
    }
}

/// The first of `n` walking directions that leads nearest to a target.
pub open spec fn nearest_step(p: Pos, target: Pos, n: int) -> int
    decreases n,
{
    if n <= 1 {
        0
    } else {
        let best = nearest_step(p, target, n - 1);
        if geometry::distance(geometry::stepped(p, n - 1), target) < geometry::distance(
            geometry::stepped(p, best),
            target,
        ) {
            n - 1
        } else {
            best
        }
    }
}

/// The walking direction that leads nearest to a target; the first one for
/// who is there.
pub open spec fn toward(p: Pos, target: Pos) -> int {
    if p == target {
        0
    } else {
        nearest_step(p, target, 4)
    }
}

/// The walking direction that leads nearest to a target.
pub fn approach_step(player: Pos, target: Pos) -> (i: usize)
    requires
        geometry::inland(player),
        geometry::in_world(target),
    ensures
        i == toward(player, target),
        i < 4,
{
    if geometry::metric(player, target) == 0 {
        return 0;
    }
    let mut best: usize = 0;
    let mut best_dist: i64 = geometry::metric(geometry::step_from(player, 0), target);
    let mut i: usize = 1;
    while i < 4
        invariant
            geometry::inland(player),
            geometry::in_world(target),
            1 <= i <= 4,
            best < i,
            best == nearest_step(player, target, i as int),
            best_dist == geometry::distance(geometry::stepped(player, best as int), target),
        decreases 4 - i,
    {
        let dist: i64 = geometry::metric(geometry::step_from(player, i), target);
        if dist < best_dist {
            best_dist = dist;
            best = i;
        }
        i = i + 1;
    }
    best
}

/// The key for the walking direction that leads nearest to a target.
pub fn approach_face(player: Pos, target: Pos) -> (s: &'static str)
    requires
        geometry::inland(player),
        geometry::in_world(target),
    ensures
        s@ == walk_key(toward(player, target)),
{
    walk_name(approach_step(player, target))
}

/// No step leads nearer to a target than the one chosen, and where the target
/// is at least a step away both ways, the step leads nearer.
pub proof fn law_approach_leads_nearest(p: Pos, target: Pos, d: int)
    requires
        geometry::inland(p),
        geometry::inland(target),
        p != target,
        0 <= d < 4,
    ensures
        0 <= toward(p, target) < 4,
        geometry::distance(geometry::stepped(p, toward(p, target)), target) <= geometry::distance(
            geometry::stepped(p, d),
            target,
        ),
        geometry::abs(target.0 - p.0) >= 16 && geometry::abs(target.1 - p.1) >= 8 ==> geometry::distance(
            geometry::stepped(p, toward(p, target)),
            target,
        ) == geometry::distance(p, target) - 32,
{
    reveal_with_fuel(nearest_step, 5);
}

/// The directions in the order in which they are tried, starting with where
/// the party faces.
pub open spec fn tried(party_dir: int, k: int) -> int {
    (party_dir + k) % 4
}

/// The first of `n` directions in which searching finds an event object.
pub open spec fn finding_direction(p: Pos, event: Pos, mode: u16, party_dir: int, n: int) -> Option<int>
    decreases n,
{
    if n <= 0 {
        None
    } else {
        match finding_direction(p, event, mode, party_dir, n - 1) {
            Some(d) => Some(d),
            None => if finds(p, event, mode, tried(party_dir, n - 1)) {
                Some(tried(party_dir, n - 1))
            } else {
                None
            },
        }
    }
}

/// The event object has to be searched.
pub open spec fn is_searched(mode: u16) -> bool {
    1 <= mode < 4
}

/// What searching from a position tells of an event object.
#[derive(Clone, Copy, Debug, PartialEq, Eq, Structural)]
pub struct SearchInfo {
    /// Searching where the party faces finds it.
    pub can_now: bool,
    /// Searching in some direction finds it.
    pub in_range: bool,
    /// The direction to face, if there is one.
    pub face: Option<u16>,
    /// The walking direction that leads nearest to it.
    pub approach: usize,
}

/// What searching from a position tells of an event object.
pub open spec fn search_facts(p: Pos, event: Pos, mode: u16, party_dir: u16) -> SearchInfo {
    let face = if is_searched(mode) { finding_direction(p, event, mode, party_dir as int, 4) } else { None };
    SearchInfo {
        can_now: is_searched(mode) && finds(p, event, mode, party_dir as int % 4),
        in_range: face is Some,
        face: match face {
            Some(d) => Some(d as u16),
            None => None,
        },
        approach: toward(p, event) as usize,
    }
}

/// What searching from a position tells of an event object.
pub fn search_info(player: Pos, event: Pos, mode: u16, party_dir: u16) -> (r: SearchInfo)
    requires
        geometry::inland(player),
        geometry::in_world(event),
    ensures
        r == search_facts(player, event, mode, party_dir),
{
    let approach: usize = approach_step(player, event);
    if mode == 0 || mode >= 4 {
        return SearchInfo { can_now: false, in_range: false, face: None, approach };
    }
    let mut face: Option<u16> = None;
    let mut now: bool = false;
    let mut k: u32 = 0;
    while k < 4
        invariant
            geometry::inland(player),
            1 <= mode < 4,
            k <= 4,
            match finding_direction(player, event, mode, party_dir as int, k as int) {
                Some(d) => face matches Some(f) && f == d,
                None => face is None,
            },
            now == (k > 0 && finds(player, event, mode, party_dir as int % 4)),
        decreases 4 - k,
    {
        let d: u16 = ((party_dir as u32 + k) % 4) as u16;
        if search_hits(player, event, mode, d) {
            if face.is_none() {
                face = Some(d);
            }
            if k == 0 {
                now = true;
            }
        }
        k = k + 1;
    }
    SearchInfo { can_now: now, in_range: face.is_some(), face, approach }
}

/// A party that finds something where it faces is in range of it.
pub proof fn law_found_is_in_range(p: Pos, event: Pos, mode: u16, party_dir: u16)
    ensures
        search_facts(p, event, mode, party_dir).can_now ==> {
            &&& search_facts(p, event, mode, party_dir).in_range
            &&& search_facts(p, event, mode, party_dir).face == Some((party_dir % 4) as u16)
        },
        !is_searched(mode) ==> !search_facts(p, event, mode, party_dir).in_range,
{
    reveal_with_fuel(finding_direction, 5);
}

/// Position number `n` that is tried to search an event object from: up to
/// five steps away in a straight line, both ways, and then two different
/// steps away.
pub open spec fn candidate(event: Pos, n: int) -> Pos {
    if n < 40 {
        let (dx, dy) = geometry::walk_delta(n / 10);
        let k = (n % 10) / 2 + 1;
        let s = if n % 2 == 0 { k } else { -k };
        ((event.0 + dx * s) as i64, (event.1 + dy * s) as i64)
    } else {
        let i = (n - 40) / 3;
        let j = (n - 40) % 3;
        let a = geometry::walk_delta(i);
        let b = geometry::walk_delta(if j < i { j } else { j + 1 });
        ((event.0 + a.0 + b.0) as i64, (event.1 + a.1 + b.1) as i64)
    }
}

/// The position was tried before.
pub open spec fn tried_before(event: Pos, n: int) -> bool {
    exists|m: int| 0 <= m < n && #[trigger] candidate(event, m) == candidate(event, n)
}

/// The first eight of `n` positions that are free and from which searching
/// finds the event object, with the direction to face.
pub open spec fn spots(e: &Engine, event: Pos, mode: u16, n: int) -> Seq<(Pos, u16)>
    decreases n,
{
    if n <= 0 {
        Seq::empty()
    } else {
        let before = spots(e, event, mode, n - 1);
        let stand = candidate(event, n - 1);
        let face = finding_direction(stand, event, mode, 0, 4);
        if before.len() < 8 && !tried_before(event, n - 1) && !e.obstacle(stand, true, 0, false) && face is Some {
            before.push((stand, face->0 as u16))
        } else {
            before
        }
    }
}

/// Where to stand to search an event object.
pub open spec fn search_spots(e: &Engine, event: Pos, mode: u16) -> Seq<(Pos, u16)> {
    if is_searched(mode) {
        spots(e, event, mode, 52)
    } else {
        Seq::empty()
    }
}

fn candidate_at(event: Pos, n: usize) -> (p: Pos)
    requires
        n < 52,
        geometry::inland(event),
    ensures
        p == candidate(event, n as int),
        event.0 - 80 <= p.0 <= event.0 + 80,
        event.1 - 40 <= p.1 <= event.1 + 40,
{
    if n < 40 {
        let (dx, dy): (i64, i64) = geometry::walk_step(n / 10);
        let k: i64 = ((n % 10) / 2 + 1) as i64;
        let s: i64 = if n % 2 == 0 {
            k
        } else {
            -k
        };
        assert(-80 <= dx * s <= 80 && -40 <= dy * s <= 40) by (nonlinear_arith)
            requires
                -16 <= dx <= 16,
                -8 <= dy <= 8,
                -5 <= s <= 5,
        ;
        (event.0 + dx * s, event.1 + dy * s)
    } else {
        let i: usize = (n - 40) / 3;
        let j: usize = (n - 40) % 3;
        let a: (i64, i64) = geometry::walk_step(i);
        let b: (i64, i64) = geometry::walk_step(
            if j < i {
                j
            } else {
                j + 1
            },
        );
        (event.0 + a.0 + b.0, event.1 + a.1 + b.1)
    }
}

/// The spots lie in the world.
pub open spec fn spots_placed(list: Seq<(Pos, u16)>) -> bool {
    forall|i: int| 0 <= i < list.len() ==> geometry::inland((#[trigger] list[i]).0)
}

/// Where to stand to search an event object, and where to face.
pub fn compute_search_spots(engine: &Engine, event: Pos, mode: u16) -> (r: Vec<(Pos, u16)>)
    requires
        engine.res.wf(),
        geometry::central(event),
    ensures
        r@ == search_spots(engine, event, mode),
        spots_placed(r@),
{
    let mut r: Vec<(Pos, u16)> = Vec::new();
    assert(r@ =~= Seq::<(Pos, u16)>::empty());
    if mode == 0 || mode >= 4 {
        return r;
    }
    for n in 0..52usize
        invariant
            engine.res.wf(),
            geometry::central(event),
            1 <= mode < 4,
            spots_placed(r@),
            r@ == spots(engine, event, mode, n as int),
    {
        let stand: Pos = candidate_at(event, n);
        let mut seen: bool = false;
        for m in 0..n
            invariant
                n < 52,
                geometry::central(event),
                stand == candidate(event, n as int),
                seen == exists|k: int| 0 <= k < m && #[trigger] candidate(event, k) == candidate(event, n as int),
        {
            let c: Pos = candidate_at(event, m);
            if c.0 == stand.0 && c.1 == stand.1 {
                assert(candidate(event, m as int) == candidate(event, n as int));
                seen = true;
            }
        }
        assert(seen == tried_before(event, n as int));
        if r.len() < 8 && !seen && !engine.obstacle_at(stand, true, 0, false) {
            let info: SearchInfo = search_info(stand, event, mode, 0);
            match info.face {
                Some(face) => {
                    r.push((stand, face));
                },
                None => {},
            }
        }
    }
    r
}

/// How near to an event object one has to be to act on it.
pub open spec fn goal_distance(mode: u16) -> int {
    if mode >= 4 {
        zones::touch_radius(mode) - 1
    } else if mode > 0 {
        48
    } else {
        16
    }
}

/// How near to an event object one has to be to act on it.
pub fn interact_goal_dist(trigger_mode: u16) -> (d: i64)
    ensures
        d == goal_distance(trigger_mode),
{
    if trigger_mode >= 4 {
        zones::touch_radius_of(trigger_mode) - 1
    } else if trigger_mode > 0 {
        48
    } else {
        16
    }
}

/// Searching looks where the party faces: the first position in front is where
/// one walking step in that direction leads, and those in the middle are
/// further steps along. The two at their sides are as far apart from them, the
/// one straight up or down and the other straight across from the step before.
pub proof fn law_searching_looks_ahead(p: Pos, direction: int, k: int)
    requires
        geometry::in_world(p),
        0 <= direction < 4,
        0 <= k < 4,
    ensures
        searched(p, direction, 0) == p,
        searched(p, direction, 1) == ((p.0 + walk::dir_offset(direction).0) as i64, (p.1 + walk::dir_offset(direction).1) as i64),
        searched(p, direction, 1) == geometry::stepped(p, (direction + 2) % 4),
        direction == 0 ==> searched(p, direction, 1) == ((p.0 - 16) as i64, (p.1 + 8) as i64),
        direction == 1 ==> searched(p, direction, 1) == ((p.0 - 16) as i64, (p.1 - 8) as i64),
        direction == 2 ==> searched(p, direction, 1) == ((p.0 + 16) as i64, (p.1 - 8) as i64),
        direction == 3 ==> searched(p, direction, 1) == ((p.0 + 16) as i64, (p.1 + 8) as i64),
        k > 0 ==> searched(p, direction, 3 * k + 1) == geometry::stepped(
            searched(p, direction, 3 * k - 2),
            (direction + 2) % 4,
        ),
        ({
            let came = if k == 0 { p } else { searched(p, direction, 3 * k - 2) };
            let middle = searched(p, direction, 3 * k + 1);
            &&& searched(p, direction, 3 * k + 2) == (came.0, (2 * middle.1 - came.1) as i64)
            &&& searched(p, direction, 3 * k + 3) == ((2 * middle.0 - came.0) as i64, came.1)
        }),
{
    let (dx, dy) = facing_step(direction);
    assert((3 * k + 1 - 1) / 3 == k && (3 * k + 1 - 1) % 3 == 0);
    assert((3 * k + 2 - 1) / 3 == k && (3 * k + 2 - 1) % 3 == 1);
    assert((3 * k + 3 - 1) / 3 == k && (3 * k + 3 - 1) % 3 == 2);
    assert((3 * (k - 1)) / 3 == k - 1 && (3 * (k - 1)) % 3 == 0);
    assert(k * dx == if k == 0 { 0 } else if k == 1 { dx } else if k == 2 { 2 * dx } else { 3 * dx }) by (nonlinear_arith)
        requires
            0 <= k < 4,
    ;
    assert(k * dy == if k == 0 { 0 } else if k == 1 { dy } else if k == 2 { 2 * dy } else { 3 * dy }) by (nonlinear_arith)
        requires
            0 <= k < 4,
    ;
    assert((k - 1) * dx == k * dx - dx) by (nonlinear_arith);
    assert((k - 1) * dy == k * dy - dy) by (nonlinear_arith);
    assert(0 * dx == 0 && 0 * dy == 0) by (nonlinear_arith);
}

/// An event object that asks for nearness is found where the party stands and
/// on the first position in front; the next trigger mode finds it within two
/// steps and a half, and the last on all positions that searching looks at.
pub proof fn law_search_modes_widen(p: Pos, event: Pos, direction: int)
    ensures
        finds(p, event, 1, direction) <==> (search_tile(p) == search_tile(event) || search_tile(searched(p, direction, 1))
            == search_tile(event)),
        finds(p, event, 2, direction) <==> exists|i: int|
            0 <= i < 8 && search_tile(#[trigger] searched(p, direction, i)) == search_tile(event),
        finds(p, event, 3, direction) <==> exists|i: int|
            0 <= i < 13 && search_tile(#[trigger] searched(p, direction, i)) == search_tile(event),
{
    assert(searched(p, direction, 0) == p);
    if search_tile(searched(p, direction, 1)) == search_tile(event) {
        assert(finds(p, event, 1, direction));
    }
}

/// Two positions of the walking grid lie on the same half-tile exactly if they
/// are the same.
pub proof fn law_search_tells_grid_apart(a: Pos, b: Pos)
    requires
        0 <= a.0 && 0 <= a.1 && 0 <= b.0 && 0 <= b.1,
        a.0 % 16 == 0 && b.0 % 16 == 0,
        a.1 % 8 == 0 && b.1 % 8 == 0,
        a.0 % 32 == 16 <==> a.1 % 16 == 8,
        b.0 % 32 == 16 <==> b.1 % 16 == 8,
    ensures
        search_tile(a) == search_tile(b) <==> a == b,
{
    if search_tile(a) == search_tile(b) {
        assert(a.0 as int == 32 * (a.0 as int / 32) + a.0 as int % 32);
        assert(b.0 as int == 32 * (b.0 as int / 32) + b.0 as int % 32);
        assert(a.1 as int == 16 * (a.1 as int / 16) + a.1 as int % 16);
        assert(b.1 as int == 16 * (b.1 as int / 16) + b.1 as int % 16);
    }
}

/// The directions that the party faces go by the keys that make it face there.
pub proof fn law_keys_face_where_they_walk(d: int)
    requires
        0 <= d < 4,
    ensures
        facing_key(d) == walk_key((d + 2) % 4),
        walk_key(0) == "up"@,
        walk_key(1) == "right"@,
        walk_key(2) == "down"@,
        walk_key(3) == "left"@,
{
}

/// The direction to face is one in which searching finds the event object, and
/// there is none exactly if searching finds it in no direction.
pub proof fn law_face_finds(p: Pos, event: Pos, mode: u16, party_dir: u16)
    requires
        1 <= mode < 4,
    ensures
        search_facts(p, event, mode, party_dir).can_now <==> finds(p, event, mode, (party_dir % 4) as int),
        search_facts(p, event, mode, party_dir).face matches Some(f) ==> 0 <= f < 4 && finds(p, event, mode, f as int),
        search_facts(p, event, mode, party_dir).face is None <==> {
            &&& !finds(p, event, mode, 0)
            &&& !finds(p, event, mode, 1)
            &&& !finds(p, event, mode, 2)
            &&& !finds(p, event, mode, 3)
        },
        search_facts(p, event, mode, party_dir).in_range <==> search_facts(p, event, mode, party_dir).face is Some,
{
    reveal_with_fuel(finding_direction, 5);
    let d: int = party_dir as int % 4;
    assert(tried(party_dir as int, 0) == d);
    assert(tried(party_dir as int, 1) == if d == 3 { 0 } else { d + 1 });
    assert(tried(party_dir as int, 2) == if d >= 2 { d - 2 } else { d + 2 });
    assert(tried(party_dir as int, 3) == if d >= 1 { d - 1 } else { d + 3 });
}

/// Whoever stands on a spot for searching has nothing in the way there, and
/// finds the event object where they are told to face.
pub proof fn law_spots_are_good(e: Engine, event: Pos, mode: u16, i: int)
    requires
        0 <= i < search_spots(&e, event, mode).len(),
    ensures
        ({
            let (p, face) = search_spots(&e, event, mode)[i];
            &&& 1 <= mode < 4
            &&& !e.obstacle(p, true, 0, false)
            &&& face < 4
            &&& finds(p, event, mode, face as int)
        }),
{
    lemma_spots_are_good(e, event, mode, 52, i);
}

proof fn lemma_spots_are_good(e: Engine, event: Pos, mode: u16, n: int, i: int)
    requires
        1 <= mode < 4,
        0 <= i < spots(&e, event, mode, n).len(),
    ensures
        ({
            let (p, face) = spots(&e, event, mode, n)[i];
            &&& !e.obstacle(p, true, 0, false)
            &&& face < 4
            &&& finds(p, event, mode, face as int)
        }),
    decreases n,
{
    if n > 0 {
        if i < spots(&e, event, mode, n - 1).len() {
            lemma_spots_are_good(e, event, mode, n - 1, i);
        } else {
            let p = candidate(event, n - 1);
            reveal_with_fuel(finding_direction, 5);
        }
    }
}

/// As long as there are fewer than eight spots, none is left out: every free
/// position within five steps in a straight line, or two different steps, from
/// which searching finds the event object is among them.
pub proof fn law_spots_are_complete(e: Engine, event: Pos, mode: u16, n: int)
    requires
        1 <= mode < 4,
        0 <= n < 52,
        search_spots(&e, event, mode).len() < 8,
        !e.obstacle(candidate(event, n), true, 0, false),
        finds(candidate(event, n), event, mode, 0) || finds(candidate(event, n), event, mode, 1) || finds(
            candidate(event, n),
            event,
            mode,
            2,
        ) || finds(candidate(event, n), event, mode, 3),
    ensures
        exists|i: int|
            0 <= i < search_spots(&e, event, mode).len() && (#[trigger] search_spots(&e, event, mode)[i]).0 == candidate(
                event,
                n,
            ),
{
    lemma_some_direction(candidate(event, n), event, mode);
    lemma_spots_are_complete(e, event, mode, 52, n);
}

proof fn lemma_some_direction(p: Pos, event: Pos, mode: u16)
    requires
        finds(p, event, mode, 0) || finds(p, event, mode, 1) || finds(p, event, mode, 2) || finds(p, event, mode, 3),
    ensures
        finding_direction(p, event, mode, 0, 4) is Some,
{
    reveal_with_fuel(finding_direction, 5);
}

proof fn lemma_spots_are_complete(e: Engine, event: Pos, mode: u16, m: int, n: int)
    requires
        1 <= mode < 4,
        0 <= n < m,
        spots(&e, event, mode, m).len() < 8,
        !e.obstacle(candidate(event, n), true, 0, false),
        finding_direction(candidate(event, n), event, mode, 0, 4) is Some,
    ensures
        exists|i: int| 0 <= i < spots(&e, event, mode, m).len() && (#[trigger] spots(&e, event, mode, m)[i]).0 == candidate(event, n),
    decreases m,
{
    let list = spots(&e, event, mode, m);
    let before = spots(&e, event, mode, m - 1);
    if n < m - 1 {
        lemma_spots_are_complete(e, event, mode, m - 1, n);
        let i = choose|i: int| 0 <= i < before.len() && (#[trigger] before[i]).0 == candidate(event, n);
        assert(list[i] == before[i]);
    } else {
        if tried_before(event, n) {
            let k = choose|k: int| 0 <= k < n && #[trigger] candidate(event, k) == candidate(event, n);
            lemma_spots_are_complete(e, event, mode, m - 1, k);
            let i = choose|i: int| 0 <= i < before.len() && (#[trigger] before[i]).0 == candidate(event, k);
            assert(list[i] == before[i]);
        } else {
            assert(list[before.len() as int].0 == candidate(event, n));
        }
    }
}

/// The positions tried for searching: up to five steps in each of the four
/// walking directions, and every two different steps.
pub proof fn law_candidates_are_steps_away(event: Pos, d: int, k: int)
    requires
        geometry::in_world(event),
        0 <= d < 4,
        0 <= k < 5,
    ensures
        ({
            let (dx, dy) = geometry::walk_delta(d);
            let ahead = candidate(event, 10 * d + 2 * k);
            let behind = candidate(event, 10 * d + 2 * k + 1);
            &&& ahead.0 - event.0 == (k + 1) * dx
            &&& ahead.1 - event.1 == (k + 1) * dy
            &&& behind.0 - event.0 == event.0 - ahead.0
            &&& behind.1 - event.1 == event.1 - ahead.1
        }),
{
    let (dx, dy) = geometry::walk_delta(d);
    assert((10 * d + 2 * k) / 10 == d && (10 * d + 2 * k) % 10 == 2 * k);
    assert((10 * d + 2 * k + 1) / 10 == d && (10 * d + 2 * k + 1) % 10 == 2 * k + 1);
    assert((10 * d + 2 * k) % 2 == 0 && (10 * d + 2 * k + 1) % 2 == 1);
    assert((2 * k + 1) / 2 == k);
    assert(dx * (k + 1) == (k + 1) * dx && dx * -(k + 1) == -(dx * (k + 1))) by (nonlinear_arith);
    assert(dy * (k + 1) == (k + 1) * dy && dy * -(k + 1) == -(dy * (k + 1))) by (nonlinear_arith);
    assert(-80 <= dx * (k + 1) <= 80 && -80 <= dy * (k + 1) <= 80) by (nonlinear_arith)
        requires
            0 <= k < 5,
            -16 <= dx <= 16,
            -16 <= dy <= 16,
    ;
}

/// Whoever is near enough to act on an event object that is touched touches
/// it, and being any nearer asked for would leave some out.
pub proof fn law_goal_touches(mode: u16, distance: int)
    requires
        mode >= 4,
    ensures
        distance <= goal_distance(mode) <==> distance < (mode - 4) * 32 + 16,
{
}

/// Behind the straight lines, every pair of two different walking directions is
/// tried: one step in each.
pub proof fn law_candidates_are_two_steps_away(event: Pos, i: int, j: int)
    requires
        geometry::inland(event),
        0 <= i < 4,
        0 <= j < 4,
        i != j,
    ensures
        candidate(event, 40 + 3 * i + if j < i { j } else { j - 1 }) == geometry::stepped(geometry::stepped(event, i), j),
{
    let k: int = if j < i { j } else { j - 1 };
    assert((40 + 3 * i + k - 40) / 3 == i && (40 + 3 * i + k - 40) % 3 == k);
}

/// The direction to face is the first in which searching finds the event
/// object, starting with where the party faces and going round.
pub proof fn law_face_goes_round(p: Pos, event: Pos, mode: u16, party_dir: u16, k: int)
    requires
        1 <= mode < 4,
        party_dir < 4,
        0 <= k < 4,
        finds(p, event, mode, (party_dir + k) % 4),
        forall|i: int| 0 <= i < k ==> !finds(p, event, mode, #[trigger] tried(party_dir as int, i)),
    ensures
        search_facts(p, event, mode, party_dir).face == Some(((party_dir + k) % 4) as u16),
{
    reveal_with_fuel(finding_direction, 5);
    assert(k > 0 ==> !finds(p, event, mode, tried(party_dir as int, 0)));
    assert(k > 1 ==> !finds(p, event, mode, tried(party_dir as int, 1)));
    assert(k > 2 ==> !finds(p, event, mode, tried(party_dir as int, 2)));
    assert(tried(party_dir as int, k) == (party_dir + k) % 4);
    assert(tried(party_dir as int, 0) == party_dir as int % 4);
}

} // verus!
