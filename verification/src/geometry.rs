//! Positions, distances and directions in the isometric world.

use vstd::prelude::*;

verus! {

/// A world position.
pub type Pos = (i64, i64);

/// Division that rounds towards zero.
pub open spec fn tdiv(a: int, b: int) -> int {
    if a >= 0 {
        a / b
    } else {
        -((-a) / b)
    }
}

/// The remainder of division that rounds towards zero.
pub open spec fn trem(a: int, b: int) -> int {
    if a >= 0 {
        a % b
    } else {
        -((-a) % b)
    }
}

/// The magnitude of a number.
pub open spec fn abs(a: int) -> int {
    if a < 0 {
        -a
    } else {
        a
    }
}

/// The game's distance between two positions: heights count twice.
pub open spec fn distance(a: Pos, b: Pos) -> int {
    abs(a.0 - b.0) + 2 * abs(a.1 - b.1)
}

/// The position is far enough from the limits of 64 bits to be worked with.
pub open spec fn in_world(p: Pos) -> bool {
    -0x100_0000_0000 <= p.0 <= 0x100_0000_0000 && -0x100_0000_0000 <= p.1 <= 0x100_0000_0000
}

/// The position is so far inside the world that it can be walked from.
pub open spec fn inland(p: Pos) -> bool {
    -0x10_0000_0000 <= p.0 <= 0x10_0000_0000 && -0x10_0000_0000 <= p.1 <= 0x10_0000_0000
}

/// The position is so far inside the world that everything within a search
/// from it can be walked from.
pub open spec fn central(p: Pos) -> bool {
    -0x8_0000_0000 <= p.0 <= 0x8_0000_0000 && -0x8_0000_0000 <= p.1 <= 0x8_0000_0000
}

/// One step in walking direction `i`: up, right, down, left.
pub open spec fn walk_delta(i: int) -> (int, int) {
    if i == 0 {
        (16, -8)
    } else if i == 1 {
        (16, 8)
    } else if i == 2 {
        (-16, 8)
    } else {
        (-16, -8)
    }
}

/// The position one step in walking direction `i` from `p`.
pub open spec fn stepped(p: Pos, i: int) -> Pos {
    ((p.0 + walk_delta(i).0) as i64, (p.1 + walk_delta(i).1) as i64)
}

pub(crate) fn abs_i64(a: i64) -> (r: i64)
    requires
        a > i64::MIN,
    ensures
        r == abs(a as int),
{
    if a < 0 {
        -a
    } else {
        a
    }
}

/// The game's distance between two positions.
pub fn metric(a: Pos, b: Pos) -> (d: i64)
    requires
        in_world(a),
        in_world(b),
    ensures
        d == distance(a, b),
        0 <= d <= 0x800_0000_0000,
{
    abs_i64(a.0 - b.0) + 2 * abs_i64(a.1 - b.1)
}

/// One step in walking direction `i`: up, right, down, left.
pub fn walk_step(i: usize) -> (d: (i64, i64))
    requires
        i < 4,
    ensures
        d.0 == walk_delta(i as int).0,
        d.1 == walk_delta(i as int).1,
{
    if i == 0 {
        (16, -8)
    } else if i == 1 {
        (16, 8)
    } else if i == 2 {
        (-16, 8)
    } else {
        (-16, -8)
    }
}

/// The position one step in walking direction `i` from `p`.
pub fn step_from(p: Pos, i: usize) -> (q: Pos)
    requires
        i < 4,
        i64::MIN + 16 <= p.0 <= i64::MAX - 16,
        i64::MIN + 16 <= p.1 <= i64::MAX - 16,
    ensures
        q == stepped(p, i as int),
        q.0 == p.0 + walk_delta(i as int).0,
        q.1 == p.1 + walk_delta(i as int).1,
{
    let (dx, dy): (i64, i64) = walk_step(i);
    (p.0 + dx, p.1 + dy)
}

/// A step has length 32, and the step back undoes it.
pub proof fn law_steps_are_undone(p: Pos, i: int)
    requires
        0 <= i < 4,
        in_world(p),
    ensures
        distance(p, stepped(p, i)) == 32,
        stepped(stepped(p, i), (i + 2) % 4) == p,
{
}

/// Distance goes by how far apart positions are across and down, whichever way
/// round, and a way down counts twice.
pub proof fn law_heights_count_twice(x: i64, y: i64, dx: int, dy: int)
    requires
        in_world((x, y)),
        0 <= dx < 0x1_0000_0000,
        0 <= dy < 0x1_0000_0000,
    ensures
        distance((x, y), ((x + dx) as i64, (y + dy) as i64)) == dx + dy + dy,
        distance((x, y), ((x + dx) as i64, (y - dy) as i64)) == dx + dy + dy,
        distance((x, y), ((x - dx) as i64, (y + dy) as i64)) == dx + dy + dy,
        distance((x, y), ((x - dx) as i64, (y - dy) as i64)) == dx + dy + dy,
{
}

/// The walking directions up, right, down and left lie askew: up and right
/// together lead 32 to the right, right and down 16 down, down and left 32 to
/// the left, left and up 16 up.
pub proof fn law_directions_lie_askew(p: Pos)
    requires
        in_world(p),
    ensures
        stepped(stepped(p, 0), 1) == ((p.0 + 32) as i64, p.1),
        stepped(stepped(p, 1), 2) == (p.0, (p.1 + 16) as i64),
        stepped(stepped(p, 2), 3) == ((p.0 - 32) as i64, p.1),
        stepped(stepped(p, 3), 0) == (p.0, (p.1 - 16) as i64),
{
}

} // verus!
