//! Arithmetic on palettes: dimming, mixing, and stepping towards a goal.

use vstd::prelude::*;

use crate::display::PalColor;

verus! {

/// A palette.
pub type Palette = [PalColor; 256];

/// A channel of an entry.
pub open spec fn channel(p: Palette, i: int, c: int) -> u8 {
    p@[i]@[c]
}

/// The two palettes show the same colours.
pub open spec fn same_colors(p: Palette, q: Palette) -> bool {
    forall|i: int, c: int| 0 <= i < 256 && 0 <= c < 3 ==> #[trigger] channel(p, i, c) == channel(q, i, c)
}

/// All entries are black.
pub open spec fn is_black(p: Palette) -> bool {
    forall|i: int, c: int| 0 <= i < 256 && 0 <= c < 3 ==> #[trigger] channel(p, i, c) == 0
}

/// `r` is `p`, dimmed to `level` parts of 64.
pub open spec fn is_dimmed(r: Palette, p: Palette, level: int) -> bool {
    forall|i: int, c: int|
        0 <= i < 256 && 0 <= c < 3 ==> #[trigger] channel(r, i, c) == channel(p, i, c) * level / 64
}

/// `r` is `31 - t` parts of `p` and `t` parts of `q`.
pub open spec fn is_mixed(r: Palette, p: Palette, q: Palette, t: int) -> bool {
    forall|i: int, c: int|
        0 <= i < 256 && 0 <= c < 3 ==> #[trigger] channel(r, i, c) == (channel(p, i, c) * (31 - t) + channel(q, i, c) * t)
            / 31
}

/// `v`, moved towards `goal` by at most `by`.
pub open spec fn stepped(v: int, goal: int, by: int) -> int {
    if v > goal {
        if v - goal < by {
            goal
        } else {
            v - by
        }
    } else if goal - v < by {
        goal
    } else {
        v + by
    }
}

/// `r` is `p`, all channels moved towards those of `goal`.
pub open spec fn is_stepped(r: Palette, p: Palette, goal: Palette, by: int) -> bool {
    forall|i: int, c: int|
        0 <= i < 256 && 0 <= c < 3 ==> #[trigger] channel(r, i, c) == stepped(
            channel(p, i, c) as int,
            channel(goal, i, c) as int,
            by,
        )
}

/// All entries of `r` are entry `color` of `p`.
pub open spec fn is_filled(r: Palette, p: Palette, color: int) -> bool {
    forall|i: int, c: int| 0 <= i < 256 && 0 <= c < 3 ==> #[trigger] channel(r, i, c) == channel(p, color, c)
}

/// The shade of red light that an entry turns to, the same for all channels.
pub open spec fn glow(p: Palette, i: int) -> int {
    (channel(p, i, 0) + channel(p, i, 1) + channel(p, i, 2)) / 4 + 64
}

/// `r` is the goal of a fade to red: every entry's shade, but for the entry of
/// the dialog text, which stays.
pub open spec fn is_glowing(r: Palette, p: Palette) -> bool {
    forall|i: int, c: int|
        0 <= i < 256 && 0 <= c < 3 ==> #[trigger] channel(r, i, c) == if i == 0x4f {
            channel(p, i, c) as int
        } else {
            glow(p, i)
        }
}

/// What the channels are after an entry is set.
proof fn lemma_entry_set(before: Palette, after: Palette, i: int)
    requires
        0 <= i < 256,
        after@ == before@.update(i, after@[i]),
    ensures
        forall|k: int, c: int|
            0 <= k < 256 && 0 <= c < 3 && k != i ==> #[trigger] channel(after, k, c) == channel(before, k, c),
{
}

fn dim_channel(v: u8, level: u8) -> (r: u8)
    requires
        level <= 64,
    ensures
        r == v * level / 64,
{
    assert(v * level <= 255 * 64) by (nonlinear_arith)
        requires
            v <= 255,
            level <= 64,
    ;
    (v as u16 * level as u16 / 64) as u8
}

fn dim_color(v: PalColor, level: u8) -> (r: PalColor)
    requires
        level <= 64,
    ensures
        forall|c: int| 0 <= c < 3 ==> #[trigger] r@[c] == v@[c] * level / 64,
{
    let r: PalColor = [dim_channel(v[0], level), dim_channel(v[1], level), dim_channel(v[2], level)];
    assert(r@[0] == v@[0] * level / 64 && r@[1] == v@[1] * level / 64 && r@[2] == v@[2] * level / 64);
    r
}

/// Dim a palette to `level` parts of 64.
pub fn dimmed(p: &Palette, level: u8) -> (r: Palette)
    requires
        level <= 64,
    ensures
        is_dimmed(r, *p, level as int),
{
    let mut r: Palette = *p;
    for i in 0..256usize
        invariant
            level <= 64,
            forall|k: int, c: int|
                0 <= k < i && 0 <= c < 3 ==> #[trigger] channel(r, k, c) == channel(*p, k, c) * level / 64,
    {
        let ghost before = r;
        r[i] = dim_color(p[i], level);
        proof {
            lemma_entry_set(before, r, i as int);
        }
    }
    r
}

fn mix_channel(a: u8, b: u8, t: u8) -> (r: u8)
    requires
        t <= 31,
    ensures
        r == (a * (31 - t) + b * t) / 31,
{
    assert(a * (31 - t) + b * t <= 255 * 31 && 0 <= a * (31 - t) && 0 <= b * t) by (nonlinear_arith)
        requires
            0 <= a <= 255,
            0 <= b <= 255,
            0 <= t <= 31,
    ;
    ((a as u16 * (31 - t as u16) + b as u16 * t as u16) / 31) as u8
}

fn mix_color(a: PalColor, b: PalColor, t: u8) -> (r: PalColor)
    requires
        t <= 31,
    ensures
        forall|c: int| 0 <= c < 3 ==> #[trigger] r@[c] == (a@[c] * (31 - t) + b@[c] * t) / 31,
{
    let r: PalColor = [mix_channel(a[0], b[0], t), mix_channel(a[1], b[1], t), mix_channel(a[2], b[2], t)];
    assert forall|c: int| 0 <= c < 3 implies #[trigger] r@[c] == (a@[c] * (31 - t) + b@[c] * t) / 31 by {
        assert(r@[0] == (a@[0] * (31 - t) + b@[0] * t) / 31);
        assert(r@[1] == (a@[1] * (31 - t) + b@[1] * t) / 31);
        assert(r@[2] == (a@[2] * (31 - t) + b@[2] * t) / 31);
    }
    r
}

/// Mix two palettes.
pub fn mixed(p: &Palette, q: &Palette, t: u8) -> (r: Palette)
    requires
        t <= 31,
    ensures
        is_mixed(r, *p, *q, t as int),
{
    let mut r: Palette = *p;
    for i in 0..256usize
        invariant
            t <= 31,
            forall|k: int, c: int|
                0 <= k < i && 0 <= c < 3 ==> #[trigger] channel(r, k, c) == (channel(*p, k, c) * (31 - t) + channel(
                    *q,
                    k,
                    c,
                ) * t) / 31,
    {
        let ghost before = r;
        r[i] = mix_color(p[i], q[i], t);
        proof {
            lemma_entry_set(before, r, i as int);
        }
    }
    r
}

fn step_channel(v: u8, goal: u8, by: u8) -> (r: u8)
    ensures
        r == stepped(v as int, goal as int, by as int),
{
    if v > goal {
        if v - goal < by {
            goal
        } else {
            v - by
        }
    } else if goal - v < by {
        goal
    } else {
        v + by
    }
}

fn step_color(a: PalColor, b: PalColor, by: u8) -> (r: PalColor)
    ensures
        forall|c: int| 0 <= c < 3 ==> #[trigger] r@[c] == stepped(a@[c] as int, b@[c] as int, by as int),
{
    let r: PalColor = [step_channel(a[0], b[0], by), step_channel(a[1], b[1], by), step_channel(a[2], b[2], by)];
    assert(r@[0] == stepped(a@[0] as int, b@[0] as int, by as int));
    assert(r@[1] == stepped(a@[1] as int, b@[1] as int, by as int));
    assert(r@[2] == stepped(a@[2] as int, b@[2] as int, by as int));
    r
}

/// Move a palette towards another.
pub fn step_towards(p: &Palette, goal: &Palette, by: u8) -> (r: Palette)
    ensures
        is_stepped(r, *p, *goal, by as int),
{
    let mut r: Palette = *p;
    for i in 0..256usize
        invariant
            forall|k: int, c: int|
                0 <= k < i && 0 <= c < 3 ==> #[trigger] channel(r, k, c) == stepped(
                    channel(*p, k, c) as int,
                    channel(*goal, k, c) as int,
                    by as int,
                ),
    {
        let ghost before = r;
        r[i] = step_color(p[i], goal[i], by);
        proof {
            lemma_entry_set(before, r, i as int);
        }
    }
    r
}

/// A palette of one colour.
pub fn filled(p: &Palette, color: u8) -> (r: Palette)
    ensures
        is_filled(r, *p, color as int),
{
    let v: PalColor = p[color as usize];
    [v; 256]
}

/// A black palette.
pub fn all_black() -> (r: Palette)
    ensures
        is_black(r),
{
    [[0u8; 3]; 256]
}

/// The goal of a fade to red.
pub fn glowing(p: &Palette) -> (r: Palette)
    ensures
        is_glowing(r, *p),
{
    let mut r: Palette = *p;
    for i in 0..256usize
        invariant
            forall|k: int, c: int|
                0 <= k < 256 && 0 <= c < 3 ==> #[trigger] channel(r, k, c) == if k < i && k != 0x4f {
                    glow(*p, k)
                } else {
                    channel(*p, k, c) as int
                },
    {
        if i != 0x4f {
            let v: PalColor = p[i];
            assert(v[0] == channel(*p, i as int, 0) && v[1] == channel(*p, i as int, 1) && v[2] == channel(*p, i as int, 2));
            let shade: u8 = ((v[0] as u16 + v[1] as u16 + v[2] as u16) / 4 + 64) as u8;
            let ghost before = r;
            r[i] = [shade; 3];
            proof {
                lemma_entry_set(before, r, i as int);
            }
            assert(forall|c: int| 0 <= c < 3 ==> #[trigger] channel(r, i as int, c) == shade);
        }
    }
    r
}

/// A palette dimmed to nothing is black, and no dimming brightens.
pub proof fn law_dimming_darkens(p: Palette, low: Palette, high: Palette, a: int, b: int)
    requires
        0 <= a <= b <= 64,
        is_dimmed(low, p, a),
        is_dimmed(high, p, b),
    ensures
        a == 0 ==> is_black(low),
        b == 64 ==> same_colors(high, p),
        forall|i: int, c: int|
            0 <= i < 256 && 0 <= c < 3 ==> #[trigger] channel(low, i, c) <= channel(high, i, c) <= channel(p, i, c),
{
    assert forall|i: int, c: int| 0 <= i < 256 && 0 <= c < 3 implies #[trigger] channel(low, i, c) <= channel(high, i, c)
        <= channel(p, i, c) by {
        let v = channel(p, i, c) as int;
        assert(v * a / 64 <= v * b / 64 <= v) by (nonlinear_arith)
            requires
                0 <= v,
                0 <= a <= b <= 64,
        ;
    }
}

/// A mix begins with the one palette and ends with the other.
pub proof fn law_mix_has_both_ends(p: Palette, q: Palette, first: Palette, last: Palette)
    requires
        is_mixed(first, p, q, 0),
        is_mixed(last, p, q, 31),
    ensures
        same_colors(first, p),
        same_colors(last, q),
{
}

/// A channel after `n` steps.
pub open spec fn stepped_often(v: int, goal: int, by: int, n: nat) -> int
    decreases n,
{
    if n == 0 {
        v
    } else {
        stepped(stepped_often(v, goal, by, (n - 1) as nat), goal, by)
    }
}

/// Steps never move past the goal, and enough of them reach it: 64 steps of 4,
/// and 32 steps of 8, reach any goal from any channel.
pub proof fn law_steps_reach_the_goal(v: int, goal: int, by: int, n: nat)
    requires
        0 <= v <= 255,
        0 <= goal <= 255,
        by > 0,
    ensures
        v <= goal ==> v <= stepped_often(v, goal, by, n) <= goal,
        v >= goal ==> v >= stepped_often(v, goal, by, n) >= goal,
        n * by >= 255 ==> stepped_often(v, goal, by, n) == goal,
{
    lemma_distance_left(v, goal, by, n);
}

/// How far a channel is from its goal after `n` steps.
proof fn lemma_distance_left(v: int, goal: int, by: int, n: nat)
    requires
        by > 0,
    ensures
        v <= goal ==> stepped_often(v, goal, by, n) == if goal - v <= n * by {
            goal
        } else {
            v + n * by
        },
        v >= goal ==> stepped_often(v, goal, by, n) == if v - goal <= n * by {
            goal
        } else {
            v - n * by
        },
    decreases n,
{
    if n > 0 {
        let m = (n - 1) as nat;
        lemma_distance_left(v, goal, by, m);
        assert(n * by == m * by + by) by (nonlinear_arith)
            requires
                n == m + 1,
        ;
    } else {
        assert(n * by == 0) by (nonlinear_arith)
            requires
                n == 0,
        ;
    }
}

/// A dimmed channel is so many 64th parts of what it was, rounded down.
pub proof fn law_dimming_is_in_proportion(r: Palette, p: Palette, level: int, i: int, c: int)
    requires
        is_dimmed(r, p, level),
        0 <= i < 256,
        0 <= c < 3,
    ensures
        64 * p_channel(r, i, c) <= p_channel(p, i, c) * level < 64 * p_channel(r, i, c) + 64,
{
    assert(channel(r, i, c) == channel(p, i, c) * level / 64);
}

/// A channel of an entry, as a number.
pub open spec fn p_channel(p: Palette, i: int, c: int) -> int {
    p@[i]@[c] as int
}

/// A mixed channel lies between those of the two palettes, in proportion to
/// their parts of 31, rounded down.
pub proof fn law_mix_is_in_proportion(r: Palette, p: Palette, q: Palette, t: int, i: int, c: int)
    requires
        is_mixed(r, p, q, t),
        0 <= i < 256,
        0 <= c < 3,
    ensures
        31 * p_channel(r, i, c) <= p_channel(p, i, c) * (31 - t) + p_channel(q, i, c) * t < 31 * p_channel(r, i, c) + 31,
{
    assert(channel(r, i, c) == (channel(p, i, c) * (31 - t) + channel(q, i, c) * t) / 31);
}

/// A step moves a channel towards its goal, by the whole step or onto the goal.
pub proof fn law_steps_move_towards_the_goal(v: int, goal: int, by: int)
    requires
        by > 0,
    ensures
        v == goal ==> stepped(v, goal, by) == goal,
        v + by <= goal ==> stepped(v, goal, by) == v + by,
        v - by >= goal ==> stepped(v, goal, by) == v - by,
        goal - by < v < goal + by ==> stepped(v, goal, by) == goal,
{
}

/// The light that entries turn to is a quarter of their channels together, and
/// 64 more, the same for all channels; the entry of the dialog text keeps its
/// colour.
pub proof fn law_glow_is_even(r: Palette, p: Palette, i: int)
    requires
        is_glowing(r, p),
        0 <= i < 256,
    ensures
        i != 0x4f ==> {
            let sum = p_channel(p, i, 0) + p_channel(p, i, 1) + p_channel(p, i, 2);
            &&& p_channel(r, i, 0) == p_channel(r, i, 1) == p_channel(r, i, 2)
            &&& 4 * (p_channel(r, i, 0) - 64) <= sum < 4 * (p_channel(r, i, 0) - 64) + 4
        },
        i == 0x4f ==> p_channel(r, i, 0) == p_channel(p, i, 0) && p_channel(r, i, 1) == p_channel(p, i, 1) && p_channel(r, i, 2)
            == p_channel(p, i, 2),
{
    assert(channel(r, i, 0) == if i == 0x4f { channel(p, i, 0) as int } else { glow(p, i) });
    assert(channel(r, i, 1) == if i == 0x4f { channel(p, i, 1) as int } else { glow(p, i) });
    assert(channel(r, i, 2) == if i == 0x4f { channel(p, i, 2) as int } else { glow(p, i) });
}

} // verus!
