//! The game's random numbers: a linear congruential generator that seeds
//! itself from the wall clock when it stands at 0.

use vstd::prelude::*;

use crate::clock;

verus! {

/// The generator's state.
#[derive(Clone, Copy, Debug, PartialEq, Eq, Structural)]
pub struct Rng {
    pub seed: i32,
}

impl Default for Rng {
    fn default() -> (rng: Rng)
        ensures
            rng.seed == 0,
    {
        Rng { seed: 0 }
    }
}

/// The value of `x` modulo 2^32 that an `i32` can hold.
pub open spec fn wrap32(x: int) -> int {
    let r = x % 0x1_0000_0000;
    if r < 0x8000_0000 {
        r
    } else {
        r - 0x1_0000_0000
    }
}

/// One step of the generator: `1664525 * seed + 1013904223` modulo 2^32.
#[verifier::opaque]
pub open spec fn lcg(seed: int) -> int {
    wrap32(1664525 * seed + 1013904223)
}

/// The state after a draw: one step, or two from the wall clock's seconds
/// when the generator stands at 0.
pub open spec fn next_seed(seed: int, wall_clock: int) -> int {
    if seed == 0 {
        lcg(lcg(wall_clock))
    } else {
        lcg(seed)
    }
}

/// The number drawn in a state: its upper 31 bits, moved to start at 0.
pub open spec fn draw_of(seed: int) -> int {
    seed / 2 + 1073741824
}

/// The number that a draw of `draw` makes of the range `from..=to`: the range
/// is cut into equal parts, and what rounding leaves over goes to `to`.
#[verifier::opaque]
pub open spec fn scaled_draw(from: int, to: int, draw: int) -> int {
    let v = from + draw / (i32::MAX as int / (to - from + 1));
    if v < to {
        v
    } else {
        to
    }
}

/// Wrapping early does not change a wrapped sum.
proof fn lemma_wrap32_add(a: int, b: int)
    ensures
        wrap32(wrap32(a) + b) == wrap32(a + b),
{
    let m: int = 0x1_0000_0000;
    vstd::arithmetic::div_mod::lemma_add_mod_noop(a, b, m);
    vstd::arithmetic::div_mod::lemma_add_mod_noop(a % m, b, m);
    vstd::arithmetic::div_mod::lemma_mod_twice(a, m);
    vstd::arithmetic::div_mod::lemma_mod_sub_multiples_vanish(a % m + b, m);
    assert((a % m - m + b) == (-m + (a % m + b)));
}

/// Set the generator's state.
pub fn seed_random(rng: &mut Rng, seed: i32)
    ensures
        final(rng).seed == seed,
{
    rng.seed = seed;
}

/// One step of the generator, with silent 32-bit wraparound.
pub fn lcg_step(seed: i32) -> (next: i32)
    ensures
        next == lcg(seed as int),
{
    proof {
        reveal(lcg);
        lemma_wrap32_add(seed * 1664525, 1013904223);
    }
    seed.wrapping_mul(1664525).wrapping_add(1013904223)
}

/// The draw from a state, given what the wall clock shows.
pub fn lrand_at(rng: &mut Rng, wall_clock: i32) -> (draw: i32)
    ensures
        final(rng).seed == next_seed(old(rng).seed as int, wall_clock as int),
        draw == draw_of(final(rng).seed as int),
        draw >= 0,
{
    let mut seed: i32 = rng.seed;
    if seed == 0 {
        seed = lcg_step(wall_clock);
    }
    seed = lcg_step(seed);
    rng.seed = seed;
    assert(seed >> 1 == seed / 2 && seed >> 1 >= -1073741824 && seed >> 1 <= 1073741823) by (bit_vector);
    (seed >> 1).wrapping_add(1073741824)
}

/// The seed that the wall clock gives: its seconds, or 1 where it shows none.
pub fn clock_seed(secs: Option<u64>) -> (seed: i32)
    ensures
        seed == match secs {
            Some(s) => s as i32,
            None => 1,
        },
{
    match secs {
        Some(s) => s as i32,
        None => 1,
    }
}

/// The next draw. The wall clock decides it only when the generator stands at
/// 0.
pub fn lrand(rng: &mut Rng) -> (draw: i32)
    ensures
        exists|t: i32| #[trigger] next_seed(old(rng).seed as int, t as int) == final(rng).seed,
        old(rng).seed != 0 ==> final(rng).seed == lcg(old(rng).seed as int),
        draw == draw_of(final(rng).seed as int),
        draw >= 0,
{
    let wall_clock: i32 = if rng.seed == 0 {
        clock_seed(clock::unix_seconds())
    } else {
        0
    };
    lrand_at(rng, wall_clock)
}

/// Scale a draw to the range `from..=to`.
pub fn scale_draw(from: i32, to: i32, draw: i32) -> (v: i32)
    requires
        from < to,
        to - from < i32::MAX,
        draw >= 0,
    ensures
        v == scaled_draw(from as int, to as int, draw as int),
        from <= v <= to,
{
    proof {
        reveal(scaled_draw);
        lemma_divisor(to - from + 1, draw as int);
    }
    let part: i32 = draw / (i32::MAX / (to - from + 1));
    if part < to - from {
        from + part
    } else {
        to
    }
}

/// A random integer: `from` when the range is empty or a single value, else
/// the next draw scaled to `from..=to`.
pub fn random_long(rng: &mut Rng, from: i32, to: i32) -> (v: i32)
    requires
        from < to ==> to - from < i32::MAX,
    ensures
        to <= from ==> v == from && *final(rng) == *old(rng),
        from < to ==> {
            &&& exists|t: i32| #[trigger] next_seed(old(rng).seed as int, t as int) == final(rng).seed
            &&& old(rng).seed != 0 ==> final(rng).seed == lcg(old(rng).seed as int)
            &&& v == scaled_draw(from as int, to as int, draw_of(final(rng).seed as int))
            &&& from <= v <= to
        },
{
    if to <= from {
        return from;
    }
    let draw: i32 = lrand(rng);
    scale_draw(from, to, draw)
}

/// A state is always an `i32`, and a draw never leaves `0..=i32::MAX`.
pub proof fn law_draw_range(seed: i32, wall_clock: i32)
    ensures
        i32::MIN <= next_seed(seed as int, wall_clock as int) <= i32::MAX,
        0 <= draw_of(next_seed(seed as int, wall_clock as int)) <= i32::MAX,
{
    reveal(lcg);
}

/// A range of `n` values can be cut into equal parts.
proof fn lemma_divisor(n: int, draw: int)
    requires
        1 <= n <= i32::MAX,
        0 <= draw,
    ensures
        i32::MAX as int / n >= 1,
        draw / (i32::MAX as int / n) >= 0,
{
    let d: int = i32::MAX as int / n;
    assert(d >= 1) by (nonlinear_arith)
        requires
            d == i32::MAX as int / n,
            1 <= n <= i32::MAX as int,
    ;
    assert(draw / d >= 0) by (nonlinear_arith)
        requires
            d >= 1,
            0 <= draw,
    ;
}

/// Whatever is drawn, scaled to `from..=to` it stays inside that range.
pub proof fn law_scaled_draw_stays_in_range(from: i32, to: i32, draw: i32)
    requires
        from < to,
        to - from < i32::MAX,
        0 <= draw,
    ensures
        from <= scaled_draw(from as int, to as int, draw as int) <= to,
{
    reveal(scaled_draw);
    lemma_divisor(to - from + 1, draw as int);
}

/// The generator is the linear congruential one with factor 1664525 and
/// increment 1013904223, on 32 bits; a draw is the upper 31 of them.
pub proof fn law_generator_is_congruential(seed: i32, wall_clock: i32)
    ensures
        seed != 0 ==> (next_seed(seed as int, wall_clock as int) - (1664525 * seed + 1013904223)) % 0x1_0000_0000 == 0,
        seed == 0 ==> next_seed(0, wall_clock as int) == lcg(lcg(wall_clock as int)),
        (lcg(seed as int) - (1664525 * seed + 1013904223)) % 0x1_0000_0000 == 0,
        i32::MIN <= lcg(seed as int) <= i32::MAX,
        2 * (draw_of(seed as int) - 0x4000_0000) <= seed < 2 * (draw_of(seed as int) - 0x4000_0000) + 2,
{
    reveal(lcg);
    let x: int = 1664525 * seed + 1013904223;
    let m: int = 0x1_0000_0000;
    vstd::arithmetic::div_mod::lemma_fundamental_div_mod(x, m);
    assert(wrap32(x) - x == -m * (x / m) || wrap32(x) - x == -m * (x / m) - m);
    vstd::arithmetic::div_mod::lemma_mod_multiples_basic(-(x / m), m);
    vstd::arithmetic::div_mod::lemma_mod_multiples_basic(-(x / m) - 1, m);
    assert(-m * (x / m) == -(x / m) * m) by (nonlinear_arith);
    assert(-m * (x / m) - m == (-(x / m) - 1) * m) by (nonlinear_arith);
}

/// A range is cut into parts of equal size: draws of one part give one number,
/// the least draws the least number, and greater draws no lesser number.
pub proof fn law_draws_are_spread_evenly(from: int, to: int, a: int, b: int)
    requires
        from < to,
        to - from < i32::MAX,
        0 <= a <= b <= i32::MAX,
    ensures
        scaled_draw(from, to, 0) == from,
        scaled_draw(from, to, a) <= scaled_draw(from, to, b),
        ({
            let part = i32::MAX as int / (to - from + 1);
            a + part <= i32::MAX && scaled_draw(from, to, a) < to ==> scaled_draw(from, to, a + part) == scaled_draw(from, to, a)
                + 1
        }),
{
    reveal(scaled_draw);
    lemma_divisor(to - from + 1, a);
    let part = i32::MAX as int / (to - from + 1);
    vstd::arithmetic::div_mod::lemma_div_is_ordered(a, b, part);
    vstd::arithmetic::div_mod::lemma_div_plus_one(a, part);
    vstd::arithmetic::div_mod::lemma_basic_div(0, part);
    assert((a + part) / part == a / part + 1) by (nonlinear_arith)
        requires
            part >= 1,
            (part + a) / part == 1 + a / part,
    ;
}

} // verus!
