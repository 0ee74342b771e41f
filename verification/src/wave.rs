//! The wave effect: each row of the screen is rotated by an amount that
//! swings from row to row.

use vstd::prelude::*;

use crate::engine::{Engine, SceneState};
use crate::global::Globals;
use crate::surface::Surface;

verus! {

/// How far phase `k` of 32 rotates a row to the left, for a wave of amplitude
/// `w`: a parabola up, and its mirror image down.
pub open spec fn wave_shift(w: int, k: int) -> int {
    if k < 16 {
        (256 - (2 * k - 14) * (2 * k - 14)) * w / 256
    } else {
        320 - (256 - (2 * (k - 16) - 14) * (2 * (k - 16) - 14)) * w / 256
    }
}

/// The pixels of a screen under a wave of amplitude `w` at a phase.
pub open spec fn waved(pixels: Seq<u8>, w: int, phase: int) -> Seq<u8> {
    Seq::new(64000, |i: int| pixels[waved_from(w, phase, i)])
}

/// Where pixel `i` of a waved screen comes from.
pub open spec fn waved_from(w: int, phase: int, i: int) -> int {
    (i / 320) * 320 + (i % 320 + wave_shift(w, (phase + i / 320) % 32)) % 320
}

/// The shifts stay within a row.
proof fn lemma_wave_shift(w: int, k: int)
    requires
        0 <= w < 256,
        0 <= k < 32,
    ensures
        0 <= wave_shift(w, k) <= 320,
{
    let j = if k < 16 { k } else { k - 16 };
    let a = 256 - (2 * j - 14) * (2 * j - 14);
    assert(0 <= a <= 256) by (nonlinear_arith)
        requires
            0 <= j < 16,
            a == 256 - (2 * j - 14) * (2 * j - 14),
    ;
    assert(0 <= a * w <= 256 * 255) by (nonlinear_arith)
        requires
            0 <= a <= 256,
            0 <= w < 256,
    ;
}

/// The shift of phase `k`.
fn shift_at(w: u16, k: usize) -> (s: usize)
    requires
        w < 256,
        k < 32,
    ensures
        s == wave_shift(w as int, k as int),
        s <= 320,
{
    let j: i32 = if k < 16 {
        k as i32
    } else {
        k as i32 - 16
    };
    let d: i32 = 2 * j - 14;
    assert(d * d <= 256) by (nonlinear_arith)
        requires
            -14 <= d <= 16,
    ;
    assert(0 <= d * d) by (nonlinear_arith);
    let a: i32 = 256 - d * d;
    assert(0 <= a * w <= 256 * 255) by (nonlinear_arith)
        requires
            0 <= a <= 256,
            0 <= w < 256,
    ;
    let swing: i32 = a * w as i32 / 256;
    proof {
        lemma_wave_shift(w as int, k as int);
    }
    if k < 16 {
        swing as usize
    } else {
        (320 - swing) as usize
    }
}

impl Engine {
    /// The state is `before` with a picture on the screen, under the wave of
    /// the next frame. A wave that dies down or outgrows its range ends.
    pub open spec fn waved_over(&self, before: &Engine, picture: Seq<u8>) -> bool {
        let w = (before.globals.screen_wave + before.globals.wave_progression) % 0x1_0000;
        &&& if w == 0 || w >= 256 {
            &&& self.globals.screen_wave == 0
            &&& self.globals.wave_progression == 0
            &&& self.scene == before.scene
            &&& self.screen.pixels@ == picture
        } else {
            &&& self.globals.screen_wave == w
            &&& self.globals.wave_progression == before.globals.wave_progression
            &&& self.scene.wave_index == (before.scene.wave_index + 1) % 32
            &&& self.screen.pixels@ == waved(picture, w, before.scene.wave_index as int)
        }
        &&& *self == (Engine {
            globals: Globals {
                screen_wave: self.globals.screen_wave,
                wave_progression: self.globals.wave_progression,
                ..before.globals
            },
            scene: SceneState { wave_index: self.scene.wave_index, ..before.scene },
            screen: self.screen,
            ..*before
        })
    }

    /// Advance the wave effect and apply it to the screen.
    pub fn apply_wave(&mut self)
        requires
            old(self).wf(),
        ensures
            final(self).wf(),
            final(self).waved_over(old(self), old(self).screen.pixels@),
    {
        let w: u16 = grown_wave(self.globals.screen_wave, self.globals.wave_progression);
        if w == 0 || w >= 256 {
            self.globals.screen_wave = 0;
            self.globals.wave_progression = 0;
            return;
        }
        self.globals.screen_wave = w;
        let screen: Surface = wave_screen(&self.screen, w, self.scene.wave_index);
        self.screen = screen;
        self.scene.wave_index = (self.scene.wave_index + 1) % 32;
    }
}

/// The amplitude after a frame.
fn grown_wave(wave: u16, progression: i16) -> (w: u16)
    ensures
        w == (wave + progression) % 0x1_0000,
{
    let sum: i32 = wave as i32 + progression as i32;
    if sum < 0 {
        (sum + 0x1_0000) as u16
    } else if sum >= 0x1_0000 {
        (sum - 0x1_0000) as u16
    } else {
        sum as u16
    }
}

/// The screen under a wave.
fn wave_screen(screen: &Surface, w: u16, phase: usize) -> (r: Surface)
    requires
        screen.is_screen(),
        w < 256,
        phase < 32,
    ensures
        r.is_screen(),
        r.pixels@ == waved(screen.pixels@, w as int, phase as int),
{
    let mut pixels: Vec<u8> = Vec::new();
    for y in 0..200usize
        invariant
            screen.is_screen(),
            w < 256,
            phase < 32,
            pixels@.len() == 320 * y,
            forall|i: int| 0 <= i < 320 * y ==> #[trigger] pixels@[i] == waved(screen.pixels@, w as int, phase as int)[i],
    {
        let shift: usize = shift_at(w, (phase + y) % 32);
        for x in 0..320usize
            invariant
                screen.is_screen(),
                w < 256,
                phase < 32,
                y < 200,
                shift == wave_shift(w as int, (phase + y) % 32),
                shift <= 320,
                pixels@.len() == 320 * y + x,
                forall|i: int|
                    0 <= i < 320 * y + x ==> #[trigger] pixels@[i] == waved(screen.pixels@, w as int, phase as int)[i],
        {
            let ghost at = 320 * y + x;
            assert(at / 320 == y && at % 320 == x);
            pixels.push(screen.pixels[y * 320 + (x + shift) % 320]);
        }
    }
    assert(pixels@ =~= waved(screen.pixels@, w as int, phase as int));
    Surface { w: 320, h: 200, pixels }
}

/// A wave loses no pixel: every pixel of the screen shows up again, in its
/// row.
pub proof fn law_wave_keeps_every_pixel(w: int, phase: int, i: int)
    requires
        0 < w < 256,
        0 <= phase < 32,
        0 <= i < 64000,
    ensures
        exists|j: int| 0 <= j < 64000 && j / 320 == i / 320 && #[trigger] waved_from(w, phase, j) == i,
{
    let y = i / 320;
    let shift = wave_shift(w, (phase + y) % 32);
    lemma_wave_shift(w, (phase + y) % 32);
    let j = 320 * y + (i % 320 + 320 - shift) % 320;
    assert(j / 320 == y && j % 320 == (i % 320 + 320 - shift) % 320);
    assert(waved_from(w, phase, j) == i);
}

/// A wave goes out to one side and back, by its amplitude at most, and then the
/// same to the other side.
pub proof fn law_wave_goes_both_ways(w: int, k: int)
    requires
        0 <= w < 256,
        0 <= k < 16,
    ensures
        wave_shift(w, 7) == w,
        wave_shift(w, k + 16) == 320 - wave_shift(w, k),
        k <= 14 ==> wave_shift(w, 14 - k) == wave_shift(w, k),
        0 <= wave_shift(w, k) <= w,
        k < 7 ==> wave_shift(w, k) <= wave_shift(w, k + 1),
{
    let a = (256 - (2 * k - 14) * (2 * k - 14)) * w;
    assert((2 * (14 - k) - 14) * (2 * (14 - k) - 14) == (2 * k - 14) * (2 * k - 14)) by (nonlinear_arith);
    assert(0 <= (2 * k - 14) * (2 * k - 14) <= 256) by (nonlinear_arith)
        requires
            0 <= k < 16,
    ;
    let s = (2 * k - 14) * (2 * k - 14);
    assert(0 <= (256 - s) * w <= 256 * w) by (nonlinear_arith)
        requires
            0 <= s <= 256,
            0 <= w,
    ;
    assert((2 * 7 - 14) * (2 * 7 - 14) == 0) by (nonlinear_arith);
    assert((256 - 0) * w / 256 == w);
    assert(2 * (k + 16 - 16) - 14 == 2 * k - 14);
    if k < 7 {
        let n = (2 * (k + 1) - 14) * (2 * (k + 1) - 14);
        assert(n <= s) by (nonlinear_arith)
            requires
                0 <= k < 7,
                n == (2 * (k + 1) - 14) * (2 * (k + 1) - 14),
                s == (2 * k - 14) * (2 * k - 14),
        ;
        assert((256 - s) * w <= (256 - n) * w) by (nonlinear_arith)
            requires
                n <= s,
                0 <= w,
        ;
    }
}

/// Each row is moved as a whole: neighbours in it stay neighbours, around its
/// ends, and it comes from the row in the same place.
pub proof fn law_wave_moves_rows(w: int, phase: int, row: int, column: int)
    requires
        0 <= row < 200,
        0 <= column < 320,
        0 <= phase,
    ensures
        ({
            let from = waved_from(w, phase, 320 * row + column);
            &&& from / 320 == row
            &&& from % 320 == (column + wave_shift(w, (phase + row) % 32)) % 320
        }),
{
    let i = 320 * row + column;
    assert(i / 320 == row && i % 320 == column);
    let c = (column + wave_shift(w, (phase + row) % 32)) % 320;
    assert(0 <= c < 320);
    assert((row * 320 + c) / 320 == row && (row * 320 + c) % 320 == c);
}

/// A wave grows by its progression with every picture and goes round its 32
/// phases; it ends where it comes to nothing or to 256.
pub proof fn law_waves_grow_and_end(before: Engine, after: Engine, picture: Seq<u8>)
    requires
        after.waved_over(&before, picture),
        0 <= before.globals.screen_wave + before.globals.wave_progression < 0x1_0000,
    ensures
        ({
            let w = before.globals.screen_wave + before.globals.wave_progression;
            &&& 0 < w < 256 ==> after.globals.screen_wave == w && after.globals.wave_progression
                == before.globals.wave_progression
            &&& w == 0 || w >= 256 ==> after.globals.screen_wave == 0 && after.globals.wave_progression == 0
                && after.screen.pixels@ == picture
            &&& 0 < w < 256 && before.scene.wave_index < 31 ==> after.scene.wave_index == before.scene.wave_index + 1
            &&& 0 < w < 256 && before.scene.wave_index == 31 ==> after.scene.wave_index == 0
        }),
{
}

} // verus!
