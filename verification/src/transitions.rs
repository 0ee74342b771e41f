//! Transitions between pictures: interleaved switches and fades, scrolling,
//! and the animation of the ending.

use vstd::prelude::*;

use crate::effects::Turn;
use crate::engine::Engine;
use crate::global::Globals;
use crate::surface;
use crate::surface::Surface;

verus! {

/// Which of six interleaved sets of pixels a round changes.
pub open spec fn lane(round: int) -> int {
    seq![0int, 3, 1, 5, 2, 4][round % 6]
}

fn lane_of(round: usize) -> (l: usize)
    ensures
        l == lane(round as int),
{
    match round % 6 {
        0 => 0,
        1 => 3,
        2 => 1,
        3 => 5,
        4 => 2,
        _ => 4,
    }
}

/// A picture in which a round has replaced its set of pixels by those of
/// another.
pub open spec fn switched(shown: Seq<u8>, picture: Seq<u8>, round: int) -> Seq<u8> {
    Seq::new(64000, |k: int| if k % 6 == lane(round) { picture[k] } else { shown[k] })
}

/// A pixel on its way to another: it takes the other's upper four bits at
/// once, and its lower four bits move by one, but not in the first pass.
pub open spec fn blended(goal: u8, pixel: u8, first: bool) -> u8 {
    let (g, l) = (goal as int % 16, pixel as int % 16);
    let low = if first || l == g {
        l
    } else if g > l {
        l + 1
    } else {
        l - 1
    };
    (16 * (goal as int / 16) + low) as u8
}

/// A picture in which a round has moved its set of pixels towards another.
pub open spec fn blended_round(shown: Seq<u8>, picture: Seq<u8>, round: int) -> Seq<u8> {
    Seq::new(64000, |k: int| if k % 6 == lane(round) { blended(picture[k], shown[k], round < 6) } else { shown[k] })
}

/// Row `i` of `incoming` has reached the edge of the screen, and pushes `old`
/// down from above, or up from below.
pub open spec fn scrolled(old: Seq<u8>, incoming: Seq<u8>, i: int, down: bool) -> Seq<u8> {
    Seq::new(
        64000,
        |k: int|
            if down {
                if k < 320 * i {
                    incoming[k + 320 * (200 - i)]
                } else {
                    old[k - 320 * i]
                }
            } else if k < 320 * (200 - i) {
                old[k + 320 * i]
            } else {
                incoming[k - 320 * (200 - i)]
            },
    )
}

fn blend_pixel(goal: u8, pixel: u8, first: bool) -> (r: u8)
    ensures
        r == blended(goal, pixel, first),
{
    let g: u8 = goal % 16;
    let l: u8 = pixel % 16;
    let low: u8 = if first || l == g {
        l
    } else if g > l {
        l + 1
    } else {
        l - 1
    };
    16 * (goal / 16) + low
}

fn switch_round(shown: &Surface, picture: &Surface, round: usize) -> (r: Surface)
    requires
        shown.is_screen(),
        picture.is_screen(),
    ensures
        r.is_screen(),
        r.pixels@ == switched(shown.pixels@, picture.pixels@, round as int),
{
    let l: usize = lane_of(round);
    let mut r: Surface = Surface::screen();
    for k in 0..64000usize
        invariant
            shown.is_screen(),
            picture.is_screen(),
            r.is_screen(),
            l == lane(round as int),
            forall|j: int|
                0 <= j < k ==> #[trigger] r.pixels@[j] == switched(shown.pixels@, picture.pixels@, round as int)[j],
    {
        r.pixels[k] = if k % 6 == l {
            picture.pixels[k]
        } else {
            shown.pixels[k]
        };
    }
    assert(r.pixels@ =~= switched(shown.pixels@, picture.pixels@, round as int));
    r
}

fn blend_round(shown: &Surface, picture: &Surface, round: usize) -> (r: Surface)
    requires
        shown.is_screen(),
        picture.is_screen(),
    ensures
        r.is_screen(),
        r.pixels@ == blended_round(shown.pixels@, picture.pixels@, round as int),
{
    let l: usize = lane_of(round);
    let mut r: Surface = Surface::screen();
    for k in 0..64000usize
        invariant
            shown.is_screen(),
            picture.is_screen(),
            r.is_screen(),
            l == lane(round as int),
            forall|j: int|
                0 <= j < k ==> #[trigger] r.pixels@[j] == blended_round(shown.pixels@, picture.pixels@, round as int)[j],
    {
        r.pixels[k] = if k % 6 == l {
            blend_pixel(picture.pixels[k], shown.pixels[k], round < 6)
        } else {
            shown.pixels[k]
        };
    }
    assert(r.pixels@ =~= blended_round(shown.pixels@, picture.pixels@, round as int));
    r
}

/// A picture on its way over another.
pub fn scroll_pictures(old_picture: &Surface, incoming: &Surface, i: usize, down: bool) -> (r: Surface)
    requires
        old_picture.is_screen(),
        incoming.is_screen(),
        i <= 200,
    ensures
        r.is_screen(),
        r.pixels@ == scrolled(old_picture.pixels@, incoming.pixels@, i as int, down),
{
    let mut r: Surface = Surface::screen();
    if down {
        surface::copy_rows(&old_picture.pixels, 0, &mut r, i, 200 - i);
        surface::copy_rows(&incoming.pixels, 200 - i, &mut r, 0, i);
    } else {
        surface::copy_rows(&old_picture.pixels, i, &mut r, 0, 200 - i);
        surface::copy_rows(&incoming.pixels, 0, &mut r, 200 - i, i);
    }
    assert(r.pixels@ =~= scrolled(old_picture.pixels@, incoming.pixels@, i as int, down));
    r
}

/// What a frame of the ending's animation draws over its background: the two
/// halves of the beast at the left edge, and the girl, 220 pixels from it.
#[derive(Clone, Copy, Debug, PartialEq, Eq, Structural)]
pub struct EndingFrame {
    pub beast_upper_y: i32,
    pub beast_lower_y: i32,
    pub girl_frame: usize,
    pub girl_y: i32,
    /// How long the frame lasts, in milliseconds.
    pub wait: u64,
}

/// The girl rises by a pixel every other frame, from 180 up to 80.
pub open spec fn girl_height(i: int) -> int {
    if 180 - (i + 1) / 2 > 80 {
        180 - (i + 1) / 2
    } else {
        80
    }
}

/// The frame of an effect sprite at a time: it changes every 150
/// milliseconds.
pub fn effect_frame(frames: usize, now: u64) -> (f: usize)
    requires
        frames <= 0x1_0000,
    ensures
        f == (now / 150) % (if frames > 0 { frames as u64 } else { 1 }),
        frames > 0 ==> f < frames,
{
    let count: u64 = if frames > 0 {
        frames as u64
    } else {
        1
    };
    ((now / 150) % count) as usize
}

impl Engine {
    /// Round `round` of six in which the backup takes over the work surface,
    /// which is presented.
    pub fn switch_screen(&mut self, round: usize, speed: u16) -> (t: Turn)
        requires
            old(self).wf(),
            round < 6,
        ensures
            final(self).wf(),
            t.present.backup,
            t.present.shake == old(self).shake(),
            t.wait == Some((10 * (speed + 1)) as u64),
            final(self).screen_bak.pixels@ == switched(
                old(self).screen_bak.pixels@,
                old(self).screen.pixels@,
                round as int,
            ),
            *final(self) == (Engine {
                screen_bak: final(self).screen_bak,
                shake_time: old(self).shakes_left(),
                ..*old(self)
            }),
    {
        let next: Surface = switch_round(&self.screen_bak, &self.screen, round);
        self.screen_bak = next;
        Turn { present: self.video_present_surface(true), wait: Some((speed as u64 + 1) * 10) }
    }

    /// Round `round` of a fade from the backup to the work surface: 72 rounds
    /// that blend the backup and present it, each lasting a while from its
    /// beginning; behind the last of them the work surface is presented at
    /// once.
    pub fn fade_screen(&mut self, round: usize, speed: u16) -> (t: Turn)
        requires
            old(self).wf(),
        ensures
            final(self).wf(),
            t.present.shake == old(self).shake(),
            if round < 72 {
                &&& t.present.backup
                &&& t.wait == Some(if round < 71 { (10 * (speed + 1)) as u64 } else { 0 })
                &&& final(self).screen_bak.pixels@ == blended_round(
                    old(self).screen_bak.pixels@,
                    old(self).screen.pixels@,
                    round as int,
                )
            } else {
                !t.present.backup && t.wait is None && final(self).screen_bak == old(self).screen_bak
            },
            *final(self) == (Engine {
                screen_bak: final(self).screen_bak,
                shake_time: old(self).shakes_left(),
                ..*old(self)
            }),
    {
        if round >= 72 {
            return Turn { present: self.video_update(), wait: None };
        }
        let next: Surface = blend_round(&self.screen_bak, &self.screen, round);
        self.screen_bak = next;
        let wait: u64 = if round < 71 {
            (speed as u64 + 1) * 10
        } else {
            0
        };
        Turn { present: self.video_present_surface(true), wait: Some(wait) }
    }

    /// Choose the sprite that is drawn over full-screen pictures.
    pub fn ending_set_effect_sprite(&mut self, sprite_num: u16)
        ensures
            *final(self) == (Engine { ending_effect_sprite: sprite_num, ..*old(self) }),
    {
        self.ending_effect_sprite = sprite_num;
    }

    /// The chunk of the effect sprite, if there is one.
    pub fn load_effect_sprite(&self) -> (chunk: Option<usize>)
        ensures
            chunk == if self.ending_effect_sprite != 0 { Some(self.ending_effect_sprite as usize) } else { None },
    {
        if self.ending_effect_sprite == 0 {
            None
        } else {
            Some(self.ending_effect_sprite as usize)
        }
    }

    /// Round `round` of 96 of the fade to a full-screen picture: the backup is
    /// blended and copied to the work surface, on which the effect sprite is
    /// then to be drawn. It is presented for as long as is handed back; none
    /// when the rounds are over, or there are none. The backup starts as a copy
    /// of the work surface.
    pub fn show_fbp(&mut self, picture: &Surface, fade: u16, round: usize) -> (wait: Option<u64>)
        requires
            old(self).wf(),
            picture.is_screen(),
        ensures
            final(self).wf(),
            if fade != 0 && round < 96 {
                &&& wait == Some((10 * (fade + 1)) as u64)
                &&& final(self).screen_bak.pixels@ == blended_round(
                    if round == 0 { old(self).screen.pixels@ } else { old(self).screen_bak.pixels@ },
                    picture.pixels@,
                    round as int,
                )
                &&& final(self).screen.pixels@ == final(self).screen_bak.pixels@
                &&& *final(self) == (Engine {
                    screen: final(self).screen,
                    screen_bak: final(self).screen_bak,
                    ..*old(self)
                })
            } else {
                wait is None && *final(self) == *old(self)
            },
    {
        if fade == 0 || round >= 96 {
            return None;
        }
        if round == 0 {
            self.backup_screen();
        }
        let next: Surface = blend_round(&self.screen_bak, picture, round);
        self.screen_bak = next;
        self.restore_screen();
        Some((fade as u64 + 1) * 10)
    }

    /// What is left to do behind the rounds: the work surface takes over the
    /// picture, except for picture 49, which stays as it was blended. It is
    /// then to be presented.
    pub fn show_fbp_done(&mut self, picture: &Surface, chunk_num: u16)
        requires
            old(self).wf(),
            picture.is_screen(),
        ensures
            final(self).wf(),
            final(self).screen.pixels@ == if chunk_num != 49 { picture.pixels@ } else { old(self).screen.pixels@ },
            *final(self) == (Engine { screen: final(self).screen, ..*old(self) }),
    {
        if chunk_num != 49 {
            let mut copy: Surface = Surface::screen();
            copy.copy_from(picture);
            self.screen = copy;
        }
    }

    /// Frame `l` of 220 in which a picture scrolls in over the backup, under
    /// the wave effect. The effect sprite is then to be drawn, the screen
    /// presented, and what has to be faded in faded in. The frame lasts as long
    /// as is handed back.
    pub fn scroll_fbp(&mut self, picture: &Surface, l: usize, scroll_speed: u16, scroll_down: bool) -> (wait: u64)
        requires
            old(self).wf(),
            picture.is_screen(),
        ensures
            final(self).wf(),
            wait == 800u64 / (if scroll_speed > 1 { scroll_speed as u64 } else { 1u64 }),
            final(self).waved_over(
                old(self),
                scrolled(
                    old(self).screen_bak.pixels@,
                    picture.pixels@,
                    if l < 200 { l as int } else { 200 },
                    scroll_down,
                ),
            ),
    {
        let i: usize = if l < 200 {
            l
        } else {
            200
        };
        let next: Surface = scroll_pictures(&self.screen_bak, picture, i, scroll_down);
        self.screen = next;
        self.apply_wave();
        let speed: u64 = if scroll_speed > 1 {
            scroll_speed as u64
        } else {
            1
        };
        800 / speed
    }

    /// Begin the ending's animation: a light wave.
    pub fn ending_animation(&mut self)
        ensures
            *final(self) == (Engine { globals: Globals { screen_wave: 2, ..old(self).globals }, ..*old(self) }),
    {
        self.globals.screen_wave = 2;
    }

    /// Frame `i` of 400 of the ending's animation: the background, half as far
    /// on, under the wave effect, and what is drawn over it. The girl's sprite
    /// has so many frames, of which the first four are shown for 50
    /// milliseconds each.
    pub fn ending_animation_frame(
        &mut self,
        upper: &Surface,
        lower: &Surface,
        i: usize,
        girl_frames: usize,
        now: u64,
    ) -> (f: EndingFrame)
        requires
            old(self).wf(),
            upper.is_screen(),
            lower.is_screen(),
            i < 400,
        ensures
            final(self).wf(),
            final(self).waved_over(old(self), scrolled(lower.pixels@, upper.pixels@, i as int / 2, true)),
            f.beast_upper_y == i - 400,
            f.beast_lower_y == i - 200,
            f.girl_y == girl_height(i as int),
            f.wait == 50,
            f.girl_frame == (now / 50) % (if girl_frames == 0 {
                1
            } else if girl_frames < 4 {
                girl_frames as u64
            } else {
                4
            }),
    {
        let next: Surface = scroll_pictures(lower, upper, i / 2, true);
        self.screen = next;
        self.apply_wave();
        let rise: i32 = (i as i32 + 1) / 2;
        let shown: u64 = if girl_frames == 0 {
            1
        } else if girl_frames < 4 {
            girl_frames as u64
        } else {
            4
        };
        EndingFrame {
            beast_upper_y: i as i32 - 400,
            beast_lower_y: i as i32 - 200,
            girl_frame: ((now / 50) % shown) as usize,
            girl_y: if 180 - rise > 80 {
                180 - rise
            } else {
                80
            },
            wait: 50,
        }
    }

    /// End the ending's animation: the wave stops.
    pub fn ending_animation_done(&mut self)
        ensures
            *final(self) == (Engine { globals: Globals { screen_wave: 0, ..old(self).globals }, ..*old(self) }),
    {
        self.globals.screen_wave = 0;
    }
}

/// Six rounds of a switch leave nothing of the old picture.
pub proof fn law_switch_is_complete(shown: Seq<u8>, picture: Seq<u8>)
    requires
        shown.len() == 64000,
        picture.len() == 64000,
    ensures
        switched(
            switched(
                switched(
                    switched(switched(switched(shown, picture, 0), picture, 1), picture, 2),
                    picture,
                    3,
                ),
                picture,
                4,
            ),
            picture,
            5,
        ) == picture,
{
    let a = switched(shown, picture, 0);
    let b = switched(a, picture, 1);
    let c = switched(b, picture, 2);
    let d = switched(c, picture, 3);
    let e = switched(d, picture, 4);
    assert(switched(e, picture, 5) =~= picture);
}

/// A picture after the first `n` rounds of a fade to another.
pub open spec fn faded(shown: Seq<u8>, picture: Seq<u8>, n: nat) -> Seq<u8>
    decreases n,
{
    if n == 0 {
        shown
    } else {
        blended_round(faded(shown, picture, (n - 1) as nat), picture, n - 1)
    }
}

/// A pixel after `n` passes towards another.
pub open spec fn passed(goal: u8, pixel: u8, n: nat) -> u8
    decreases n,
{
    if n == 0 {
        pixel
    } else {
        blended(goal, passed(goal, pixel, (n - 1) as nat), n == 1)
    }
}

/// Six rounds are a pass over every pixel.
proof fn lemma_rounds_are_passes(shown: Seq<u8>, picture: Seq<u8>, n: nat, k: int)
    requires
        shown.len() == 64000,
        0 <= k < 64000,
    ensures
        faded(shown, picture, 6 * n).len() == 64000,
        faded(shown, picture, 6 * n)[k] == passed(picture[k], shown[k], n),
    decreases n,
{
    if n > 0 {
        let m = (n - 1) as nat;
        lemma_rounds_are_passes(shown, picture, m, k);
        let r: int = 6 * (m as int);
        let a = blended_round(faded(shown, picture, 6 * m), picture, r);
        let b = blended_round(a, picture, r + 1);
        let c = blended_round(b, picture, r + 2);
        let d = blended_round(c, picture, r + 3);
        let e = blended_round(d, picture, r + 4);
        assert(faded(shown, picture, 6 * n) == blended_round(e, picture, r + 5)) by {
            reveal_with_fuel(faded, 7);
        }
    }
}

/// How far a pixel has come after `n` passes.
proof fn lemma_passes(goal: u8, pixel: u8, n: nat)
    requires
        n >= 1,
    ensures
        ({
            let (g, l) = (goal as int % 16, pixel as int % 16);
            let far = if g > l {
                g - l
            } else {
                l - g
            };
            let p = passed(goal, pixel, n);
            &&& p as int / 16 == goal as int / 16
            &&& p as int % 16 == if far <= n - 1 {
                g
            } else if g > l {
                l + (n - 1)
            } else {
                l - (n - 1)
            }
        }),
    decreases n,
{
    if n > 1 {
        lemma_passes(goal, pixel, (n - 1) as nat);
    } else {
        assert(passed(goal, pixel, 0) == pixel);
    }
}

/// The 96 rounds of a fade to a full-screen picture end with exactly that
/// picture, whatever was on the screen.
pub proof fn law_fade_reaches_the_picture(shown: Seq<u8>, picture: Seq<u8>)
    requires
        shown.len() == 64000,
        picture.len() == 64000,
    ensures
        faded(shown, picture, 96) == picture,
{
    assert forall|k: int| 0 <= k < 64000 implies #[trigger] faded(shown, picture, 96)[k] == picture[k] by {
        lemma_rounds_are_passes(shown, picture, 16, k);
        lemma_passes(picture[k], shown[k], 16);
    }
    lemma_rounds_are_passes(shown, picture, 16, 0);
    assert(faded(shown, picture, 96) =~= picture);
}

/// A scroll starts with the old picture and ends with the incoming one.
pub proof fn law_scroll_has_both_ends(shown: Seq<u8>, incoming: Seq<u8>, down: bool)
    requires
        shown.len() == 64000,
        incoming.len() == 64000,
    ensures
        scrolled(shown, incoming, 0, down) == shown,
        scrolled(shown, incoming, 200, down) == incoming,
{
    assert(scrolled(shown, incoming, 0, down) =~= shown);
    assert(scrolled(shown, incoming, 200, down) =~= incoming);
}

/// The sets of pixels come in a fixed order, over and over: 0, 3, 1, 5, 2, 4.
pub proof fn law_sets_of_pixels_take_turns(round: int)
    requires
        round >= 0,
    ensures
        0 <= lane(round) < 6,
        lane(round + 6) == lane(round),
        round % 6 == 0 ==> lane(round) == 0,
        round % 6 == 1 ==> lane(round) == 3,
        round % 6 == 2 ==> lane(round) == 1,
        round % 6 == 3 ==> lane(round) == 5,
        round % 6 == 4 ==> lane(round) == 2,
        round % 6 == 5 ==> lane(round) == 4,
{
}

/// A pixel on its way takes the hue of its goal at once; its shade stays in the
/// first pass, and comes one nearer to that of its goal in every other.
pub proof fn law_pixels_blend_by_shade(goal: u8, pixel: u8, first: bool)
    ensures
        ({
            let r = blended(goal, pixel, first);
            let (g, l, n) = (goal as int % 16, pixel as int % 16, r as int % 16);
            &&& r as int / 16 == goal as int / 16
            &&& first ==> n == l
            &&& !first && l < g ==> n == l + 1
            &&& !first && l > g ==> n == l - 1
            &&& !first && l == g ==> r == goal
        }),
{
}

/// A picture that scrolls in comes row by row: from above with its last rows
/// first, pushing the old picture down, or from below with its first rows
/// first, pushing it up.
pub proof fn law_pictures_scroll_by_rows(old: Seq<u8>, incoming: Seq<u8>, i: int, row: int, column: int)
    requires
        0 <= i <= 200,
        0 <= row < 200,
        0 <= column < 320,
    ensures
        row < i ==> scrolled(old, incoming, i, true)[320 * row + column] == incoming[320 * (200 - i + row) + column],
        row >= i ==> scrolled(old, incoming, i, true)[320 * row + column] == old[320 * (row - i) + column],
        row < 200 - i ==> scrolled(old, incoming, i, false)[320 * row + column] == old[320 * (row + i) + column],
        row >= 200 - i ==> scrolled(old, incoming, i, false)[320 * row + column] == incoming[320 * (row - (200 - i)) + column],
{
    assert(320 * row + column + 320 * (200 - i) == 320 * (200 - i + row) + column);
    assert(320 * row + column - 320 * i == 320 * (row - i) + column);
    assert(320 * row + column + 320 * i == 320 * (row + i) + column);
    assert(320 * row + column - 320 * (200 - i) == 320 * (row - (200 - i)) + column);
}

/// The girl starts at height 180, rises by one in two frames, and stays at 80.
pub proof fn law_girl_rises(i: int)
    requires
        i >= 0,
    ensures
        girl_height(0) == 180,
        girl_height(i) > 80 ==> girl_height(i + 2) == girl_height(i) - 1,
        girl_height(i) == 80 ==> girl_height(i + 1) == 80,
        80 <= girl_height(i) <= 180,
        girl_height(i) - girl_height(i + 1) == 0 || girl_height(i) - girl_height(i + 1) == 1,
{
}

} // verus!
