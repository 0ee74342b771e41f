//! Presenting the screen, and the effects on the palette: fades in, out, to a
//! colour, to red, and from one palette to another. An effect is a value that
//! the caller carries; each of its turns sets the palette and says what to
//! present and how long to wait.

use vstd::prelude::*;

use crate::engine::{Engine, FRAME_TIME};
use crate::global::Globals;
use crate::input::Keyboard;
use crate::palette;
use crate::palette::Palette;
use crate::surface::Surface;

verus! {

/// A picture to present: the work surface or the backup, moved by a shake.
#[derive(Clone, Copy, Debug, PartialEq, Eq)]
pub struct Present {
    pub backup: bool,
    pub shake: Option<(u16, u16)>,
}

/// A turn of an effect: what to present, and for how many milliseconds; none
/// when the effect is over.
#[derive(Clone, Copy, Debug, PartialEq, Eq)]
pub struct Turn {
    pub present: Present,
    pub wait: Option<u64>,
}

/// A fade in or out that ends at a time.
pub struct Fade {
    /// The colours at full brightness.
    pub palette: Palette,
    pub delay: u64,
    pub end: u64,
}

/// A fade of the running scene.
pub struct SceneFade {
    pub palette: Palette,
    pub step: i32,
    /// The brightness of the next turn, in parts of 64.
    pub level: i32,
}

/// A fade from one palette to another, in 32 turns.
pub struct PaletteFade {
    pub from: Palette,
    pub to: Palette,
    /// The scene runs on meanwhile.
    pub update_scene: bool,
    pub turn: u8,
}

/// A fade that steps towards a goal a number of times.
pub struct StepFade {
    pub current: Palette,
    pub goal: Palette,
    pub by: u8,
    pub left: u8,
    /// Milliseconds per step.
    pub wait: u64,
    /// The goal itself is shown at the end.
    pub finish: bool,
}

impl Fade {
    /// The time has not run backwards since the fade began.
    pub open spec fn runs_at(&self, now: u64) -> bool {
        self.delay > 0 && self.end - now <= 600 * self.delay
    }

    /// How many of 60 parts of the time are left.
    pub open spec fn left(&self, now: int) -> int {
        (self.end - now) / (self.delay as int) / 10
    }

    /// How many of 60 parts of the time are left.
    fn parts_left(&self, now: u64) -> (n: u8)
        requires
            self.runs_at(now),
            now <= self.end,
        ensures
            n == self.left(now as int),
            n <= 60,
    {
        let rest: u64 = self.end - now;
        let delay: u64 = self.delay;
        assert(rest / delay <= 600) by (nonlinear_arith)
            requires
                delay > 0,
                rest <= 600 * delay,
        ;
        (rest / delay / 10) as u8
    }
}

impl SceneFade {
    /// A level inside the range was reached by steps that fit it.
    pub open spec fn wf(&self) -> bool {
        &&& self.step != 0
        &&& self.step > 0 ==> self.level >= 0 && (self.level == 0 || self.step < 64 || self.level >= 64)
        &&& self.step < 0 ==> self.level < 64
    }

    /// Whether there is another turn.
    pub open spec fn goes_on(&self) -> bool {
        if self.step > 0 {
            self.level < 64
        } else {
            self.level >= 0
        }
    }
}

/// The channels of the work surface in which nothing but the text colour is
/// replaced.
pub open spec fn text_spared(pixels: Seq<u8>) -> Seq<u8> {
    Seq::new(pixels.len(), |i: int| if pixels[i] == 0x4f { 0x4e } else { pixels[i] })
}

impl Engine {
    /// The shake that the next picture shows.
    pub open spec fn shake(&self) -> Option<(u16, u16)> {
        if self.shake_time != 0 {
            Some((self.shake_time, self.shake_level))
        } else {
            None
        }
    }

    /// The count of shaken pictures behind the next one.
    pub open spec fn shakes_left(&self) -> u16 {
        if self.shake_time != 0 {
            (self.shake_time - 1) as u16
        } else {
            0
        }
    }

    /// A picture was presented, and nothing else changed.
    pub open spec fn presented(&self, before: &Engine, present: Present) -> bool {
        &&& present.shake == before.shake()
        &&& *self == (Engine { shake_time: before.shakes_left(), ..*before })
    }

    /// The work surface was presented under a new palette, and nothing else
    /// changed.
    pub open spec fn recolored(&self, before: &Engine, present: Present) -> bool {
        &&& present == (Present { backup: false, shake: before.shake() })
        &&& *self == (Engine { palette: self.palette, shake_time: before.shakes_left(), ..*before })
    }

    /// Present a surface.
    pub fn video_present_surface(&mut self, which_bak: bool) -> (p: Present)
        ensures
            p.backup == which_bak,
            final(self).presented(old(self), p),
    {
        let shake: Option<(u16, u16)> = if self.shake_time != 0 {
            let s: (u16, u16) = (self.shake_time, self.shake_level);
            self.shake_time = self.shake_time - 1;
            Some(s)
        } else {
            None
        };
        Present { backup: which_bak, shake }
    }

    /// Present the work surface.
    pub fn video_update(&mut self) -> (p: Present)
        ensures
            !p.backup,
            final(self).presented(old(self), p),
    {
        self.video_present_surface(false)
    }

    /// Shake the next `time` pictures.
    pub fn shake_screen(&mut self, time: u16, level: u16)
        ensures
            *final(self) == (Engine { shake_time: time, shake_level: level, ..*old(self) }),
    {
        self.shake_time = time;
        self.shake_level = level;
    }

    /// Copy the work surface to the backup.
    pub fn backup_screen(&mut self)
        requires
            old(self).wf(),
        ensures
            final(self).wf(),
            final(self).screen_bak.pixels@ == old(self).screen.pixels@,
            *final(self) == (Engine { screen_bak: final(self).screen_bak, ..*old(self) }),
    {
        let mut copy: Surface = Surface::screen();
        copy.copy_from(&self.screen);
        self.screen_bak = copy;
    }

    /// Copy the backup to the work surface.
    pub fn restore_screen(&mut self)
        requires
            old(self).wf(),
        ensures
            final(self).wf(),
            final(self).screen.pixels@ == old(self).screen_bak.pixels@,
            *final(self) == (Engine { screen: final(self).screen, ..*old(self) }),
    {
        let mut copy: Surface = Surface::screen();
        copy.copy_from(&self.screen_bak);
        self.screen = copy;
    }

    /// Set the palette and present the work surface.
    pub fn set_raw_palette(&mut self, palette: Palette) -> (p: Present)
        ensures
            final(self).palette == palette,
            final(self).recolored(old(self), p),
    {
        self.palette = palette;
        self.video_update()
    }

    /// Set a palette of the game, if it is there.
    pub fn set_palette(&mut self, palette: Option<Palette>) -> (p: Option<Present>)
        ensures
            p is Some <==> palette is Some,
            match palette {
                Some(colors) => final(self).palette == colors && final(self).recolored(old(self), p->0),
                None => *final(self) == *old(self),
            },
    {
        match palette {
            Some(colors) => Some(self.set_raw_palette(colors)),
            None => None,
        }
    }

    /// Start to fade the current palette out.
    pub fn fade_out(&self, delay: u64, now: u64) -> (f: Fade)
        requires
            now + 600 * delay <= u64::MAX,
            now + 600 <= u64::MAX,
        ensures
            f.palette == self.palette,
            f.delay == if delay > 1 { delay } else { 1 },
            f.end == now + 600 * f.delay,
            f.runs_at(now),
    {
        let delay: u64 = if delay > 1 {
            delay
        } else {
            1
        };
        Fade { palette: self.palette, delay, end: now + delay * 600 }
    }

    /// A turn of a fade-out: as bright as time is left; black at the end.
    pub fn fade_out_turn(&mut self, fade: &Fade, now: u64) -> (t: Turn)
        requires
            fade.runs_at(now),
        ensures
            final(self).recolored(old(self), t.present),
            if now > fade.end {
                t.wait is None && palette::is_black(final(self).palette)
            } else {
                t.wait == Some(10u64) && palette::is_dimmed(final(self).palette, fade.palette, fade.left(now as int))
            },
    {
        if now > fade.end {
            let black: Palette = palette::all_black();
            return Turn { present: self.set_raw_palette(black), wait: None };
        }
        let colors: Palette = palette::dimmed(&fade.palette, fade.parts_left(now));
        Turn { present: self.set_raw_palette(colors), wait: Some(10) }
    }

    /// Start to fade a palette of the game in, if it is there.
    pub fn fade_in(&self, palette: Option<Palette>, delay: u64, now: u64) -> (f: Option<Fade>)
        requires
            now + 600 * delay <= u64::MAX,
            now + 600 <= u64::MAX,
        ensures
            f is Some <==> palette is Some,
            f matches Some(f) ==> {
                &&& palette == Some(f.palette)
                &&& f.delay == if delay > 1 { delay } else { 1 }
                &&& f.end == now + 600 * f.delay
                &&& f.runs_at(now)
            },
    {
        match palette {
            Some(palette) => {
                let delay: u64 = if delay > 1 {
                    delay
                } else {
                    1
                };
                Some(Fade { palette, delay, end: now + delay * 600 })
            },
            None => None,
        }
    }

    /// A turn of a fade-in: as bright as time is over; the whole palette at
    /// the end.
    pub fn fade_in_turn(&mut self, fade: &Fade, now: u64) -> (t: Turn)
        requires
            fade.runs_at(now),
        ensures
            final(self).recolored(old(self), t.present),
            if now > fade.end {
                t.wait is None && final(self).palette == fade.palette
            } else {
                t.wait == Some(10u64) && palette::is_dimmed(final(self).palette, fade.palette, 60 - fade.left(now as int))
            },
    {
        if now > fade.end {
            return Turn { present: self.set_raw_palette(fade.palette), wait: None };
        }
        let colors: Palette = palette::dimmed(&fade.palette, 60 - fade.parts_left(now));
        Turn { present: self.set_raw_palette(colors), wait: Some(10) }
    }

    /// Start to fade the scene, in by a positive step, out by a negative one.
    pub fn scene_fade(&mut self, palette: Option<Palette>, step: i32) -> (f: Option<SceneFade>)
        ensures
            f is Some <==> palette is Some,
            f matches Some(f) ==> {
                &&& f.wf()
                &&& palette == Some(f.palette)
                &&& f.step == if step == 0 { 1 } else { step }
                &&& f.level == if step >= 0 { 0int } else { 63 }
            },
            *final(self) == if palette is Some {
                Engine { globals: Globals { need_to_fade_in: false, ..old(self).globals }, ..*old(self) }
            } else {
                *old(self)
            },
    {
        match palette {
            Some(palette) => {
                self.globals.need_to_fade_in = false;
                let step: i32 = if step == 0 {
                    1
                } else {
                    step
                };
                let level: i32 = if step > 0 {
                    0
                } else {
                    63
                };
                Some(SceneFade { palette, step, level })
            },
            None => None,
        }
    }

    /// Only the keys and the walking direction are forgotten.
    pub open spec fn hands_off(&self, before: &Engine) -> bool {
        &&& self.wf()
        &&& self.input@ == (Keyboard { key_press: 0, pending_dir: 4, dir: 4, prev_dir: 4, ..before.input@ })
        &&& *self == (Engine { input: self.input, ..*before })
    }

    /// Forget the keys and the walking direction.
    fn let_go(&mut self)
        requires
            old(self).wf(),
        ensures
            final(self).hands_off(old(self)),
    {
        self.input.clear_key_state();
        self.input.reset_dir();
    }

    /// Begin a turn of a scene fade: forget the keys; the scene is then to be
    /// updated, drawn and presented. The turn lasts until the time that is
    /// handed back; none when the fade is over.
    pub fn scene_fade_turn(&mut self, fade: &SceneFade, now: u64) -> (deadline: Option<u64>)
        requires
            old(self).wf(),
            now <= u64::MAX - 100,
        ensures
            if fade.goes_on() {
                deadline == Some((now + 100) as u64) && final(self).hands_off(old(self))
            } else {
                deadline is None && *final(self) == *old(self)
            },
    {
        let on: bool = if fade.step > 0 {
            fade.level < 64
        } else {
            fade.level >= 0
        };
        if !on {
            return None;
        }
        self.let_go();
        Some(now + 100)
    }

    /// End a turn of a scene fade: show the scene at the fade's level.
    pub fn scene_fade_show(&mut self, fade: &mut SceneFade) -> (p: Present)
        requires
            old(fade).wf(),
            old(fade).goes_on(),
        ensures
            final(self).recolored(old(self), p),
            palette::is_dimmed(final(self).palette, old(fade).palette, old(fade).level as int),
            final(fade).wf(),
            *final(fade) == (SceneFade { level: (old(fade).level + old(fade).step) as i32, ..*old(fade) }),
            final(fade).level == old(fade).level + old(fade).step,
    {
        let colors: Palette = palette::dimmed(&fade.palette, fade.level as u8);
        fade.level = fade.level + fade.step;
        self.set_raw_palette(colors)
    }

    /// Start to fade from the current palette to one of the game, if it is
    /// there.
    pub fn palette_fade(&self, palette: Option<Palette>, update_scene: bool) -> (f: Option<PaletteFade>)
        ensures
            f == match palette {
                Some(to) => Some(PaletteFade { from: self.palette, to, update_scene, turn: 0 }),
                None => None,
            },
    {
        match palette {
            Some(to) => Some(PaletteFade { from: self.palette, to, update_scene, turn: 0 }),
            None => None,
        }
    }

    /// A turn of a fade between palettes: mix them, and forget the keys where
    /// the scene runs on; it is then to be updated and drawn. The work surface
    /// is presented until the time that is handed back; none when the fade is
    /// over.
    pub fn palette_fade_turn(&mut self, fade: &mut PaletteFade, now: u64) -> (deadline: Option<u64>)
        requires
            old(self).wf(),
            now <= u64::MAX - 100,
        ensures
            if old(fade).turn < 32 {
                &&& deadline == Some((now + if old(fade).update_scene { 100int } else { 25 }) as u64)
                &&& palette::is_mixed(final(self).palette, old(fade).from, old(fade).to, old(fade).turn as int)
                &&& final(self).wf()
                &&& final(self).input@ == if old(fade).update_scene {
                    Keyboard { key_press: 0, pending_dir: 4, dir: 4, prev_dir: 4, ..old(self).input@ }
                } else {
                    old(self).input@
                }
                &&& *final(self) == (Engine { palette: final(self).palette, input: final(self).input, ..*old(self) })
                &&& *final(fade) == (PaletteFade { turn: (old(fade).turn + 1) as u8, ..*old(fade) })
            } else {
                deadline is None && *final(self) == *old(self) && *final(fade) == *old(fade)
            },
    {
        if fade.turn >= 32 {
            return None;
        }
        let colors: Palette = palette::mixed(&fade.from, &fade.to, fade.turn);
        self.palette = colors;
        fade.turn = fade.turn + 1;
        if fade.update_scene {
            self.let_go();
            Some(now + FRAME_TIME)
        } else {
            Some(now + FRAME_TIME / 4)
        }
    }

    /// Start to fade a palette of the game, if it is there, from one of its
    /// colours or to it: 64 steps of 4.
    pub fn color_fade(&self, palette: Option<Palette>, delay: u64, color: u8, from: bool) -> (f: Option<StepFade>)
        requires
            10 * delay <= u64::MAX,
        ensures
            f is Some <==> palette is Some,
            f matches Some(f) ==> {
                &&& from ==> palette::is_filled(f.current, palette->0, color as int) && f.goal == palette->0
                &&& !from ==> f.current == palette->0 && palette::is_filled(f.goal, palette->0, color as int)
                &&& f.by == 4 && f.left == 64 && f.finish
                &&& f.wait == if delay > 0 { 10 * delay } else { 10 }
            },
    {
        match palette {
            Some(colors) => {
                let single: Palette = palette::filled(&colors, color);
                let wait: u64 = if delay > 0 {
                    10 * delay
                } else {
                    10
                };
                if from {
                    Some(StepFade { current: single, goal: colors, by: 4, left: 64, wait, finish: true })
                } else {
                    Some(StepFade { current: colors, goal: single, by: 4, left: 64, wait, finish: true })
                }
            },
            None => None,
        }
    }

    /// Start to fade a palette of the game, if it is there, to red: 32 steps of
    /// 8. The colour of the dialog text stays, so it is taken from everything
    /// else on the screen, which is presented.
    pub fn fade_to_red(&mut self, palette: Option<Palette>) -> (f: Option<(Present, StepFade)>)
        requires
            old(self).wf(),
        ensures
            final(self).wf(),
            f is Some <==> palette is Some,
            match f {
                Some((p, f)) => {
                    &&& f.current == palette->0
                    &&& palette::is_glowing(f.goal, palette->0)
                    &&& f.by == 8 && f.left == 32 && f.wait == 75 && !f.finish
                    &&& p == (Present { backup: false, shake: old(self).shake() })
                    &&& final(self).screen.pixels@ == text_spared(old(self).screen.pixels@)
                    &&& *final(self) == (Engine {
                        screen: final(self).screen,
                        shake_time: old(self).shakes_left(),
                        ..*old(self)
                    })
                },
                None => *final(self) == *old(self),
            },
    {
        match palette {
            Some(colors) => {
                let screen: Surface = spare_text(&self.screen);
                self.screen = screen;
                let goal: Palette = palette::glowing(&colors);
                let p: Present = self.video_update();
                Some((p, StepFade { current: colors, goal, by: 8, left: 32, wait: 75, finish: false }))
            },
            None => None,
        }
    }

    /// A turn of a fade by steps. Behind the last step the goal itself is
    /// shown, or nothing more.
    pub fn step_fade_turn(&mut self, fade: &mut StepFade) -> (t: Option<Turn>)
        ensures
            if old(fade).left > 0 {
                &&& t matches Some(t)
                &&& t.wait == Some(old(fade).wait)
                &&& final(self).recolored(old(self), t.present)
                &&& palette::is_stepped(final(fade).current, old(fade).current, old(fade).goal, old(fade).by as int)
                &&& final(self).palette == final(fade).current
                &&& *final(fade) == (StepFade {
                    current: final(fade).current,
                    left: (old(fade).left - 1) as u8,
                    ..*old(fade)
                })
            } else {
                &&& *final(fade) == *old(fade)
                &&& if old(fade).finish {
                    &&& t matches Some(t)
                    &&& t.wait is None
                    &&& final(self).recolored(old(self), t.present)
                    &&& final(self).palette == old(fade).goal
                } else {
                    t is None && *final(self) == *old(self)
                }
            },
    {
        if fade.left > 0 {
            let colors: Palette = palette::step_towards(&fade.current, &fade.goal, fade.by);
            fade.current = colors;
            fade.left = fade.left - 1;
            Some(Turn { present: self.set_raw_palette(colors), wait: Some(fade.wait) })
        } else if fade.finish {
            Some(Turn { present: self.set_raw_palette(fade.goal), wait: None })
        } else {
            None
        }
    }

    /// The palette that is to be faded in before the game goes on, if one is:
    /// its number, and whether it is the one of the night.
    pub fn take_fade_in(&mut self) -> (f: Option<(u16, bool)>)
        ensures
            f == if old(self).globals.need_to_fade_in {
                Some((old(self).globals.num_palette, old(self).globals.night_palette))
            } else {
                None
            },
            *final(self) == (Engine { globals: Globals { need_to_fade_in: false, ..old(self).globals }, ..*old(self) }),
    {
        if self.globals.need_to_fade_in {
            self.globals.need_to_fade_in = false;
            Some((self.globals.num_palette, self.globals.night_palette))
        } else {
            None
        }
    }

    /// The map of the scene is on the screen: wave it. The sprites are then to
    /// be drawn over it; if a palette is handed back, the screen is then to be
    /// presented and the palette faded in.
    pub fn make_scene(&mut self) -> (f: Option<(u16, bool)>)
        requires
            old(self).wf(),
        ensures
            final(self).wf(),
            f == if old(self).globals.need_to_fade_in {
                Some((old(self).globals.num_palette, old(self).globals.night_palette))
            } else {
                None
            },
            !final(self).globals.need_to_fade_in,
            (Engine {
                globals: Globals { need_to_fade_in: old(self).globals.need_to_fade_in, ..final(self).globals },
                ..*final(self)
            }).waved_over(old(self), old(self).screen.pixels@),
    {
        self.apply_wave();
        self.take_fade_in()
    }
}

/// Take the colour of the dialog text from a screen.
fn spare_text(screen: &Surface) -> (r: Surface)
    requires
        screen.is_screen(),
    ensures
        r.is_screen(),
        r.pixels@ == text_spared(screen.pixels@),
{
    let mut r: Surface = Surface::screen();
    for i in 0..64000usize
        invariant
            screen.is_screen(),
            r.is_screen(),
            forall|k: int| 0 <= k < i ==> #[trigger] r.pixels@[k] == text_spared(screen.pixels@)[k],
    {
        let v: u8 = screen.pixels[i];
        r.pixels[i] = if v == 0x4f {
            0x4e
        } else {
            v
        };
    }
    assert(r.pixels@ =~= text_spared(screen.pixels@));
    r
}

/// A fade moves one way: the later, the less is left of it; it begins with all
/// of its 60 parts and ends with none.
pub proof fn law_fade_moves_one_way(fade: Fade, earlier: int, later: int)
    requires
        fade.delay > 0,
        earlier <= later <= fade.end,
    ensures
        fade.left(later) <= fade.left(earlier),
        fade.left(fade.end as int) == 0,
        fade.left(fade.end - 600 * fade.delay) == 60,
{
    let d = fade.delay as int;
    let a = fade.end - earlier;
    let b = fade.end - later;
    assert(b / d <= a / d) by (nonlinear_arith)
        requires
            d > 0,
            0 <= b <= a,
    ;
    assert(0int / d == 0) by (nonlinear_arith)
        requires
            d > 0,
    ;
    assert((600 * d) / d == 600) by (nonlinear_arith)
        requires
            d > 0,
    ;
}

/// A shake wears off: after as many pictures as it was asked for, none is
/// shaken any more.
pub proof fn law_shake_wears_off(before: Engine, after: Engine, present: Present)
    requires
        after.presented(&before, present),
    ensures
        present.shake is Some <==> before.shake_time > 0,
        before.shake_time > 0 ==> after.shake_time == before.shake_time - 1,
        before.shake_time == 0 ==> after.shake_time == 0,
        after.shake_level == before.shake_level,
{
}

/// A screen that was backed up comes back as it was.
pub proof fn law_backup_comes_back(before: Engine, backed: Engine, drawn: Engine, restored: Engine)
    requires
        backed.screen_bak.pixels@ == before.screen.pixels@,
        drawn.screen_bak == backed.screen_bak,
        restored.screen.pixels@ == drawn.screen_bak.pixels@,
    ensures
        restored.screen.pixels@ == before.screen.pixels@,
{
}

/// Only the colour of the dialog text is replaced, by the one before it.
pub proof fn law_only_text_colour_is_replaced(pixels: Seq<u8>, i: int)
    requires
        0 <= i < pixels.len(),
    ensures
        text_spared(pixels).len() == pixels.len(),
        pixels[i] == 0x4f ==> text_spared(pixels)[i] == 0x4e,
        pixels[i] != 0x4f ==> text_spared(pixels)[i] == pixels[i],
{
}

/// A picture shows a shake as long as its count is not over, by its level.
pub proof fn law_shakes_show(e: Engine)
    ensures
        e.shake_time == 0 <==> e.shake() is None,
        e.shake() matches Some((time, level)) ==> time == e.shake_time && level == e.shake_level,
        e.shake_time > 0 ==> e.shakes_left() + 1 == e.shake_time,
        e.shake_time == 0 ==> e.shakes_left() == 0,
{
}

/// What is left of a fade, in parts of ten of its delays, rounded down.
pub proof fn law_fade_goes_by_its_delay(fade: Fade, parts: int)
    requires
        fade.delay > 0,
        parts >= 0,
    ensures
        fade.left(fade.end - 10 * parts * fade.delay) == parts,
{
    let d = fade.delay as int;
    assert(10 * parts * d == (10 * parts) * d) by (nonlinear_arith);
    vstd::arithmetic::div_mod::lemma_div_multiples_vanish(10 * parts, d);
    assert(((10 * parts) * d) / d == 10 * parts) by (nonlinear_arith)
        requires
            d > 0,
            (d * (10 * parts)) / d == 10 * parts,
    ;
}

} // verus!
