//! The title screen: two pictures scroll into place, cranes fly by and the
//! title grows. Its palette is faded in by the caller.

use vstd::prelude::*;

use crate::cues::Cue;
use crate::engine::Engine;
use crate::input::{Keyboard, KEY_MENU, KEY_SEARCH};
use crate::random;
use crate::random::Rng;
use crate::surface;
use crate::surface::Surface;
use crate::transitions;
use crate::wordio;

verus! {

/// A crane: where it is, and which frame of its sprite it shows.
#[derive(Clone, Copy, Debug, PartialEq, Eq, Structural)]
pub struct Crane {
    pub x: i32,
    pub y: i32,
    pub frame: i32,
}

/// The state of the title screen.
pub struct Splash {
    pub cranes: [Crane; 9],
    /// How many rows of the lower picture are seen.
    pub img_pos: usize,
    /// Frames shown so far.
    pub shown: u32,
    /// The number of frames of a crane that take turns.
    pub crane_frames: i32,
}

impl Splash {
    /// The cranes are where numbers can hold them, and may fly on.
    pub open spec fn wf(&self) -> bool {
        &&& 1 <= self.img_pos <= 200
        &&& self.shown < u32::MAX
        &&& 1 <= self.crane_frames <= 8
        &&& forall|i: int|
            0 <= i < 9 ==> {
                &&& i32::MIN < (#[trigger] self.cranes@[i]).x
                &&& self.cranes@[i].y < i32::MAX
                &&& 0 <= self.cranes@[i].frame < 0x1000_0000
            }
    }

    /// How many rows of the lower picture are seen in the next frame.
    pub open spec fn next_pos(&self) -> int {
        if self.img_pos > 1 {
            self.img_pos - 1
        } else {
            self.img_pos as int
        }
    }

    /// A crane as the next frame draws it: on every other frame it beats its
    /// wings, and it sinks with every other row of the picture.
    pub open spec fn drawn(&self, i: int) -> Crane {
        let c = self.cranes@[i];
        Crane {
            x: c.x,
            y: (c.y + if self.next_pos() > 1 && self.next_pos() % 2 == 1 { 1int } else { 0 }) as i32,
            frame: ((c.frame + self.shown % 2) % (self.crane_frames as int)) as i32,
        }
    }
}

/// One number of the generator comes right behind another.
pub open spec fn follows(seed: int, next: int) -> bool {
    exists|t: i32| #[trigger] random::next_seed(seed, t as int) == next
}

/// The crane that three numbers of the generator give.
pub open spec fn crane_of(a: int, b: int, c: int) -> Crane {
    Crane {
        x: random::scaled_draw(300, 600, random::draw_of(a)) as i32,
        y: random::scaled_draw(0, 80, random::draw_of(b)) as i32,
        frame: random::scaled_draw(0, 8, random::draw_of(c)) as i32,
    }
}

/// The numbers of the generator run on from `seed` to `last`, and give the
/// first `n` cranes.
pub open spec fn cranes_of(cranes: Seq<Crane>, seeds: Seq<int>, n: int) -> bool {
    &&& seeds.len() == 3 * n + 1
    &&& forall|k: int| 0 <= k < 3 * n ==> follows(#[trigger] seeds[k], seeds[k + 1])
    &&& forall|i: int|
        0 <= i < n ==> #[trigger] cranes[i] == crane_of(seeds[3 * i + 1], seeds[3 * i + 2], seeds[3 * i + 3])
}

/// A crane by the generator's next three numbers.
fn random_crane(rng: &mut Rng) -> (r: (Crane, Ghost<int>, Ghost<int>))
    ensures
        follows(old(rng).seed as int, r.1@),
        follows(r.1@, r.2@),
        follows(r.2@, final(rng).seed as int),
        r.0 == crane_of(r.1@, r.2@, final(rng).seed as int),
        300 <= r.0.x <= 600,
        0 <= r.0.y <= 80,
        0 <= r.0.frame <= 8,
{
    let x: i32 = random::random_long(rng, 300, 600);
    let ghost a = rng.seed as int;
    let y: i32 = random::random_long(rng, 0, 80);
    let ghost b = rng.seed as int;
    let frame: i32 = random::random_long(rng, 0, 8);
    (Crane { x, y, frame }, Ghost(a), Ghost(b))
}

/// Nine random cranes.
fn random_cranes(rng: &mut Rng) -> (cranes: [Crane; 9])
    ensures
        exists|seeds: Seq<int>|
            {
                &&& #[trigger] cranes_of(cranes@, seeds, 9)
                &&& seeds[0] == old(rng).seed
                &&& seeds[27] == final(rng).seed
            },
        forall|i: int|
            0 <= i < 9 ==> {
                &&& 300 <= (#[trigger] cranes@[i]).x <= 600
                &&& 0 <= cranes@[i].y <= 80
                &&& 0 <= cranes@[i].frame <= 8
            },
{
    let mut cranes: [Crane; 9] = [Crane { x: 300, y: 0, frame: 0 }; 9];
    let ghost mut seeds: Seq<int> = seq![rng.seed as int];
    for i in 0..9usize
        invariant
            cranes_of(cranes@, seeds, i as int),
            seeds[0] == old(rng).seed,
            seeds[3 * i as int] == rng.seed,
            forall|k: int|
                0 <= k < 9 ==> {
                    &&& 300 <= (#[trigger] cranes@[k]).x <= 600
                    &&& 0 <= cranes@[k].y <= 80
                    &&& 0 <= cranes@[k].frame <= 8
                },
    {
        let ghost before = seeds;
        let (crane, Ghost(a), Ghost(b)) = random_crane(rng);
        cranes[i] = crane;
        proof {
            seeds = before.push(a).push(b).push(rng.seed as int);
            assert forall|k: int| 0 <= k < 3 * (i + 1) implies follows(#[trigger] seeds[k], seeds[k + 1]) by {
                if k < 3 * i {
                    assert(follows(before[k], before[k + 1]));
                }
            }
            assert forall|k: int| 0 <= k < i + 1 implies #[trigger] cranes@[k] == crane_of(
                seeds[3 * k + 1],
                seeds[3 * k + 2],
                seeds[3 * k + 3],
            ) by {
                if k < i {
                    assert(seeds[3 * k + 1] == before[3 * k + 1]);
                    assert(seeds[3 * k + 2] == before[3 * k + 2]);
                    assert(seeds[3 * k + 3] == before[3 * k + 3]);
                }
            }
        }
    }
    assert(cranes_of(cranes@, seeds, 9));
    cranes
}

impl Engine {
    /// Begin the title screen: nine cranes from anywhere, and no key pressed
    /// yet. The cranes' sprite has so many frames, of which eight at most take
    /// turns.
    pub fn splash_screen(&mut self, sprite_frames: usize) -> (s: Splash)
        requires
            old(self).wf(),
        ensures
            final(self).wf(),
            s.wf(),
            s.img_pos == 200,
            s.shown == 0,
            s.crane_frames == if sprite_frames == 0 {
                1int
            } else if sprite_frames < 8 {
                sprite_frames as int
            } else {
                8
            },
            exists|seeds: Seq<int>|
                {
                    &&& #[trigger] cranes_of(s.cranes@, seeds, 9)
                    &&& seeds[0] == old(self).rng.seed
                    &&& seeds[27] == final(self).rng.seed
                },
            final(self).input@ == (Keyboard { key_press: 0, pending_dir: 4, ..old(self).input@ }),
            *final(self) == (Engine { rng: final(self).rng, input: final(self).input, ..*old(self) }),
    {
        let cranes: [Crane; 9] = random_cranes(&mut self.rng);
        let ghost seeds = choose|seeds: Seq<int>|
            {
                &&& #[trigger] cranes_of(cranes@, seeds, 9)
                &&& seeds[0] == old(self).rng.seed
                &&& seeds[27] == self.rng.seed
            };
        assert(cranes_of(cranes@, seeds, 9) && seeds[0] == old(self).rng.seed && seeds[27] == self.rng.seed);
        self.input.clear_key_state();
        let crane_frames: i32 = if sprite_frames == 0 {
            1
        } else if sprite_frames < 8 {
            sprite_frames as i32
        } else {
            8
        };
        let s: Splash = Splash { cranes, img_pos: 200, shown: 0, crane_frames };
        assert(cranes_of(s.cranes@, seeds, 9) && seeds[27] == self.rng.seed);
        s
    }

    /// A frame of the title screen: the background, and the cranes to draw over
    /// it. The cranes fly on to the left.
    pub fn splash_frame(&mut self, splash: &mut Splash, upper: &Surface, lower: &Surface) -> (drawn: [Crane; 9])
        requires
            old(self).wf(),
            old(splash).wf(),
            upper.is_screen(),
            lower.is_screen(),
        ensures
            final(self).wf(),
            final(self).screen.pixels@ == transitions::scrolled(
                upper.pixels@,
                lower.pixels@,
                old(splash).next_pos(),
                false,
            ),
            *final(self) == (Engine { screen: final(self).screen, ..*old(self) }),
            forall|i: int| 0 <= i < 9 ==> #[trigger] drawn@[i] == old(splash).drawn(i),
            final(splash).img_pos == old(splash).next_pos(),
            final(splash).shown == old(splash).shown + 1,
            final(splash).crane_frames == old(splash).crane_frames,
            forall|i: int|
                0 <= i < 9 ==> #[trigger] final(splash).cranes@[i] == (Crane {
                    x: (drawn@[i].x - 1) as i32,
                    ..drawn@[i]
                }),
    {
        let pos: usize = if splash.img_pos > 1 {
            splash.img_pos - 1
        } else {
            splash.img_pos
        };
        let screen: Surface = transitions::scroll_pictures(upper, lower, pos, false);
        self.screen = screen;
        let sink: i32 = if pos > 1 && pos % 2 == 1 {
            1
        } else {
            0
        };
        let beat: i32 = (splash.shown % 2) as i32;
        let n: i32 = splash.crane_frames;
        let mut drawn: [Crane; 9] = splash.cranes;
        let mut next: [Crane; 9] = splash.cranes;
        for i in 0..9usize
            invariant
                splash.wf(),
                *splash == *old(splash),
                pos == splash.next_pos(),
                sink == if pos > 1 && pos % 2 == 1 { 1int } else { 0 },
                beat == splash.shown % 2,
                n == splash.crane_frames,
                forall|k: int| 0 <= k < i ==> #[trigger] drawn@[k] == splash.drawn(k),
                forall|k: int|
                    0 <= k < i ==> #[trigger] next@[k] == (Crane { x: (splash.drawn(k).x - 1) as i32, ..splash.drawn(k) }),
        {
            let c: Crane = splash.cranes[i];
            let d: Crane = Crane { x: c.x, y: c.y + sink, frame: (c.frame + beat) % n };
            drawn[i] = d;
            next[i] = Crane { x: d.x - 1, ..d };
        }
        splash.cranes = next;
        splash.img_pos = pos;
        splash.shown = splash.shown + 1;
        drawn
    }

    /// Whether the title screen goes on, and until when its frame then lasts:
    /// a key leaves it. The screen began at `begin`, and its frame so many
    /// milliseconds later.
    pub fn splash_goes_on(&self, begin: u64, time: u64) -> (until: Option<u64>)
        requires
            begin + time + 85 <= u64::MAX,
        ensures
            until == if self.input@.key_press & (KEY_MENU | KEY_SEARCH) != 0 {
                None
            } else {
                Some((begin + time + 85) as u64)
            },
    {
        if self.input.pressed(KEY_MENU | KEY_SEARCH) {
            None
        } else {
            Some(begin + time + 85)
        }
    }
}

/// What starts with the title screen: its song.
pub fn splash_begin_cue() -> (cue: Cue)
    ensures
        cue == (Cue::Music { song: 5, looping: true, fade_secs: 2 }),
{
    Cue::Music { song: 5, looping: true, fade_secs: 2 }
}

/// How many palettes are shown in a hurry when the title screen is left after
/// so many milliseconds: every 250, up to its 15 seconds.
pub open spec fn rush_steps(time: u64) -> nat {
    if time < 15000 {
        ((15000 - time + 249) / 250) as nat
    } else {
        0
    }
}

/// The palettes that are shown in a hurry, each for a moment.
pub open spec fn rush_cues(time: u64, n: nat) -> Seq<Cue> {
    Seq::new(
        2 * n,
        |i: int|
            if i % 2 == 0 {
                Cue::TitlePalette { time: (time + 250 * (i / 2)) as u64 }
            } else {
                Cue::Delay { ms: 8 }
            },
    )
}

/// What follows when the title screen is left: the rest of its palettes and a
/// pause, unless it has come all the way, and then silence and darkness.
pub open spec fn leave_cues(time: u64) -> Seq<Cue> {
    let rush = rush_cues(time, rush_steps(time));
    let rest = if time < 15000 {
        rush.push(Cue::Delay { ms: 500 })
    } else {
        rush
    };
    rest.push(Cue::Music { song: 0, looping: false, fade_secs: 1 }).push(Cue::FadeOut { delay: 1 })
}

/// What follows when the title screen is left after so many milliseconds.
pub fn splash_leave_cues(time: u64) -> (cues: Vec<Cue>)
    ensures
        cues@ == leave_cues(time),
{
    let mut cues: Vec<Cue> = Vec::new();
    let mut t: u64 = time;
    let ghost mut n: nat = 0;
    assert(cues@ =~= rush_cues(time, 0));
    while t < 15000
        invariant
            t == time + 250 * n,
            n <= rush_steps(time),
            cues@ == rush_cues(time, n),
        decreases 15250 - t,
    {
        cues.push(Cue::TitlePalette { time: t });
        cues.push(Cue::Delay { ms: 8 });
        t = t + 250;
        proof {
            n = n + 1;
            assert(cues@ =~= rush_cues(time, n));
        }
    }
    assert(n == rush_steps(time));
    if time < 15000 {
        cues.push(Cue::Delay { ms: 500 });
    }
    cues.push(Cue::Music { song: 0, looping: false, fade_secs: 1 });
    cues.push(Cue::FadeOut { delay: 1 });
    cues
}

/// The image of the title, whose height is rewritten to make it grow.
pub struct Title {
    pub bytes: Vec<u8>,
    /// Where its height stands.
    pub at: usize,
    /// Its height when it is grown.
    pub full: u16,
}

/// Where the title's height stands: behind its width, and behind the mark in
/// front of it, if there is one.
pub open spec fn height_at(frame: Seq<u8>) -> int {
    if frame.len() >= 4 && frame[0] == 2 && frame[1] == 0 && frame[2] == 0 {
        6
    } else {
        2
    }
}

/// An image with another height.
pub open spec fn with_height(bytes: Seq<u8>, at: int, h: int) -> Seq<u8> {
    bytes.update(at, (h % 256) as u8).update(at + 1, (h / 256) as u8)
}

impl Title {
    pub open spec fn wf(&self) -> bool {
        &&& self.at == 2 || self.at == 6
        &&& self.at + 2 <= self.bytes@.len()
        &&& self.at == 6 ==> {
            &&& self.bytes@[0] == 2 && self.bytes@[1] == 0 && self.bytes@[2] == 0
            &&& self.bytes@[3] == 0 || self.full == surface::declared_height(self.bytes@)
        }
    }

    fn set_height(&mut self, h: u16)
        requires
            old(self).wf(),
        ensures
            final(self).wf(),
            final(self).bytes@ == with_height(old(self).bytes@, old(self).at as int, h as int),
            final(self).at == old(self).at,
            final(self).full == old(self).full,
    {
        let at: usize = self.at;
        self.bytes[at] = (h % 256) as u8;
        self.bytes[at + 1] = (h / 256) as u8;
    }

    /// The title of an image, shrunk to nothing.
    pub fn new(frame: &[u8]) -> (t: Title)
        requires
            height_at(frame@) + 2 <= frame@.len(),
        ensures
            t.wf(),
            t.at == height_at(frame@),
            t.full == surface::declared_height(frame@),
            t.bytes@ == with_height(frame@, height_at(frame@), 0),
    {
        let at: usize = if frame.len() >= 4 && frame[0] == 2 && frame[1] == 0 && frame[2] == 0 {
            6
        } else {
            2
        };
        let full: u16 = surface::rle_height(frame);
        let mut t: Title = Title { bytes: vstd::slice::slice_to_vec(frame), at, full };
        t.set_height(0);
        t
    }

    /// Let the title grow by a row, until it is grown.
    pub fn grow(&mut self)
        requires
            old(self).wf(),
        ensures
            final(self).wf(),
            final(self).bytes@ == if surface::declared_height(old(self).bytes@) < old(self).full {
                with_height(
                    old(self).bytes@,
                    old(self).at as int,
                    wordio::word_at(old(self).bytes@, old(self).at as int) + 1,
                )
            } else {
                old(self).bytes@
            },
            final(self).at == old(self).at,
            final(self).full == old(self).full,
    {
        if surface::rle_height(&self.bytes) < self.full {
            let at: usize = self.at;
            let w: u16 = self.bytes[at] as u16 + 256 * (self.bytes[at + 1] as u16);
            self.set_height(w + 1);
        }
    }

    /// Let the title be grown at once.
    pub fn finish(&mut self)
        requires
            old(self).wf(),
        ensures
            final(self).wf(),
            final(self).bytes@ == with_height(old(self).bytes@, old(self).at as int, old(self).full as int),
            final(self).at == old(self).at,
            final(self).full == old(self).full,
    {
        let full: u16 = self.full;
        self.set_height(full);
    }
}

/// When the title is left early, its palettes come in steps of 250 milliseconds
/// up to its 15 seconds, each for 8 milliseconds, and then there is a pause of
/// half a second; in any case the music goes out within a second, and the
/// screen fades.
pub proof fn law_title_rushes_to_its_end(time: u64, i: int)
    ensures
        ({
            let n = rush_steps(time) as int;
            let cues = leave_cues(time);
            &&& time >= 15000 ==> n == 0 && cues.len() == 2
            &&& time < 15000 ==> {
                &&& time + 250 * (n - 1) < 15000 <= time + 250 * n
                &&& cues.len() == 2 * n + 3
                &&& cues[2 * n] == (Cue::Delay { ms: 500 })
            }
            &&& 0 <= i < n ==> {
                &&& cues[2 * i] == (Cue::TitlePalette { time: (time + 250 * i) as u64 })
                &&& cues[2 * i + 1] == (Cue::Delay { ms: 8 })
            }
            &&& cues[cues.len() - 2] == (Cue::Music { song: 0, looping: false, fade_secs: 1 })
            &&& cues[cues.len() - 1] == (Cue::FadeOut { delay: 1 })
        }),
{
    let n = rush_steps(time) as int;
    if 0 <= i < n {
        assert((2 * i) % 2 == 0 && (2 * i) / 2 == i && (2 * i + 1) % 2 == 1);
    }
}

/// A crane comes from the right of the screen, at its top, with any of its
/// images.
pub proof fn law_cranes_come_from_the_right(a: i32, b: i32, c: i32)
    ensures
        300 <= crane_of(a as int, b as int, c as int).x <= 600,
        0 <= crane_of(a as int, b as int, c as int).y <= 80,
        0 <= crane_of(a as int, b as int, c as int).frame <= 8,
{
    random::law_scaled_draw_stays_in_range(300, 600, random::draw_of(a as int) as i32);
    random::law_scaled_draw_stays_in_range(0, 80, random::draw_of(b as int) as i32);
    random::law_scaled_draw_stays_in_range(0, 8, random::draw_of(c as int) as i32);
}

/// An image with another height declares it, low byte first, and is the same in
/// all other bytes.
pub proof fn law_height_is_declared(bytes: Seq<u8>, at: int, h: int)
    requires
        0 <= at,
        at + 2 <= bytes.len(),
        0 <= h < 0x1_0000,
    ensures
        with_height(bytes, at, h)[at] + 0x100 * with_height(bytes, at, h)[at + 1] == h,
        with_height(bytes, at, h).len() == bytes.len(),
        forall|i: int| 0 <= i < bytes.len() && i != at && i != at + 1 ==> #[trigger] with_height(bytes, at, h)[i] == bytes[i],
{
}

} // verus!
