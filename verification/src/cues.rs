//! Scripted sequences: the trademark screen and the ending, as lists of cues
//! that are performed one after another.

use vstd::prelude::*;

use crate::engine::Engine;
use crate::global::Globals;

verus! {

/// A step of a scripted sequence.
#[derive(Clone, Copy, Debug, PartialEq, Eq, Structural)]
pub enum Cue {
    /// Play a song, fading over so many seconds; 0 stops the music.
    Music { song: i32, looping: bool, fade_secs: u8 },
    /// Play the frames of an animation; without a last frame, all of them.
    Rng { num: u16, first: u16, last: Option<u16>, pace: u16 },
    SetPalette { num: u16, night: bool },
    FadeOut { delay: u64 },
    FadeIn { num: u16, night: bool, delay: u64 },
    /// Show a full-screen picture, by a fade unless that is 0.
    ShowFbp { chunk: u16, fade: u16 },
    /// Scroll a full-screen picture in.
    ScrollFbp { chunk: u16, speed: u16, down: bool },
    /// Make the work surface black.
    Clear,
    /// Choose the palette that is faded in next.
    NextPalette { num: u16 },
    /// The animation of the ending.
    Animation,
    ColorFade { delay: u64, color: u8, from: bool },
    EffectSprite { num: u16 },
    Backup,
    /// Wait for the search or menu key.
    WaitForKey,
    /// Forget the keys.
    ForgetKeys,
    Delay { ms: u64 },
    /// Show the palette that the title screen has after so many milliseconds.
    TitlePalette { time: u64 },
}

/// The trademark screen.
pub open spec fn trademark_cues() -> Seq<Cue> {
    seq![
        Cue::SetPalette { num: 3, night: false },
        Cue::Rng { num: 6, first: 0, last: None, pace: 25 },
        Cue::Delay { ms: 1000 },
        Cue::FadeOut { delay: 1 },
    ]
}

/// The ending, up to its credits; its first animation is the one that played
/// last.
pub open spec fn finale_cues(rng: u16) -> Seq<Cue> {
    seq![
        Cue::Music { song: 0x1a, looping: true, fade_secs: 0 },
        Cue::Rng { num: rng, first: 110, last: Some(150), pace: 7 },
        Cue::Rng { num: rng, first: 151, last: None, pace: 9 },
        Cue::FadeOut { delay: 2 },
        Cue::Music { song: 0x19, looping: true, fade_secs: 0 },
        Cue::ShowFbp { chunk: 75, fade: 0 },
        Cue::FadeIn { num: 5, night: false, delay: 1 },
        Cue::ScrollFbp { chunk: 74, speed: 15, down: true },
        Cue::FadeOut { delay: 1 },
        Cue::Clear,
        Cue::NextPalette { num: 4 },
        Cue::Animation,
        Cue::Music { song: 0, looping: false, fade_secs: 2 },
        Cue::ColorFade { delay: 7, color: 15, from: false },
        Cue::Music { song: 0x11, looping: true, fade_secs: 0 },
        Cue::Clear,
        Cue::SetPalette { num: 0, night: false },
        Cue::Rng { num: 11, first: 0, last: None, pace: 7 },
        Cue::FadeOut { delay: 2 },
        Cue::Clear,
        Cue::NextPalette { num: 8 },
        Cue::Rng { num: 10, first: 0, last: None, pace: 6 },
        Cue::EffectSprite { num: 0 },
        Cue::ShowFbp { chunk: 77, fade: 10 },
        Cue::Backup,
        Cue::EffectSprite { num: 0x27b },
        Cue::ShowFbp { chunk: 76, fade: 7 },
        Cue::SetPalette { num: 5, night: false },
        Cue::ShowFbp { chunk: 73, fade: 7 },
        Cue::ScrollFbp { chunk: 72, speed: 15, down: true },
        Cue::ShowFbp { chunk: 71, fade: 7 },
        Cue::ShowFbp { chunk: 68, fade: 7 },
        Cue::EffectSprite { num: 0 },
        Cue::ShowFbp { chunk: 68, fade: 6 },
        Cue::WaitForKey,
        Cue::ForgetKeys,
        Cue::Music { song: 0, looping: false, fade_secs: 1 },
        Cue::Delay { ms: 500 },
        Cue::Music { song: 9, looping: true, fade_secs: 0 },
    ]
}

/// The credits: pictures 67 down to 59 scroll by.
pub open spec fn credit_cues() -> Seq<Cue> {
    Seq::new(9, |i: int| Cue::ScrollFbp { chunk: (67 - i) as u16, speed: 15, down: true })
}

/// The whole ending.
pub open spec fn ending_cues(rng: u16) -> Seq<Cue> {
    finale_cues(rng) + credit_cues() + seq![
        Cue::Music { song: 0, looping: false, fade_secs: 6 },
        Cue::FadeOut { delay: 3 },
    ]
}

/// The trademark screen.
pub fn trademark_screen() -> (cues: Vec<Cue>)
    ensures
        cues@ == trademark_cues(),
{
    let cues: Vec<Cue> = vec![
        Cue::SetPalette { num: 3, night: false },
        Cue::Rng { num: 6, first: 0, last: None, pace: 25 },
        Cue::Delay { ms: 1000 },
        Cue::FadeOut { delay: 1 },
    ];
    assert(cues@ =~= trademark_cues());
    cues
}

fn finale(rng: u16) -> (cues: Vec<Cue>)
    ensures
        cues@ == finale_cues(rng),
{
    let cues: Vec<Cue> = vec![
        Cue::Music { song: 0x1a, looping: true, fade_secs: 0 },
        Cue::Rng { num: rng, first: 110, last: Some(150), pace: 7 },
        Cue::Rng { num: rng, first: 151, last: None, pace: 9 },
        Cue::FadeOut { delay: 2 },
        Cue::Music { song: 0x19, looping: true, fade_secs: 0 },
        Cue::ShowFbp { chunk: 75, fade: 0 },
        Cue::FadeIn { num: 5, night: false, delay: 1 },
        Cue::ScrollFbp { chunk: 74, speed: 15, down: true },
        Cue::FadeOut { delay: 1 },
        Cue::Clear,
        Cue::NextPalette { num: 4 },
        Cue::Animation,
        Cue::Music { song: 0, looping: false, fade_secs: 2 },
        Cue::ColorFade { delay: 7, color: 15, from: false },
        Cue::Music { song: 0x11, looping: true, fade_secs: 0 },
        Cue::Clear,
        Cue::SetPalette { num: 0, night: false },
        Cue::Rng { num: 11, first: 0, last: None, pace: 7 },
        Cue::FadeOut { delay: 2 },
        Cue::Clear,
        Cue::NextPalette { num: 8 },
        Cue::Rng { num: 10, first: 0, last: None, pace: 6 },
        Cue::EffectSprite { num: 0 },
        Cue::ShowFbp { chunk: 77, fade: 10 },
        Cue::Backup,
        Cue::EffectSprite { num: 0x27b },
        Cue::ShowFbp { chunk: 76, fade: 7 },
        Cue::SetPalette { num: 5, night: false },
        Cue::ShowFbp { chunk: 73, fade: 7 },
        Cue::ScrollFbp { chunk: 72, speed: 15, down: true },
        Cue::ShowFbp { chunk: 71, fade: 7 },
        Cue::ShowFbp { chunk: 68, fade: 7 },
        Cue::EffectSprite { num: 0 },
        Cue::ShowFbp { chunk: 68, fade: 6 },
        Cue::WaitForKey,
        Cue::ForgetKeys,
        Cue::Music { song: 0, looping: false, fade_secs: 1 },
        Cue::Delay { ms: 500 },
        Cue::Music { song: 9, looping: true, fade_secs: 0 },
    ];
    assert(cues@ =~= finale_cues(rng));
    cues
}

impl Engine {
    /// The ending.
    pub fn ending_screen(&self) -> (cues: Vec<Cue>)
        ensures
            cues@ == ending_cues(self.globals.cur_playing_rng as u16),
    {
        let rng: u16 = self.globals.cur_playing_rng as u16;
        let mut cues: Vec<Cue> = finale(rng);
        for i in 0..9u16
            invariant
                cues@ == finale_cues(rng) + credit_cues().take(i as int),
        {
            cues.push(Cue::ScrollFbp { chunk: 67 - i, speed: 15, down: true });
            assert(credit_cues().take(i + 1) =~= credit_cues().take(i as int).push(credit_cues()[i as int]));
            assert(cues@ =~= finale_cues(rng) + credit_cues().take(i + 1));
        }
        assert(credit_cues().take(9) =~= credit_cues());
        cues.push(Cue::Music { song: 0, looping: false, fade_secs: 6 });
        cues.push(Cue::FadeOut { delay: 3 });
        assert(cues@ =~= ending_cues(rng));
        cues
    }

    /// Choose the palette that is faded in next.
    pub fn next_palette(&mut self, num: u16)
        ensures
            *final(self) == (Engine {
                globals: Globals { num_palette: num, need_to_fade_in: true, ..old(self).globals },
                ..*old(self)
            }),
    {
        self.globals.num_palette = num;
        self.globals.need_to_fade_in = true;
    }
}

/// The ending ends in silence and darkness.
pub proof fn law_ending_falls_silent(rng: u16)
    ensures
        ending_cues(rng).len() == 50,
        ending_cues(rng)[48] == (Cue::Music { song: 0, looping: false, fade_secs: 6 }),
        ending_cues(rng)[49] == (Cue::FadeOut { delay: 3 }),
{
}

/// The trademark is shown under its palette, at 25 frames, for a second more,
/// and fades.
pub proof fn law_trademark_is_shown()
    ensures
        trademark_cues().len() == 4,
        trademark_cues()[0] == (Cue::SetPalette { num: 3, night: false }),
        trademark_cues()[1] == (Cue::Rng { num: 6, first: 0, last: None, pace: 25 }),
        trademark_cues()[2] == (Cue::Delay { ms: 1000 }),
        trademark_cues()[3] == (Cue::FadeOut { delay: 1 }),
{
}

/// The credits scroll by downwards, picture by picture, each the one before
/// the last, from 67 to 59.
pub proof fn law_credits_count_down(rng: u16, i: int)
    requires
        0 <= i < 9,
    ensures
        ending_cues(rng)[39 + i] == (Cue::ScrollFbp { chunk: (67 - i) as u16, speed: 15, down: true }),
        ending_cues(rng)[39] == (Cue::ScrollFbp { chunk: 67, speed: 15, down: true }),
        ending_cues(rng)[47] == (Cue::ScrollFbp { chunk: 59, speed: 15, down: true }),
{
}

/// The ending starts with its song and with the animation that played last,
/// from where that stopped to its end.
pub proof fn law_ending_goes_on_with_its_animation(rng: u16)
    ensures
        ending_cues(rng)[0] == (Cue::Music { song: 0x1a, looping: true, fade_secs: 0 }),
        ending_cues(rng)[1] == (Cue::Rng { num: rng, first: 110, last: Some(150), pace: 7 }),
        ending_cues(rng)[2] == (Cue::Rng { num: rng, first: 151, last: None, pace: 9 }),
        ending_cues(rng)[3] == (Cue::FadeOut { delay: 2 }),
        ending_cues(rng)[34] == Cue::WaitForKey,
        ending_cues(rng)[35] == Cue::ForgetKeys,
{
}

} // verus!
