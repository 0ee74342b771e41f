//! Music and sound effects: what is to play, and the samples of a playing
//! effect. Mixing is left to the caller.

use vstd::prelude::*;

use crate::engine::Engine;

verus! {

/// What to do with the music.
#[derive(Clone, Copy, Debug, PartialEq, Eq, Structural)]
pub enum MusicAction {
    Nothing,
    Stop,
    /// Play the song in a chunk of the archive.
    Play { chunk: usize },
}

/// A decoded sound effect: unsigned samples at a rate.
pub struct VocSound {
    pub rate: u32,
    pub samples: Vec<u8>,
}

/// A playing sound effect.
pub struct SoundInstance {
    /// Samples, centred.
    pub samples: Vec<i16>,
    /// The position in the samples, in parts of 65536.
    pub pos: u64,
    /// How far the position moves per frame of output.
    pub step: u64,
}

/// An unsigned sample, centred and scaled to 16 bits.
pub open spec fn centered(b: u8) -> i16 {
    ((b - 128) * 256) as i16
}

/// What is done to play a song; numbers below 1 stand for silence.
pub open spec fn music_action(num: i32, audio: bool, enabled: bool) -> MusicAction {
    if !audio {
        MusicAction::Nothing
    } else if !enabled || num <= 0 {
        MusicAction::Stop
    } else {
        MusicAction::Play { chunk: num as usize }
    }
}

impl SoundInstance {
    /// The position cannot overflow.
    pub open spec fn wf(&self) -> bool {
        &&& self.samples@.len() < 0x100_0000_0000
        &&& self.step <= 0x1_0000_0000_0000
    }

    /// The effect is over.
    pub open spec fn over(&self) -> bool {
        self.pos / 0x1_0000 >= self.samples@.len()
    }

    /// Start an effect for an output of a rate.
    pub fn from_voc(voc: &VocSound, out_rate: u32) -> (s: SoundInstance)
        ensures
            s.samples@ == voc.samples@.map_values(|b: u8| centered(b)),
            s.pos == 0,
            s.step == voc.rate * 0x1_0000 / (if out_rate > 1 { out_rate as int } else { 1 }),
            voc.samples@.len() < 0x100_0000_0000 ==> s.wf(),
    {
        let mut samples: Vec<i16> = Vec::new();
        for i in 0..voc.samples.len()
            invariant
                samples@.len() == i,
                forall|k: int| 0 <= k < i ==> #[trigger] samples@[k] == centered(voc.samples@[k]),
        {
            samples.push((voc.samples[i] as i16 - 128) * 256);
        }
        assert(samples@ =~= voc.samples@.map_values(|b: u8| centered(b)));
        let out: u64 = if out_rate > 1 {
            out_rate as u64
        } else {
            1
        };
        let parts: u64 = voc.rate as u64 * 0x1_0000;
        assert(parts / out <= parts) by (nonlinear_arith)
            requires
                out >= 1,
        ;
        SoundInstance { samples, pos: 0, step: parts / out }
    }

    /// The sample of the next frame of output; none when the effect is over.
    pub fn next_sample(&mut self) -> (v: Option<i16>)
        requires
            old(self).wf(),
        ensures
            final(self).wf(),
            v is None <==> old(self).over(),
            v matches Some(x) ==> {
                &&& x == old(self).samples@[old(self).pos as int / 0x1_0000]
                &&& *final(self) == (SoundInstance { pos: (old(self).pos + old(self).step) as u64, ..*old(self) })
                &&& final(self).pos == old(self).pos + old(self).step
            },
            v is None ==> *final(self) == *old(self),
    {
        let at: u64 = self.pos / 0x1_0000;
        let len: usize = self.samples.len();
        if at >= len as u64 {
            return None;
        }
        let v: i16 = self.samples[at as usize];
        self.pos = self.pos + self.step;
        Some(v)
    }

    /// Whether the effect is over.
    pub fn is_over(&self) -> (b: bool)
        ensures
            b == self.over(),
    {
        let len: usize = self.samples.len();
        self.pos / 0x1_0000 >= len as u64
    }
}

/// The frames of output that a time is worth.
pub open spec fn frames_at(now_ms: int, out_rate: int) -> int {
    now_ms * out_rate / 1000
}

/// How many frames of output have to be rendered to keep up with the clock,
/// when so many are already.
pub open spec fn due(now_ms: int, out_rate: int, rendered: int) -> int {
    if frames_at(now_ms, out_rate) > rendered {
        frames_at(now_ms, out_rate) - rendered
    } else {
        0
    }
}

/// How many frames of output have to be rendered to keep up with the clock,
/// when so many are already.
pub fn frames_due(now_ms: u64, out_rate: u32, rendered: u64) -> (n: u64)
    requires
        now_ms * out_rate <= u64::MAX,
    ensures
        n == due(now_ms as int, out_rate as int, rendered as int),
{
    let target: u64 = now_ms * out_rate as u64 / 1000;
    if target > rendered {
        target - rendered
    } else {
        0
    }
}

impl Engine {
    /// Remember the song that should play, and say what to do.
    pub fn play_music(&mut self, num: i32, audio: bool) -> (a: MusicAction)
        ensures
            a == music_action(num, audio, old(self).music_enabled),
            *final(self) == (Engine { cur_music: num, ..*old(self) }),
    {
        self.cur_music = num;
        if !audio {
            MusicAction::Nothing
        } else if !self.music_enabled || num <= 0 {
            MusicAction::Stop
        } else {
            MusicAction::Play { chunk: num as usize }
        }
    }

    /// The chunk of the archive that holds a sound effect which is to play.
    pub fn play_sound(&self, num: i32, audio: bool) -> (chunk: Option<usize>)
        ensures
            chunk == if self.sound_enabled && audio && num > 0 { Some(num as usize) } else { None },
    {
        if self.sound_enabled && audio && num > 0 {
            Some(num as usize)
        } else {
            None
        }
    }

    /// Turn the music off, or on again with the song that should play.
    pub fn enable_music(&mut self, enable: bool, audio: bool) -> (a: MusicAction)
        ensures
            a == music_action(old(self).cur_music, audio, enable),
            *final(self) == (Engine { music_enabled: enable, ..*old(self) }),
    {
        self.music_enabled = enable;
        let num: i32 = self.cur_music;
        self.play_music(num, audio)
    }

    /// Turn sound effects on or off.
    pub fn enable_sound(&mut self, enable: bool)
        ensures
            *final(self) == (Engine { sound_enabled: enable, ..*old(self) }),
    {
        self.sound_enabled = enable;
    }
}

/// Music that is turned off stays silent, whatever is asked for; turned on
/// again, it plays what was asked for last.
pub proof fn law_music_comes_back(num: i32)
    requires
        num > 0,
    ensures
        music_action(num, true, false) == MusicAction::Stop,
        music_action(num, true, true) == (MusicAction::Play { chunk: num as usize }),
{
}

/// Rendering what is due at two times renders as many frames as the clock has
/// come to, as if it had been done once.
pub proof fn law_rendering_keeps_pace(earlier: int, later: int, out_rate: int, rendered: int)
    requires
        0 <= earlier <= later,
        0 <= out_rate,
        rendered <= frames_at(earlier, out_rate),
    ensures
        rendered + due(earlier, out_rate, rendered) == frames_at(earlier, out_rate),
        due(earlier, out_rate, rendered) + due(later, out_rate, rendered + due(earlier, out_rate, rendered)) == due(
            later,
            out_rate,
            rendered,
        ),
{
    assert(earlier * out_rate <= later * out_rate) by (nonlinear_arith)
        requires
            earlier <= later,
            0 <= out_rate,
    ;
}

/// Samples are centred: the middle one is silence, and each further one is 256
/// louder.
pub proof fn law_samples_are_centred(b: u8)
    ensures
        centered(128) == 0,
        centered(b) == 256 * b - 0x8000,
        b < 255 ==> centered((b + 1) as u8) - centered(b) == 256,
{
}

/// A time is worth as many frames as the rate says for its milliseconds,
/// rounded down; a second is worth the rate.
pub proof fn law_frames_go_by_the_rate(now_ms: int, out_rate: int)
    requires
        0 <= now_ms,
        0 <= out_rate,
    ensures
        1000 * frames_at(now_ms, out_rate) <= now_ms * out_rate < 1000 * frames_at(now_ms, out_rate) + 1000,
        frames_at(1000, out_rate) == out_rate,
        frames_at(now_ms + 1000, out_rate) == frames_at(now_ms, out_rate) + out_rate,
{
    assert((now_ms + 1000) * out_rate == now_ms * out_rate + 1000 * out_rate) by (nonlinear_arith);
}

} // verus!
