//! Everything that a running game owns, apart from windows, sound devices and
//! files.

use vstd::prelude::*;

use crate::battle::Battle;
use crate::clock;
use crate::global::Globals;
use crate::input::InputState;
use crate::random::Rng;
use crate::res::Resources;
use crate::surface::Surface;
use crate::ui::{Texts, UiState};

verus! {

/// Scene frame time in milliseconds.
pub const FRAME_TIME: u64 = 100;
/// Battle frame time in milliseconds.
pub const BATTLE_FRAME_TIME: u64 = 40;

/// What the scene functions remember between frames.
#[derive(Clone, Copy, Debug, PartialEq, Eq, Structural)]
pub struct SceneState {
    /// The step of the walking gesture.
    pub this_step_frame: i32,
    /// The phase of the wave effect.
    pub wave_index: usize,
}

impl Default for SceneState {
    fn default() -> (s: SceneState)
        ensures
            s == (SceneState { this_step_frame: 0, wave_index: 0 }),
    {
        SceneState { this_step_frame: 0, wave_index: 0 }
    }
}

/// What the frame functions remember between frames: nothing.
#[derive(Clone, Copy, Debug, PartialEq, Eq, Structural)]
pub struct PlayState {}

/// A running game.
pub struct Engine {
    pub globals: Globals,
    pub res: Resources,
    pub texts: Texts,
    /// The work surface.
    pub screen: Surface,
    /// The backup surface.
    pub screen_bak: Surface,
    /// The current palette.
    pub palette: [[u8; 3]; 256],
    pub shake_time: u16,
    pub shake_level: u16,
    pub music_enabled: bool,
    pub sound_enabled: bool,
    /// The music that should play.
    pub cur_music: i32,
    pub input: InputState,
    pub rng: Rng,
    /// Multiplier of the game clock.
    pub tick_scale: u64,
    pub start: web_time::Instant,
    /// When the open session began.
    pub playtime_session_start: web_time::Instant,
    /// The user asked to quit.
    pub quit_requested: bool,
    /// The sprite drawn over full-screen pictures; 0 for none.
    pub ending_effect_sprite: u16,
    /// The running battle.
    pub battle: Option<Battle>,
    pub ui: UiState,
    pub scene: SceneState,
    pub play: PlayState,
}

/// The product of a clock reading and the clock's multiplier, as far as 64
/// bits hold it.
pub open spec fn scaled(ms: u64, scale: u64) -> int {
    if ms * scale <= u64::MAX {
        ms * scale
    } else {
        u64::MAX as int
    }
}

/// The sum of a stored play time and the open session, as far as 64 bits hold
/// it.
pub open spec fn summed_playtime(base: u64, session: u64) -> int {
    if base + session <= u64::MAX {
        base + session
    } else {
        u64::MAX as int
    }
}

/// Scale a clock reading.
pub fn scale_ticks(ms: u64, scale: u64) -> (t: u64)
    ensures
        t == scaled(ms, scale),
{
    match ms.checked_mul(scale) {
        Some(t) => t,
        None => u64::MAX,
    }
}

/// Add the open session to a stored play time.
pub fn add_session(base: u64, session: u64) -> (t: u64)
    ensures
        t == summed_playtime(base, session),
{
    base.saturating_add(session)
}

impl Engine {
    /// Screens have their size and the loaded map is whole.
    pub open spec fn wf(&self) -> bool {
        &&& self.screen.is_screen()
        &&& self.screen_bak.is_screen()
        &&& self.res.wf()
        &&& self.input@.wf()
        &&& self.scene.wave_index < 32
        &&& 0 <= self.scene.this_step_frame < 4
    }

    /// A game about to start.
    pub fn new(globals: Globals, texts: Texts, headless: bool, tick_scale: u64) -> (e: Engine)
        ensures
            e.wf(),
            e.globals == globals,
            e.texts == texts,
            e.res.is_empty(),
            forall|i: int| 0 <= i < 64000 ==> #[trigger] e.screen.pixels@[i] == 0,
            forall|i: int| 0 <= i < 64000 ==> #[trigger] e.screen_bak.pixels@[i] == 0,
            forall|i: int, c: int| 0 <= i < 256 && 0 <= c < 3 ==> #[trigger] e.palette@[i]@[c] == 0,
            e.shake_time == 0 && e.shake_level == 0,
            e.music_enabled && e.sound_enabled && e.cur_music == 0,
            e.input@ == crate::input::at_rest(),
            e.rng.seed == 0,
            e.tick_scale == tick_scale,
            !e.quit_requested,
            e.ending_effect_sprite == 0,
            e.battle is None,
            e.ui.is_idle(headless),
            e.scene == (SceneState { this_step_frame: 0, wave_index: 0 }),
    {
        Engine {
            globals,
            res: Resources::new(),
            texts,
            screen: Surface::screen(),
            screen_bak: Surface::screen(),
            palette: [[0u8; 3]; 256],
            shake_time: 0,
            shake_level: 0,
            music_enabled: true,
            sound_enabled: true,
            cur_music: 0,
            input: InputState::new(),
            rng: Rng::default(),
            tick_scale,
            start: clock::instant_now(),
            playtime_session_start: clock::instant_now(),
            quit_requested: false,
            ending_effect_sprite: 0,
            battle: None,
            ui: UiState::idle(headless),
            scene: SceneState::default(),
            play: PlayState {},
        }
    }

    /// Milliseconds of game time: by the wall clock, or by a virtual clock
    /// where one runs.
    pub fn ticks(&self, virtual_ms: Option<u64>) -> (t: u64)
        ensures
            virtual_ms matches Some(v) ==> t == scaled(v, if self.tick_scale > 1 { self.tick_scale } else { 1 }),
            virtual_ms is None ==> exists|ms: u64| t == #[trigger] scaled(ms, self.tick_scale),
    {
        match virtual_ms {
            Some(v) => scale_ticks(v, if self.tick_scale > 1 { self.tick_scale } else { 1 }),
            None => {
                let ms: u64 = clock::milliseconds_since(&self.start);
                scale_ticks(ms, self.tick_scale)
            },
        }
    }

    /// The play time of this save lineage in seconds.
    pub fn playtime_secs(&self) -> (secs: u64)
        ensures
            exists|session: u64| secs == #[trigger] summed_playtime(self.globals.playtime_secs, session),
            secs >= self.globals.playtime_secs,
    {
        let session: u64 = clock::seconds_since(&self.playtime_session_start);
        add_session(self.globals.playtime_secs, session)
    }

    /// Fold the open session into the stored play time and start a new one.
    pub fn playtime_commit_session(&mut self)
        ensures
            exists|session: u64|
                final(self).globals.playtime_secs == #[trigger] summed_playtime(old(self).globals.playtime_secs, session),
            *final(self) == (Engine {
                globals: Globals { playtime_secs: final(self).globals.playtime_secs, ..old(self).globals },
                playtime_session_start: final(self).playtime_session_start,
                ..*old(self)
            }),
    {
        let secs: u64 = self.playtime_secs();
        self.globals.playtime_secs = secs;
        self.playtime_session_start = clock::instant_now();
    }

    /// Set the stored play time and start a session.
    pub fn playtime_begin_session(&mut self, base_secs: u64)
        ensures
            *final(self) == (Engine {
                globals: Globals { playtime_secs: base_secs, ..old(self).globals },
                playtime_session_start: final(self).playtime_session_start,
                ..*old(self)
            }),
    {
        self.globals.playtime_secs = base_secs;
        self.playtime_session_start = clock::instant_now();
    }

    /// Hours (as far as 32 bits hold them) and minutes of a play time.
    pub fn playtime_hhmm(secs: u64) -> (r: (u32, u32))
        ensures
            r.0 == if secs / 3600 < u32::MAX { secs / 3600 } else { u32::MAX as u64 },
            r.1 == (secs % 3600) / 60,
            r.1 < 60,
    {
        let hours: u64 = secs / 3600;
        let hours: u32 = if hours < u32::MAX as u64 {
            hours as u32
        } else {
            u32::MAX
        };
        (hours, ((secs % 3600) / 60) as u32)
    }
}

/// Play time never runs backwards: committing a session adds to it, and
/// committing two sessions adds up.
pub proof fn law_playtime_adds_up(base: u64, first: u64, second: u64)
    ensures
        summed_playtime(base, first) >= base,
        base + first + second <= u64::MAX ==> summed_playtime(summed_playtime(base, first) as u64, second) == base + first
            + second,
{
}

/// A scaled clock runs as many times as fast as its multiplier says, and a
/// stored play time grows by the session, until 64 bits are full.
pub proof fn law_clocks_fill_up(ms: u64, scale: u64, base: u64, session: u64)
    ensures
        ms * scale <= u64::MAX ==> scaled(ms, scale) == ms * scale,
        ms * scale > u64::MAX ==> scaled(ms, scale) == u64::MAX,
        scaled(ms, 1) == ms,
        base + session <= u64::MAX ==> summed_playtime(base, session) == base + session,
        base + session > u64::MAX ==> summed_playtime(base, session) == u64::MAX,
{
}

} // verus!
