//! Keyboard state: which keys were pressed, with repeat timing, and the
//! walking direction that follows the most recently pressed key.

use vstd::prelude::*;

use crate::keys::{KeyCode, KeyEvent};

verus! {

pub const KEY_MENU: u32 = 1;
pub const KEY_SEARCH: u32 = 2;
pub const KEY_DOWN: u32 = 4;
pub const KEY_LEFT: u32 = 8;
pub const KEY_UP: u32 = 16;
pub const KEY_RIGHT: u32 = 32;
pub const KEY_PGUP: u32 = 64;
pub const KEY_PGDN: u32 = 128;
pub const KEY_REPEAT: u32 = 256;
pub const KEY_AUTO: u32 = 512;
pub const KEY_DEFEND: u32 = 1024;
pub const KEY_USE_ITEM: u32 = 2048;
pub const KEY_THROW_ITEM: u32 = 4096;
pub const KEY_FLEE: u32 = 8192;
pub const KEY_STATUS: u32 = 16384;
pub const KEY_FORCE: u32 = 32768;
pub const KEY_HOME: u32 = 65536;
pub const KEY_END: u32 = 131072;

// Directions.
pub const DIR_SOUTH: usize = 0;
pub const DIR_WEST: usize = 1;
pub const DIR_NORTH: usize = 2;
pub const DIR_EAST: usize = 3;
pub const DIR_UNKNOWN: usize = 4;

/// A direction key must stay held this long before the held state (as opposed
/// to the initial press) walks another step, so that a tap that straddles a
/// frame is not counted twice.
pub const HOLD_WALK_MS: u64 = 150;

pub const KEY_MAP_LEN: usize = 33;

/// The keyboard map: physical key and the game key it stands for.
pub open spec fn key_table() -> Seq<(KeyCode, u32)> {
    seq![
        (KeyCode::ArrowUp, KEY_UP),
        (KeyCode::Numpad8, KEY_UP),
        (KeyCode::ArrowDown, KEY_DOWN),
        (KeyCode::Numpad2, KEY_DOWN),
        (KeyCode::ArrowLeft, KEY_LEFT),
        (KeyCode::Numpad4, KEY_LEFT),
        (KeyCode::ArrowRight, KEY_RIGHT),
        (KeyCode::Numpad6, KEY_RIGHT),
        (KeyCode::Escape, KEY_MENU),
        (KeyCode::Insert, KEY_MENU),
        (KeyCode::AltLeft, KEY_MENU),
        (KeyCode::AltRight, KEY_MENU),
        (KeyCode::Numpad0, KEY_MENU),
        (KeyCode::Enter, KEY_SEARCH),
        (KeyCode::Space, KEY_SEARCH),
        (KeyCode::NumpadEnter, KEY_SEARCH),
        (KeyCode::ControlLeft, KEY_SEARCH),
        (KeyCode::PageUp, KEY_PGUP),
        (KeyCode::Numpad9, KEY_PGUP),
        (KeyCode::PageDown, KEY_PGDN),
        (KeyCode::Numpad3, KEY_PGDN),
        (KeyCode::Home, KEY_HOME),
        (KeyCode::Numpad7, KEY_HOME),
        (KeyCode::End, KEY_END),
        (KeyCode::Numpad1, KEY_END),
        (KeyCode::KeyR, KEY_REPEAT),
        (KeyCode::KeyA, KEY_AUTO),
        (KeyCode::KeyD, KEY_DEFEND),
        (KeyCode::KeyE, KEY_USE_ITEM),
        (KeyCode::KeyW, KEY_THROW_ITEM),
        (KeyCode::KeyQ, KEY_FLEE),
        (KeyCode::KeyF, KEY_FORCE),
        (KeyCode::KeyS, KEY_STATUS),
    ]
}

/// The keyboard map.
pub fn key_map() -> (table: [(KeyCode, u32); 33])
    ensures
        table@ == key_table(),
{
    let table: [(KeyCode, u32); 33] = [
        (KeyCode::ArrowUp, KEY_UP),
        (KeyCode::Numpad8, KEY_UP),
        (KeyCode::ArrowDown, KEY_DOWN),
        (KeyCode::Numpad2, KEY_DOWN),
        (KeyCode::ArrowLeft, KEY_LEFT),
        (KeyCode::Numpad4, KEY_LEFT),
        (KeyCode::ArrowRight, KEY_RIGHT),
        (KeyCode::Numpad6, KEY_RIGHT),
        (KeyCode::Escape, KEY_MENU),
        (KeyCode::Insert, KEY_MENU),
        (KeyCode::AltLeft, KEY_MENU),
        (KeyCode::AltRight, KEY_MENU),
        (KeyCode::Numpad0, KEY_MENU),
        (KeyCode::Enter, KEY_SEARCH),
        (KeyCode::Space, KEY_SEARCH),
        (KeyCode::NumpadEnter, KEY_SEARCH),
        (KeyCode::ControlLeft, KEY_SEARCH),
        (KeyCode::PageUp, KEY_PGUP),
        (KeyCode::Numpad9, KEY_PGUP),
        (KeyCode::PageDown, KEY_PGDN),
        (KeyCode::Numpad3, KEY_PGDN),
        (KeyCode::Home, KEY_HOME),
        (KeyCode::Numpad7, KEY_HOME),
        (KeyCode::End, KEY_END),
        (KeyCode::Numpad1, KEY_END),
        (KeyCode::KeyR, KEY_REPEAT),
        (KeyCode::KeyA, KEY_AUTO),
        (KeyCode::KeyD, KEY_DEFEND),
        (KeyCode::KeyE, KEY_USE_ITEM),
        (KeyCode::KeyW, KEY_THROW_ITEM),
        (KeyCode::KeyQ, KEY_FLEE),
        (KeyCode::KeyF, KEY_FORCE),
        (KeyCode::KeyS, KEY_STATUS),
    ];
    assert(table@ =~= key_table());
    table
}

/// The direction that a game key stands for; 4 if it is no direction key.
pub open spec fn key_dir(key: u32) -> int {
    if key == KEY_DOWN {
        0
    } else if key == KEY_LEFT {
        1
    } else if key == KEY_UP {
        2
    } else if key == KEY_RIGHT {
        3
    } else {
        4
    }
}

/// When a direction pressed at `down_ms` walks by being held.
pub open spec fn walks_from(down_ms: u64) -> int {
    if down_ms + 150 < u64::MAX {
        down_ms + 150
    } else {
        u64::MAX as int
    }
}

/// The state of the keyboard, as contracts speak of it.
#[verifier::ext_equal]
pub struct Keyboard {
    pub dir: int,
    pub prev_dir: int,
    pub key_press: u32,
    /// The most recent direction press that no frame has used yet; 4 if none.
    pub pending_dir: int,
    pub down: Seq<bool>,
    pub dir_down_ms: Seq<u64>,
    pub last_time: Seq<u64>,
    pub key_order: Seq<u32>,
    pub key_max_count: int,
    pub enable_key_repeat: bool,
}

/// The direction whose key was pressed last among those held; 4 if none is.
pub open spec fn newest_dir(order: Seq<u32>) -> int {
    let a: int = if order[0] < order[1] { 1 } else { 0 };
    let b: int = if order[a] < order[2] { 2 } else { a };
    let c: int = if order[b] < order[3] { 3 } else { b };
    if order[c] == 0 {
        4
    } else {
        c
    }
}

impl Keyboard {
    /// A key of the map changes its state.
    pub open spec fn with_event(self, i: int, pressed: bool) -> Keyboard {
        let dir = key_dir(key_table()[i].1);
        Keyboard {
            pending_dir: if pressed && !self.down[i] && dir != 4 { dir } else { self.pending_dir },
            down: self.down.update(i, pressed),
            ..self
        }
    }

    /// A key event, as the first `n` entries of the map see it.
    pub open spec fn handled(self, code: KeyCode, pressed: bool, n: int) -> Keyboard
        decreases n,
    {
        if n <= 0 {
            self
        } else {
            let s = self.handled(code, pressed, n - 1);
            if key_table()[n - 1].0 == code {
                s.with_event(n - 1, pressed)
            } else {
                s
            }
        }
    }

    /// A tap, as the first `n` entries of the map see it.
    pub open spec fn tapped(self, code: KeyCode, n: int) -> Keyboard
        decreases n,
    {
        if n <= 0 {
            self
        } else {
            let s = self.tapped(code, n - 1);
            let (key, mapped) = key_table()[n - 1];
            if key == code {
                Keyboard {
                    key_press: s.key_press | mapped,
                    pending_dir: if key_dir(mapped) != 4 { key_dir(mapped) } else { s.pending_dir },
                    ..s
                }
            } else {
                s
            }
        }
    }

    /// The current direction: a pending one, or the walking direction.
    pub open spec fn current_dir(self) -> int {
        if self.pending_dir != 4 {
            self.pending_dir
        } else {
            self.dir
        }
    }

    /// The direction for one movement frame: a pending one, or that of a key
    /// held long enough.
    pub open spec fn frame_dir(self, now: u64) -> int {
        if self.pending_dir != 4 {
            self.pending_dir
        } else if self.dir != 4 && now >= walks_from(self.dir_down_ms[self.dir]) {
            self.dir
        } else {
            4
        }
    }

    /// A game key goes down, for the first time or as a repeat.
    pub open spec fn key_down(self, key: u32, repeat: bool, now: u64) -> Keyboard {
        let d = key_dir(key);
        if !repeat && d != 4 {
            let order = self.key_order.update(d, (self.key_max_count + 1) as u32);
            Keyboard {
                dir_down_ms: self.dir_down_ms.update(d, now),
                key_max_count: self.key_max_count + 1,
                key_order: order,
                dir: newest_dir(order),
                key_press: self.key_press | key,
                ..self
            }
        } else {
            Keyboard { key_press: self.key_press | key, ..self }
        }
    }

    /// A game key goes up.
    pub open spec fn key_up(self, key: u32) -> Keyboard {
        let d = key_dir(key);
        if d != 4 {
            let order = self.key_order.update(d, 0);
            let dir = newest_dir(order);
            Keyboard {
                key_order: order,
                dir,
                key_max_count: if dir == 4 { 0 } else { order[dir] as int },
                ..self
            }
        } else {
            self
        }
    }

    /// The key of entry `i` is polled.
    pub open spec fn polled_key(self, i: int, now: u64) -> Keyboard {
        let key = key_table()[i].1;
        if self.down[i] {
            if now > self.last_time[i] {
                let first = self.last_time[i] == 0;
                let next = if !self.enable_key_repeat {
                    u64::MAX
                } else if first {
                    (now + 200) as u64
                } else {
                    (now + 75) as u64
                };
                Keyboard { last_time: self.last_time.update(i, next), ..self.key_down(key, !first, now) }
            } else {
                self
            }
        } else if self.last_time[i] != 0 {
            Keyboard { last_time: self.last_time.update(i, 0), ..self.key_up(key) }
        } else {
            self
        }
    }

    /// The first `n` keys of the map are polled.
    pub open spec fn polled(self, now: u64, n: int) -> Keyboard
        decreases n,
    {
        if n <= 0 {
            self
        } else {
            self.polled(now, n - 1).polled_key(n - 1, now)
        }
    }

    /// The time and the count of presses have room for the poll of the key of
    /// entry `i`.
    pub open spec fn key_poll_fits(self, i: int, now: u64) -> bool {
        let first = self.last_time[i] == 0;
        self.down[i] && now > self.last_time[i] ==> {
            &&& self.enable_key_repeat ==> now + repeat_wait(first) <= u64::MAX
            &&& first && key_dir(key_table()[i].1) != 4 ==> self.key_max_count < u32::MAX
        }
    }

    /// The time and the count of presses have room for a poll.
    pub open spec fn poll_fits(self, now: u64) -> bool {
        forall|i: int| 0 <= i < 33 ==> (#[trigger] self.polled(now, i)).key_poll_fits(i, now)
    }

    /// What was pressed is forgotten.
    pub open spec fn cleared(self) -> Keyboard {
        Keyboard { key_press: 0, pending_dir: 4, ..self }
    }

    /// The first `n` polls of a run, each with what was pressed before it
    /// cleared.
    pub open spec fn polls(self, times: Seq<u64>, n: int) -> Keyboard
        decreases n,
    {
        if n <= 0 {
            self
        } else {
            self.polls(times, n - 1).cleared().polled(times[n - 1], 33)
        }
    }

    /// The tables have their sizes and directions are directions.
    pub open spec fn wf(self) -> bool {
        &&& 0 <= self.dir <= 4
        &&& 0 <= self.pending_dir <= 4
        &&& self.down.len() == 33
        &&& self.dir_down_ms.len() == 4
        &&& self.last_time.len() == 33
        &&& self.key_order.len() == 4
        &&& 0 <= self.key_max_count <= u32::MAX
    }

    /// A direction counts as held only while one of its keys does, the
    /// newest key has the highest number, and the walking direction is that
    /// of the newest key unless it was reset.
    pub open spec fn consistent(self) -> bool {
        &&& self.wf()
        &&& forall|d: int| 0 <= d < 4 ==> #[trigger] self.key_order[d] <= self.key_max_count
        &&& forall|d: int| 0 <= d < 4 && #[trigger] self.key_order[d] != 0 ==> self.some_key_of(d)
        &&& self.dir == 4 || self.dir == newest_dir(self.key_order)
    }

    /// One of the two keys of a direction counts as held.
    pub open spec fn some_key_of(self, d: int) -> bool {
        exists|i: int| 0 <= i < 8 && key_dir(key_table()[i].1) == d && #[trigger] self.last_time[i] != 0
    }
}

/// The state of the keyboard.
pub struct InputState {
    pub dir: usize,
    pub prev_dir: usize,
    pub key_press: u32,
    /// The most recent direction press that no frame has used yet. Keeps a
    /// press and release that both fall between two frames.
    pub pending_dir: usize,
    /// Which keys of the map are physically held down.
    pub down: [bool; KEY_MAP_LEN],
    /// When each direction was last pressed, in milliseconds.
    pub dir_down_ms: [u64; 4],
    /// Per key, when it may repeat; 0 while it is up.
    pub last_time: [u64; KEY_MAP_LEN],
    pub key_order: [u32; 4],
    pub key_max_count: u32,
    /// Held keys repeat.
    pub enable_key_repeat: bool,
}

impl View for InputState {
    type V = Keyboard;

    open spec fn view(&self) -> Keyboard {
        Keyboard {
            dir: self.dir as int,
            prev_dir: self.prev_dir as int,
            key_press: self.key_press,
            pending_dir: self.pending_dir as int,
            down: self.down@,
            dir_down_ms: self.dir_down_ms@,
            last_time: self.last_time@,
            key_order: self.key_order@,
            key_max_count: self.key_max_count as int,
            enable_key_repeat: self.enable_key_repeat,
        }
    }
}

/// Nothing is pressed, nothing is held.
pub open spec fn at_rest() -> Keyboard {
    Keyboard {
        dir: 4,
        prev_dir: 4,
        key_press: 0,
        pending_dir: 4,
        down: Seq::new(33, |i: int| false),
        dir_down_ms: Seq::new(4, |i: int| 0u64),
        last_time: Seq::new(33, |i: int| 0u64),
        key_order: Seq::new(4, |i: int| 0u32),
        key_max_count: 0,
        enable_key_repeat: true,
    }
}

impl Default for InputState {
    fn default() -> (s: InputState)
        ensures
            s@ == at_rest(),
    {
        let s: InputState = InputState {
            dir: DIR_UNKNOWN,
            prev_dir: DIR_UNKNOWN,
            key_press: 0,
            pending_dir: DIR_UNKNOWN,
            down: [false; 33],
            dir_down_ms: [0u64; 4],
            last_time: [0u64; 33],
            key_order: [0u32; 4],
            key_max_count: 0,
            enable_key_repeat: true,
        };
        assert(s@ =~= at_rest());
        s
    }
}

impl InputState {
    pub fn new() -> (s: InputState)
        ensures
            s@ == at_rest(),
    {
        InputState::default()
    }

    /// Record a physical key state change.
    pub fn handle_key_event(&mut self, code: KeyCode, pressed: bool)
        ensures
            final(self)@ == old(self)@.handled(code, pressed, 33),
    {
        let table: [(KeyCode, u32); 33] = key_map();
        for i in 0..KEY_MAP_LEN
            invariant
                table@ == key_table(),
                self@ == old(self)@.handled(code, pressed, i as int),
        {
            let (key, mapped): (KeyCode, u32) = table[i];
            if key == code {
                if pressed && !self.down[i] {
                    let dir: usize = Self::dir_of_key(mapped);
                    if dir != DIR_UNKNOWN {
                        self.pending_dir = dir;
                    }
                }
                self.down[i] = pressed;
            }
            assert(self@ =~= old(self)@.handled(code, pressed, i as int + 1));
        }
    }

    /// Record a key tap from a source that cannot report releases. A
    /// direction tap is kept for one movement frame; taps before that frame
    /// are coalesced.
    pub fn handle_key_tap(&mut self, code: KeyCode)
        ensures
            final(self)@ == old(self)@.tapped(code, 33),
    {
        let table: [(KeyCode, u32); 33] = key_map();
        for i in 0..KEY_MAP_LEN
            invariant
                table@ == key_table(),
                self@ == old(self)@.tapped(code, i as int),
        {
            let (key, mapped): (KeyCode, u32) = table[i];
            if key == code {
                self.key_press = self.key_press | mapped;
                let dir: usize = Self::dir_of_key(mapped);
                if dir != DIR_UNKNOWN {
                    self.pending_dir = dir;
                }
            }
            assert(self@ =~= old(self)@.tapped(code, i as int + 1));
        }
    }

    /// Record what a keyboard source reports.
    pub fn handle(&mut self, event: KeyEvent)
        ensures
            final(self)@ == match event {
                KeyEvent::State { code, pressed } => old(self)@.handled(code, pressed, 33),
                KeyEvent::Tap(code) => old(self)@.tapped(code, 33),
            },
    {
        match event {
            KeyEvent::State { code, pressed } => self.handle_key_event(code, pressed),
            KeyEvent::Tap(code) => self.handle_key_tap(code),
        }
    }

    /// The current direction, for consumers other than movement.
    pub fn direction(&self) -> (d: usize)
        ensures
            d == self@.current_dir(),
    {
        if self.pending_dir != DIR_UNKNOWN {
            self.pending_dir
        } else {
            self.dir
        }
    }

    /// The direction for one movement frame. A pending press is used up; a
    /// held key stays active once it has been down for `HOLD_WALK_MS`.
    pub fn take_direction(&mut self, now_ms: u64) -> (d: usize)
        requires
            old(self)@.wf(),
        ensures
            d == old(self)@.frame_dir(now_ms),
            final(self)@ == (Keyboard { pending_dir: 4, ..old(self)@ }),
            d <= 4,
    {
        let pending: usize = self.pending_dir;
        self.pending_dir = DIR_UNKNOWN;
        if pending != DIR_UNKNOWN {
            return pending;
        }
        if self.dir != DIR_UNKNOWN && now_ms >= self.dir_down_ms[self.dir].saturating_add(HOLD_WALK_MS) {
            self.dir
        } else {
            DIR_UNKNOWN
        }
    }

    fn current_direction(&self) -> (d: usize)
        ensures
            d == newest_dir(self.key_order@),
            d <= 4,
    {
        let mut cur: usize = DIR_SOUTH;
        if self.key_order[cur] < self.key_order[1] {
            cur = 1;
        }
        if self.key_order[cur] < self.key_order[2] {
            cur = 2;
        }
        if self.key_order[cur] < self.key_order[3] {
            cur = 3;
        }
        if self.key_order[cur] == 0 {
            DIR_UNKNOWN
        } else {
            cur
        }
    }

    fn dir_of_key(key: u32) -> (d: usize)
        ensures
            d == key_dir(key),
    {
        if key == KEY_DOWN {
            DIR_SOUTH
        } else if key == KEY_LEFT {
            DIR_WEST
        } else if key == KEY_UP {
            DIR_NORTH
        } else if key == KEY_RIGHT {
            DIR_EAST
        } else {
            DIR_UNKNOWN
        }
    }

    fn key_down(&mut self, key: u32, repeat: bool, now_ms: u64)
        requires
            !repeat && key_dir(key) != 4 ==> old(self).key_max_count < u32::MAX,
        ensures
            final(self)@ == old(self)@.key_down(key, repeat, now_ms),
    {
        if !repeat {
            let cur: usize = Self::dir_of_key(key);
            if cur != DIR_UNKNOWN {
                self.dir_down_ms[cur] = now_ms;
                self.key_max_count = self.key_max_count + 1;
                self.key_order[cur] = self.key_max_count;
                self.dir = self.current_direction();
            }
        }
        self.key_press = self.key_press | key;
        assert(self@ =~= old(self)@.key_down(key, repeat, now_ms));
    }

    fn key_up(&mut self, key: u32)
        ensures
            final(self)@ == old(self)@.key_up(key),
    {
        let cur: usize = Self::dir_of_key(key);
        if cur != DIR_UNKNOWN {
            self.key_order[cur] = 0;
            let new_dir: usize = self.current_direction();
            self.key_max_count = if new_dir == DIR_UNKNOWN {
                0
            } else {
                self.key_order[new_dir]
            };
            self.dir = new_dir;
        }
        assert(self@ =~= old(self)@.key_up(key));
    }

    /// Poll the held keys: presses, repeats and releases follow from what is
    /// held now and what was held before. `now_ms` is a monotonic clock.
    pub fn update_keyboard_state(&mut self, now_ms: u64)
        requires
            old(self)@.consistent(),
            old(self)@.poll_fits(now_ms),
        ensures
            final(self)@ == old(self)@.polled(now_ms, 33),
            final(self)@.consistent(),
    {
        let table: [(KeyCode, u32); 33] = key_map();
        proof {
            lemma_polled(old(self)@, now_ms, 0);
        }
        for i in 0..KEY_MAP_LEN
            invariant
                table@ == key_table(),
                old(self)@.consistent(),
                old(self)@.poll_fits(now_ms),
                self@ == old(self)@.polled(now_ms, i as int),
        {
            proof {
                lemma_polled(old(self)@, now_ms, i as int);
            }
            let key: u32 = table[i].1;
            assert(self@.key_poll_fits(i as int, now_ms));
            if self.down[i] {
                if now_ms > self.last_time[i] {
                    let first: bool = self.last_time[i] == 0;
                    self.key_down(key, !first, now_ms);
                    self.last_time[i] = if self.enable_key_repeat {
                        if first {
                            now_ms + 200
                        } else {
                            now_ms + 75
                        }
                    } else {
                        u64::MAX
                    };
                }
            } else if self.last_time[i] != 0 {
                self.key_up(key);
                self.last_time[i] = 0;
            }
            assert(self@ =~= old(self)@.polled(now_ms, i as int + 1));
        }
        proof {
            lemma_polled(old(self)@, now_ms, 33);
        }
    }

    /// Forget every held key, as when the window loses focus. Releases follow
    /// at the next poll.
    pub fn release_all(&mut self)
        ensures
            final(self)@ == (Keyboard { down: Seq::new(33, |i: int| false), pending_dir: 4, ..old(self)@ }),
    {
        self.down = [false; 33];
        self.pending_dir = DIR_UNKNOWN;
        assert(self@ =~= (Keyboard { down: Seq::new(33, |i: int| false), pending_dir: 4, ..old(self)@ }));
    }

    /// Forget the presses since the last call.
    pub fn clear_key_state(&mut self)
        ensures
            final(self)@ == old(self)@.cleared(),
    {
        self.key_press = 0;
        self.pending_dir = DIR_UNKNOWN;
    }

    /// Stop walking.
    pub fn reset_dir(&mut self)
        ensures
            final(self)@ == (Keyboard { dir: 4, prev_dir: 4, pending_dir: 4, ..old(self)@ }),
    {
        self.dir = DIR_UNKNOWN;
        self.prev_dir = DIR_UNKNOWN;
        self.pending_dir = DIR_UNKNOWN;
    }

    /// Whether any of `keys` was pressed since the last clear.
    pub fn pressed(&self, keys: u32) -> (b: bool)
        ensures
            b == (self@.key_press & keys != 0),
    {
        self.key_press & keys != 0
    }
}

/// Polling keeps the state consistent.
proof fn lemma_polled(s: Keyboard, now: u64, n: int)
    requires
        s.consistent(),
        0 <= n <= 33,
        s.poll_fits(now),
    ensures
        s.polled(now, n).consistent(),
    decreases n,
{
    if n > 0 {
        lemma_polled(s, now, n - 1);
        lemma_polled_key(s.polled(now, n - 1), n - 1, now);
    }
}

proof fn lemma_polled_key(s: Keyboard, i: int, now: u64)
    requires
        s.consistent(),
        0 <= i < 33,
        s.key_poll_fits(i, now),
    ensures
        s.polled_key(i, now).consistent(),
{
    let t = s.polled_key(i, now);
    let key = key_table()[i].1;
    let d = key_dir(key);
    assert(i < 8 <==> d != 4);
    assert forall|e: int| 0 <= e < 4 && #[trigger] t.key_order[e] != 0 implies t.some_key_of(e) by {
        if s.key_order[e] != 0 {
            assert(s.some_key_of(e));
            let k = choose|k: int| 0 <= k < 8 && key_dir(key_table()[k].1) == e && #[trigger] s.last_time[k] != 0;
            if t.last_time[k] == 0 {
                assert(k == i && d == e);
            }
        } else {
            assert(e == d);
            assert(t.last_time[i] != 0);
        }
    }
}

/// Every state that the keyboard can get into from rest is consistent: events,
/// taps, polls, releases, clears and resets keep it so.
pub proof fn law_keyboard_stays_consistent(s: Keyboard, code: KeyCode, pressed: bool, now: u64)
    requires
        s.consistent(),
    ensures
        at_rest().consistent(),
        s.handled(code, pressed, 33).consistent(),
        s.tapped(code, 33).consistent(),
        (Keyboard { pending_dir: 4, ..s }).consistent(),
        (Keyboard { down: Seq::new(33, |i: int| false), pending_dir: 4, ..s }).consistent(),
        s.cleared().consistent(),
        (Keyboard { dir: 4, prev_dir: 4, pending_dir: 4, ..s }).consistent(),
        s.poll_fits(now) ==> s.polled(now, 33).consistent(),
{
    lemma_handled(s, code, pressed, 33);
    lemma_tapped(s, code, 33);
    lemma_same_keys(s, Keyboard { pending_dir: 4, ..s });
    lemma_same_keys(s, Keyboard { down: Seq::new(33, |i: int| false), pending_dir: 4, ..s });
    lemma_same_keys(s, s.cleared());
    lemma_same_keys(s, Keyboard { dir: 4, prev_dir: 4, pending_dir: 4, ..s });
    if s.poll_fits(now) {
        lemma_polled(s, now, 33);
    }
}

/// Consistency rests on the order of the keys and on which of them count as
/// held.
proof fn lemma_same_keys(s: Keyboard, t: Keyboard)
    requires
        s.consistent(),
        t.wf(),
        t.key_order == s.key_order,
        t.key_max_count == s.key_max_count,
        t.last_time == s.last_time,
        t.dir == s.dir || t.dir == 4,
    ensures
        t.consistent(),
{
    assert forall|d: int| 0 <= d < 4 && #[trigger] t.key_order[d] != 0 implies t.some_key_of(d) by {
        assert(s.key_order[d] != 0);
        assert(s.some_key_of(d));
        let k = choose|k: int| 0 <= k < 8 && key_dir(key_table()[k].1) == d && #[trigger] s.last_time[k] != 0;
        assert(t.last_time[k] != 0);
    }
}

proof fn lemma_handled(s: Keyboard, code: KeyCode, pressed: bool, n: int)
    requires
        s.consistent(),
        0 <= n <= 33,
    ensures
        s.handled(code, pressed, n).consistent(),
    decreases n,
{
    if n > 0 {
        lemma_handled(s, code, pressed, n - 1);
        lemma_same_keys(s.handled(code, pressed, n - 1), s.handled(code, pressed, n));
    }
}

proof fn lemma_tapped(s: Keyboard, code: KeyCode, n: int)
    requires
        s.consistent(),
        0 <= n <= 33,
    ensures
        s.tapped(code, n).consistent(),
    decreases n,
{
    if n > 0 {
        lemma_tapped(s, code, n - 1);
        lemma_same_keys(s.tapped(code, n - 1), s.tapped(code, n));
    }
}

/// The first press of a direction key makes its direction the walking
/// direction, whatever else is held.
pub proof fn law_newest_direction_wins(s: Keyboard, key: u32, now: u64)
    requires
        s.consistent(),
        s.key_max_count < u32::MAX,
        key_dir(key) != 4,
    ensures
        s.key_down(key, false, now).dir == key_dir(key),
{
    let d = key_dir(key);
    let order = s.key_order.update(d, (s.key_max_count + 1) as u32);
    assert(forall|e: int| 0 <= e < 4 && e != d ==> order[e] == s.key_order[e]);
    assert(s.key_order[0] <= s.key_max_count && s.key_order[1] <= s.key_max_count);
    assert(s.key_order[2] <= s.key_max_count && s.key_order[3] <= s.key_max_count);
}

/// A pending direction is used by exactly one frame: the next frame goes by
/// the keys that are held.
pub proof fn law_pending_direction_is_used_once(s: Keyboard, now: u64, later: u64)
    requires
        s.wf(),
        s.pending_dir != 4,
    ensures
        s.frame_dir(now) == s.pending_dir,
        s.dir == 4 ==> (Keyboard { pending_dir: 4, ..s }).frame_dir(later) == 4,
        s.dir != 4 && later < walks_from(s.dir_down_ms[s.dir]) ==> (Keyboard { pending_dir: 4, ..s }).frame_dir(later) == 4,
{
}

/// A key that stays held walks again once it has been down long enough.
pub proof fn law_held_direction_walks_on(s: Keyboard, now: u64)
    requires
        s.wf(),
        s.dir != 4,
        now >= walks_from(s.dir_down_ms[s.dir]),
    ensures
        (Keyboard { pending_dir: 4, ..s }).frame_dir(now) == s.dir,
{
}

/// Tapping a key again before a frame changes nothing.
pub proof fn law_taps_coalesce(s: Keyboard, code: KeyCode)
    ensures
        s.tapped(code, 33).tapped(code, 33) == s.tapped(code, 33),
{
    lemma_tapped_twice(s, s.tapped(code, 33), code, 33);
    assert(s.tapped(code, 33).tapped(code, 33) =~= s.tapped(code, 33));
}

/// The keys of the map that a code stands for, as far as entry `n`, merged.
spec fn tap_mask(code: KeyCode, n: int) -> u32
    decreases n,
{
    if n <= 0 {
        0
    } else if key_table()[n - 1].0 == code {
        tap_mask(code, n - 1) | key_table()[n - 1].1
    } else {
        tap_mask(code, n - 1)
    }
}

/// The direction that the map has for a code, as far as entry `n`; -1 if it
/// has none.
spec fn tap_dir(code: KeyCode, n: int) -> int
    decreases n,
{
    if n <= 0 {
        -1
    } else if key_table()[n - 1].0 == code && key_dir(key_table()[n - 1].1) != 4 {
        key_dir(key_table()[n - 1].1)
    } else {
        tap_dir(code, n - 1)
    }
}

proof fn lemma_tapped_is(s: Keyboard, code: KeyCode, n: int)
    requires
        0 <= n <= 33,
    ensures
        s.tapped(code, n) == (Keyboard {
            key_press: s.key_press | tap_mask(code, n),
            pending_dir: if tap_dir(code, n) != -1 { tap_dir(code, n) } else { s.pending_dir },
            ..s
        }),
    decreases n,
{
    let p = s.key_press;
    if n > 0 {
        lemma_tapped_is(s, code, n - 1);
        let m = tap_mask(code, n - 1);
        let k = key_table()[n - 1].1;
        assert((p | m) | k == p | (m | k)) by (bit_vector);
    } else {
        assert(p | 0u32 == p) by (bit_vector);
    }
}

proof fn lemma_tapped_twice(s: Keyboard, t: Keyboard, code: KeyCode, n: int)
    requires
        0 <= n <= 33,
        t == s.tapped(code, 33),
        n == 33,
    ensures
        t.tapped(code, n) == t,
{
    lemma_tapped_is(s, code, 33);
    lemma_tapped_is(t, code, 33);
    let p = s.key_press;
    let m = tap_mask(code, 33);
    assert((p | m) | m == p | m) by (bit_vector);
}

/// How long after a poll that sees a held key the next one may: the first
/// wait is longer.
pub open spec fn repeat_wait(first: bool) -> int {
    if first {
        200
    } else {
        75
    }
}

/// Which of the first `n` polls of a run was the last to see a key that is
/// held from the first of them on and repeats.
pub open spec fn last_seen(times: Seq<u64>, n: int) -> int
    decreases n,
{
    if n <= 1 {
        0
    } else {
        let k = last_seen(times, n - 1);
        if times[n - 1] > times[k] + repeat_wait(k == 0) {
            n - 1
        } else {
            k
        }
    }
}

/// Poll `n` of a run sees a key that is held from the first poll on.
pub open spec fn is_seen(times: Seq<u64>, repeats: bool, n: int) -> bool {
    let k = last_seen(times, n);
    n == 0 || repeats && times[n] > times[k] + repeat_wait(k == 0)
}

/// Entry `i` is the only one of the map for its game key that is held.
pub open spec fn only_key_held(s: Keyboard, i: int) -> bool {
    forall|j: int| 0 <= j < 33 && j != i && key_table()[j].1 == key_table()[i].1 ==> !#[trigger] s.down[j]
}

/// A key that goes down is pressed by the first poll that finds it down. As
/// long as it is held it is pressed again by the first poll that comes more
/// than 200 ms later and then by each that comes more than 75 ms after the
/// last that pressed it; without key repeat by none. Once a poll has found it
/// up, all this starts anew.
pub proof fn law_held_key_repeats(s: Keyboard, i: int, times: Seq<u64>, n: int)
    requires
        s.wf(),
        0 <= i < 33,
        only_key_held(s, i),
        s.last_time[i] == 0,
        0 <= n < times.len(),
        times[0] > 0,
        forall|k: int| 0 <= k <= n ==> (#[trigger] s.polls(times, k)).cleared().poll_fits(times[k]),
    ensures
        s.down[i] ==> (s.polls(times, n + 1).key_press & key_table()[i].1 != 0 <==> is_seen(
            times,
            s.enable_key_repeat,
            n,
        )),
        !s.down[i] ==> s.polls(times, n + 1).key_press & key_table()[i].1 == 0,
        forall|t: Keyboard, now: u64|
            t.wf() && !t.down[i] ==> (#[trigger] t.polled(now, 33)).last_time[i] == 0,
{
    lemma_polls(s, i, times, n);
    let t = s.polls(times, n).cleared();
    lemma_polled_key_press(t, times[n], i, 33);
    assert forall|t: Keyboard, now: u64| t.wf() && !t.down[i] implies (#[trigger] t.polled(now, 33)).last_time[i] == 0 by {
        lemma_polled_time(t, now, i, 33);
    }
}

/// The game keys are single bits.
pub open spec fn is_game_key(key: u32) -> bool {
    ||| key == 1 || key == 2 || key == 4 || key == 8 || key == 16 || key == 32
    ||| key == 64 || key == 128 || key == 256 || key == 512 || key == 1024 || key == 2048
    ||| key == 4096 || key == 8192 || key == 16384 || key == 32768 || key == 65536 || key == 131072
}

/// Pressing a game key adds its bit and no other game key's.
proof fn lemma_key_bit(press: u32, key: u32, other: u32)
    requires
        is_game_key(key),
        is_game_key(other),
    ensures
        0u32 & key == 0,
        (press | key) & key != 0,
        other != key ==> (press | other) & key == press & key,
{
    assert(0u32 & key == 0) by (bit_vector);
    assert((press | key) & key != 0) by (bit_vector)
        requires
            is_game_key(key),
    ;
    assert(other != key ==> (press | other) & key == press & key) by (bit_vector)
        requires
            is_game_key(key),
            is_game_key(other),
    ;
}

/// A poll leaves alone which keys are down, and looks at each key's time once.
proof fn lemma_polled_time(s: Keyboard, now: u64, i: int, n: int)
    requires
        s.down.len() == 33,
        s.last_time.len() == 33,
        0 <= i < 33,
        0 <= n <= 33,
    ensures
        s.polled(now, n).down == s.down,
        s.polled(now, n).enable_key_repeat == s.enable_key_repeat,
        s.polled(now, n).last_time.len() == 33,
        s.polled(now, n).last_time[i] == if n <= i {
            s.last_time[i]
        } else {
            s.polled_key(i, now).last_time[i]
        },
    decreases n,
{
    if n > 0 {
        lemma_polled_time(s, now, i, n - 1);
        lemma_polled_time(s, now, n - 1, n - 1);
    }
}

/// A poll presses a game key whose only held key is due.
proof fn lemma_polled_key_press(s: Keyboard, now: u64, i: int, n: int)
    requires
        s.down.len() == 33,
        s.last_time.len() == 33,
        s.key_press == 0,
        only_key_held(s, i),
        0 <= i < 33,
        0 <= n <= 33,
    ensures
        s.polled(now, n).key_press & key_table()[i].1 != 0 <==> i < n && s.down[i] && now > s.last_time[i],
    decreases n,
{
    let key = key_table()[i].1;
    if n > 0 {
        lemma_polled_key_press(s, now, i, n - 1);
        lemma_polled_time(s, now, n - 1, n - 1);
        let t = s.polled(now, n - 1);
        lemma_key_bit(t.key_press, key, key_table()[n - 1].1);
    } else {
        lemma_key_bit(0, key, key);
    }
}

/// When a held key is due after the first polls of a run.
proof fn lemma_polls(s: Keyboard, i: int, times: Seq<u64>, n: int)
    requires
        s.wf(),
        0 <= i < 33,
        s.last_time[i] == 0,
        0 <= n <= times.len(),
        times.len() > 0 ==> times[0] > 0,
        forall|k: int| 0 <= k < n ==> (#[trigger] s.polls(times, k)).cleared().poll_fits(times[k]),
    ensures
        s.polls(times, n).down == s.down,
        s.polls(times, n).enable_key_repeat == s.enable_key_repeat,
        s.polls(times, n).last_time.len() == 33,
        n > 0 ==> 0 <= last_seen(times, n) < n,
        s.polls(times, n).last_time[i] == if n == 0 || !s.down[i] {
            0
        } else if !s.enable_key_repeat {
            u64::MAX as int
        } else {
            times[last_seen(times, n)] + repeat_wait(last_seen(times, n) == 0)
        },
    decreases n,
{
    if n > 0 {
        lemma_polls(s, i, times, n - 1);
        let t = s.polls(times, n - 1).cleared();
        lemma_polled_time(t, times[n - 1], i, 33);
        lemma_polled_time(t, times[n - 1], i, i);
        assert(t.polled(times[n - 1], i).key_poll_fits(i, times[n - 1]));
    }
}

/// Releasing every key changes neither the walking direction nor what was
/// pressed. There is always room for the next poll; it presses nothing, and
/// behind it nobody walks.
pub proof fn law_released_keys_stop_walking(s: Keyboard, now: u64, later: u64)
    requires
        s.consistent(),
    ensures
        ({
            let released = Keyboard { down: Seq::new(33, |i: int| false), pending_dir: 4, ..s };
            let after = released.polled(now, 33);
            &&& released.current_dir() == s.dir
            &&& released.poll_fits(now)
            &&& after.key_press == s.key_press
            &&& after.prev_dir == s.prev_dir
            &&& after.dir == 4
            &&& after.frame_dir(later) == 4
        }),
{
    let r = Keyboard { down: Seq::new(33, |i: int| false), pending_dir: 4, ..s };
    lemma_same_keys(s, r);
    assert forall|i: int| 0 <= i < 33 implies (#[trigger] r.polled(now, i)).key_poll_fits(i, now) by {
        lemma_polled_up(r, now, i);
    }
    lemma_polled_up(r, now, 33);
    let after = r.polled(now, 33);
    lemma_polled(r, now, 33);
    assert forall|d: int| 0 <= d < 4 implies #[trigger] after.key_order[d] == 0 by {
        if after.key_order[d] != 0 {
            assert(after.some_key_of(d));
            let k = choose|k: int| 0 <= k < 8 && key_dir(key_table()[k].1) == d && #[trigger] after.last_time[k] != 0;
            assert(after.last_time[k] == 0);
        }
    }
    assert(after.key_order[0] == 0 && after.key_order[1] == 0 && after.key_order[2] == 0 && after.key_order[3] == 0);
    assert(newest_dir(after.key_order) == 4);
}

/// Polling keys that are all up leaves none of them counted as held.
proof fn lemma_polled_up(s: Keyboard, now: u64, n: int)
    requires
        s.wf(),
        0 <= n <= 33,
        forall|i: int| 0 <= i < 33 ==> !#[trigger] s.down[i],
    ensures
        s.polled(now, n).down == s.down,
        s.polled(now, n).pending_dir == s.pending_dir,
        s.polled(now, n).prev_dir == s.prev_dir,
        s.polled(now, n).key_press == s.key_press,
        s.polled(now, n).last_time.len() == 33,
        forall|i: int| 0 <= i < n ==> #[trigger] s.polled(now, n).last_time[i] == 0,
    decreases n,
{
    if n > 0 {
        lemma_polled_up(s, now, n - 1);
    }
}

/// The arrow keys walk where they point: up, right, down and left on the
/// screen, askew; no other key does.
pub proof fn law_arrows_walk_where_they_point(key: u32)
    ensures
        crate::walk::dir_offset(key_dir(KEY_UP)) == crate::geometry::walk_delta(0),
        crate::walk::dir_offset(key_dir(KEY_RIGHT)) == crate::geometry::walk_delta(1),
        crate::walk::dir_offset(key_dir(KEY_DOWN)) == crate::geometry::walk_delta(2),
        crate::walk::dir_offset(key_dir(KEY_LEFT)) == crate::geometry::walk_delta(3),
        crate::walk::dir_offset(key_dir(KEY_UP)).1 < 0 && crate::walk::dir_offset(key_dir(KEY_UP)).0 > 0,
        crate::walk::dir_offset(key_dir(KEY_LEFT)).1 < 0 && crate::walk::dir_offset(key_dir(KEY_LEFT)).0 < 0,
        key_dir(key) == 4 <==> key != KEY_UP && key != KEY_RIGHT && key != KEY_DOWN && key != KEY_LEFT,
        key_dir(KEY_DOWN) == DIR_SOUTH && key_dir(KEY_LEFT) == DIR_WEST && key_dir(KEY_UP) == DIR_NORTH && key_dir(KEY_RIGHT)
            == DIR_EAST,
{
}

/// Which keys stand for what: each direction has an arrow and a key of the
/// number pad; the menu opens with escape, insert, the alternate keys and 0;
/// searching takes the enter keys, space and control; paging and the ends of
/// lists have theirs and the number pad's; commands have letters.
pub proof fn law_keys_stand_for(i: int)
    requires
        0 <= i < 33,
    ensures
        ({
            let (code, key) = key_table()[i];
            &&& key == KEY_UP <==> code == KeyCode::ArrowUp || code == KeyCode::Numpad8
            &&& key == KEY_DOWN <==> code == KeyCode::ArrowDown || code == KeyCode::Numpad2
            &&& key == KEY_LEFT <==> code == KeyCode::ArrowLeft || code == KeyCode::Numpad4
            &&& key == KEY_RIGHT <==> code == KeyCode::ArrowRight || code == KeyCode::Numpad6
            &&& key == KEY_MENU <==> code == KeyCode::Escape || code == KeyCode::Insert || code == KeyCode::AltLeft || code
                == KeyCode::AltRight || code == KeyCode::Numpad0
            &&& key == KEY_SEARCH <==> code == KeyCode::Enter || code == KeyCode::Space || code == KeyCode::NumpadEnter || code
                == KeyCode::ControlLeft
            &&& key == KEY_PGUP <==> code == KeyCode::PageUp || code == KeyCode::Numpad9
            &&& key == KEY_PGDN <==> code == KeyCode::PageDown || code == KeyCode::Numpad3
            &&& key == KEY_HOME <==> code == KeyCode::Home || code == KeyCode::Numpad7
            &&& key == KEY_END <==> code == KeyCode::End || code == KeyCode::Numpad1
            &&& key == KEY_REPEAT <==> code == KeyCode::KeyR
            &&& key == KEY_AUTO <==> code == KeyCode::KeyA
            &&& key == KEY_DEFEND <==> code == KeyCode::KeyD
            &&& key == KEY_USE_ITEM <==> code == KeyCode::KeyE
            &&& key == KEY_THROW_ITEM <==> code == KeyCode::KeyW
            &&& key == KEY_FLEE <==> code == KeyCode::KeyQ
            &&& key == KEY_FORCE <==> code == KeyCode::KeyF
            &&& key == KEY_STATUS <==> code == KeyCode::KeyS
        }),
{
}

/// No key stands in the map twice.
pub proof fn law_keys_stand_for_one_thing(i: int, j: int)
    requires
        0 <= i < j < 33,
    ensures
        key_table()[i].0 != key_table()[j].0,
{
}

/// The direction that counts is that of the key that was pressed last: no other
/// direction has a higher number. There is none exactly if none is held.
pub proof fn law_newest_direction_is_newest(order: Seq<u32>)
    requires
        order.len() == 4,
    ensures
        newest_dir(order) == 4 <==> order[0] == 0 && order[1] == 0 && order[2] == 0 && order[3] == 0,
        newest_dir(order) != 4 ==> {
            let d = newest_dir(order);
            &&& 0 <= d < 4
            &&& order[d] > 0
            &&& order[0] <= order[d] && order[1] <= order[d] && order[2] <= order[d] && order[3] <= order[d]
        },
{
}

/// A held direction walks once it has been held for 150 milliseconds, and not
/// before.
pub proof fn law_held_keys_walk_after_a_while(s: Keyboard, now: u64)
    requires
        s.wf(),
        s.pending_dir == 4,
        s.dir != 4,
        s.dir_down_ms[s.dir] <= u64::MAX - 151,
    ensures
        s.frame_dir(now) == s.dir <==> now >= s.dir_down_ms[s.dir] + 150,
        s.frame_dir(now) == 4 <==> now < s.dir_down_ms[s.dir] + 150,
{
}

/// A key that goes up leaves the direction to the one pressed last of those
/// still held.
pub proof fn law_released_direction_yields(s: Keyboard, key: u32, d: int)
    requires
        s.wf(),
        key_dir(key) != 4,
        0 <= d < 4,
        d != key_dir(key),
        s.key_order[d] > 0,
        forall|c: int| 0 <= c < 4 && c != d && c != key_dir(key) ==> #[trigger] s.key_order[c] < s.key_order[d],
    ensures
        s.key_up(key).dir == d,
        s.key_up(key).key_order[key_dir(key)] == 0,
        s.key_up(key).key_press == s.key_press,
{
    let k = key_dir(key);
    let order = s.key_order.update(k, 0);
    assert(0 != d && 0 != k ==> s.key_order[0] < s.key_order[d]);
    assert(1 != d && 1 != k ==> s.key_order[1] < s.key_order[d]);
    assert(2 != d && 2 != k ==> s.key_order[2] < s.key_order[d]);
    assert(3 != d && 3 != k ==> s.key_order[3] < s.key_order[d]);
}

/// A direction key that goes down asks for one step; while it is held, and when
/// it goes up, it does not, and neither does another key.
pub proof fn law_presses_ask_for_a_step(s: Keyboard, i: int, pressed: bool)
    requires
        s.wf(),
        0 <= i < 33,
    ensures
        s.with_event(i, pressed).down[i] == pressed,
        forall|j: int| 0 <= j < 33 && j != i ==> #[trigger] s.with_event(i, pressed).down[j] == s.down[j],
        pressed && !s.down[i] && i < 8 ==> s.with_event(i, pressed).pending_dir == key_dir(key_table()[i].1)
            && s.with_event(i, pressed).pending_dir < 4,
        !pressed || s.down[i] || i >= 8 ==> s.with_event(i, pressed).pending_dir == s.pending_dir,
        s.with_event(i, pressed).key_press == s.key_press,
{
}

} // verus!
