//! The engine's turn to look around: key events, and waiting.

use vstd::prelude::*;

use crate::engine::Engine;
use crate::input::Keyboard;
use crate::keys::KeyEvent;

verus! {

/// The keyboard after an event.
pub open spec fn after_event(k: Keyboard, event: KeyEvent) -> Keyboard {
    match event {
        KeyEvent::State { code, pressed } => k.handled(code, pressed, 33),
        KeyEvent::Tap(code) => k.tapped(code, 33),
    }
}

/// The keyboard after the first `n` events.
pub open spec fn after_events(k: Keyboard, events: Seq<KeyEvent>, n: int) -> Keyboard
    decreases n,
{
    if n <= 0 {
        k
    } else {
        after_event(after_events(k, events, n - 1), events[n - 1])
    }
}

/// States with the same directions in the same order are both consistent.
proof fn lemma_same_order(a: Keyboard, b: Keyboard)
    requires
        a.consistent(),
        b.wf(),
        b.key_max_count == a.key_max_count,
        b.last_time == a.last_time,
        b.key_order == a.key_order,
        b.dir == a.dir,
    ensures
        b.consistent(),
{
    assert forall|d: int| 0 <= d < 4 && #[trigger] b.key_order[d] != 0 implies b.some_key_of(d) by {
        assert(a.some_key_of(d));
    }
}

/// Events keep the keyboard's state consistent.
proof fn lemma_event_keeps_consistent(k: Keyboard, event: KeyEvent, n: int)
    requires
        k.consistent(),
        0 <= n <= 33,
    ensures
        match event {
            KeyEvent::State { code, pressed } => {
                let r = k.handled(code, pressed, n);
                r.consistent() && r.key_max_count == k.key_max_count && r.last_time == k.last_time && r.key_order
                    == k.key_order && r.dir == k.dir && r.dir_down_ms == k.dir_down_ms
            },
            KeyEvent::Tap(code) => {
                let r = k.tapped(code, n);
                r.consistent() && r.key_max_count == k.key_max_count && r.last_time == k.last_time && r.key_order
                    == k.key_order && r.dir == k.dir && r.dir_down_ms == k.dir_down_ms
            },
        },
    decreases n,
{
    if n > 0 {
        lemma_event_keeps_consistent(k, event, n - 1);
        match event {
            KeyEvent::State { code, pressed } => {
                lemma_same_order(k, k.handled(code, pressed, n));
            },
            KeyEvent::Tap(code) => {
                lemma_same_order(k, k.tapped(code, n));
            },
        }
    }
}

/// How long to sleep before looking around again in a wait: at most 5
/// milliseconds; none when the wait is over.
pub open spec fn sleep(deadline: u64, now: u64) -> Option<u64> {
    if now >= deadline {
        None
    } else if deadline - now < 5 {
        Some((deadline - now) as u64)
    } else {
        Some(5)
    }
}

impl Engine {
    /// Take in what the keyboard reports, and whether the user asked to close
    /// the window, and poll the keys.
    pub fn process_event(&mut self, events: &Vec<KeyEvent>, close_requested: bool, now: u64)
        requires
            old(self).wf(),
            old(self).input@.consistent(),
            after_events(old(self).input@, events@, events@.len() as int).poll_fits(now),
        ensures
            final(self).wf(),
            final(self).input@.consistent(),
            final(self).input@ == after_events(old(self).input@, events@, events@.len() as int).polled(now, 33),
            final(self).quit_requested == (old(self).quit_requested || close_requested),
            *final(self) == (Engine {
                input: final(self).input,
                quit_requested: final(self).quit_requested,
                ..*old(self)
            }),
    {
        for i in 0..events.len()
            invariant
                self.input@ == after_events(old(self).input@, events@, i as int),
                self.input@.consistent(),
                *self == (Engine { input: self.input, ..*old(self) }),
        {
            proof {
                lemma_event_keeps_consistent(self.input@, events@[i as int], 33);
            }
            self.input.handle(events[i]);
        }
        if close_requested {
            self.quit_requested = true;
        }
        self.input.update_keyboard_state(now);
    }

    /// When a wait of so many milliseconds ends.
    pub fn delay(&self, ms: u64, now: u64) -> (deadline: u64)
        requires
            now + ms <= u64::MAX,
        ensures
            deadline == now + ms,
    {
        now + ms
    }

    /// How long to sleep before looking around again in a wait; none when the
    /// wait is over, or the user asked to quit.
    pub fn delay_until(&self, deadline: u64, now: u64) -> (ms: Option<u64>)
        ensures
            ms == if self.quit_requested { None } else { sleep(deadline, now) },
    {
        if now >= deadline || self.quit_requested {
            return None;
        }
        let rest: u64 = deadline - now;
        Some(if rest < 5 {
            rest
        } else {
            5
        })
    }
}

/// A wait ends on time: as long as it goes on, every sleep brings it nearer,
/// and none reaches past its deadline.
pub proof fn law_sleeps_end_on_time(deadline: u64, now: u64)
    requires
        now < deadline,
    ensures
        sleep(deadline, now) matches Some(ms) && 0 < ms <= 5 && now + ms <= deadline,
{
}

/// Events are taken one by one, in the order in which they came: a state of a
/// key is noted, and a tap presses it.
pub proof fn law_events_come_in_order(k: Keyboard, events: Seq<KeyEvent>, n: int)
    requires
        0 <= n < events.len(),
    ensures
        after_events(k, events, 0) == k,
        events[n] matches KeyEvent::State { code, pressed } ==> after_events(k, events, n + 1) == after_events(
            k,
            events,
            n,
        ).handled(code, pressed, 33),
        events[n] matches KeyEvent::Tap(code) ==> after_events(k, events, n + 1) == after_events(k, events, n).tapped(code, 33),
{
}

/// A wait sleeps for 5 milliseconds at a time, or what is left of it; it is
/// over when its time has come.
pub proof fn law_sleeps_are_short(deadline: u64, now: u64)
    ensures
        now >= deadline <==> sleep(deadline, now) is None,
        now + 5 <= deadline ==> sleep(deadline, now) == Some(5u64),
        now < deadline < now + 5 ==> sleep(deadline, now) == Some((deadline - now) as u64),
{
}

} // verus!
