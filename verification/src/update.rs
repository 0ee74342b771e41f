//! The game logic of a frame: scripts that are entered or walked into, scripts
//! that run by themselves, and getting out of the way of others.
//!
//! Scripts run and scenes are drawn elsewhere: `game_update` says what to do
//! next, and is called again when it is done.

use vstd::prelude::*;

use crate::engine::Engine;
use crate::gamedata::GameData;
use crate::geometry;
use crate::geometry::Pos;
use crate::global::Globals;
use crate::input::Keyboard;
use crate::records::{EventObject, Scene};
use crate::walk;
use crate::zones;

verus! {

/// How far the update of a frame has come. Event objects are counted from 0.
#[derive(Clone, Copy, Debug, PartialEq, Eq, Structural)]
pub enum UpdateStage {
    Start,
    /// The script of a scene that is entered has run.
    Entered { scene: usize },
    BeginTriggers,
    /// The event objects from `at` on have their turn.
    Triggers { at: usize, end: usize },
    /// The event object has turned to the party.
    Touched { at: usize, end: usize },
    /// The script of the event object has run.
    Triggered { at: usize, end: usize },
    BeginAutos,
    /// The event objects from `at` on act by themselves.
    Autos { at: usize, end: usize },
    /// The automatic script of the event object has run.
    AutoDone { at: usize, end: usize },
}

/// What to do next.
#[derive(Clone, Copy, Debug, PartialEq, Eq, Structural)]
pub enum UpdateAction {
    /// Go on.
    Continue { next: UpdateStage },
    /// Run a script for an event object, counted from 1, and hand back where
    /// it is to start the next time.
    RunTriggerScript { script: u16, object: u16, next: UpdateStage },
    /// Run an automatic script for an event object.
    RunAutoScript { script: u16, object: u16, next: UpdateStage },
    /// Draw the scene.
    MakeScene { next: UpdateStage },
    /// Draw the scene and show it.
    ShowScene { next: UpdateStage },
    /// The update is over.
    Over,
}

/// The object is outside what the screen shows.
pub open spec fn off_screen(o: EventObject, viewport: (i32, i32)) -> bool {
    o.x < viewport.0 || o.x > viewport.0 + 320 || o.y < viewport.1 || o.y > viewport.1 + 320
}

/// The magnitude of a 16-bit number, as far as 16 bits hold it.
pub open spec fn magnitude(s: i16) -> i16 {
    if s < 0 && s > i16::MIN {
        (-s) as i16
    } else {
        s
    }
}

/// What its turn does to an event object: one that has vanished comes nearer
/// to its return, and one that waits to be seen again does so off the screen.
pub open spec fn turned(o: EventObject, viewport: (i32, i32)) -> EventObject {
    if o.vanish_time != 0 {
        EventObject {
            vanish_time: if o.vanish_time < 0 { (o.vanish_time + 1) as i16 } else { (o.vanish_time - 1) as i16 },
            ..o
        }
    } else if o.state < 0 && off_screen(o, viewport) {
        EventObject { state: magnitude(o.state), current_frame_num: 0, ..o }
    } else {
        o
    }
}

/// The party walks into the zone of the event object.
pub open spec fn walked_into(o: EventObject, player: Pos) -> bool {
    &&& o.vanish_time == 0
    &&& o.state > 0
    &&& o.trigger_mode >= 4
    &&& geometry::distance(player, zones::place_of(o)) < zones::touch_radius(o.trigger_mode)
}

/// The first of the event objects `at..end` that the party walks into; `end`
/// if there is none.
pub open spec fn next_touched(objects: Seq<EventObject>, player: Pos, at: int, end: int) -> int
    decreases end - at,
{
    if at >= end {
        at
    } else if walked_into(objects[at], player) {
        at
    } else {
        next_touched(objects, player, at + 1, end)
    }
}

/// The event objects after those in `at..stop` had their turn.
pub open spec fn turned_all(objects: Seq<EventObject>, viewport: (i32, i32), at: int, stop: int) -> Seq<EventObject> {
    Seq::new(objects.len(), |i: int| if at <= i < stop { turned(objects[i], viewport) } else { objects[i] })
}

/// The direction in which an event object looks at the party.
pub open spec fn looks_at(o: EventObject, player: Pos) -> u16 {
    if player.0 > o.x {
        if player.1 > o.y {
            3
        } else {
            2
        }
    } else if player.1 > o.y {
        0
    } else {
        1
    }
}

fn turn_object(o: EventObject, viewport: (i32, i32)) -> (r: EventObject)
    ensures
        r == turned(o, viewport),
{
    if o.vanish_time != 0 {
        return EventObject {
            vanish_time: if o.vanish_time < 0 {
                o.vanish_time + 1
            } else {
                o.vanish_time - 1
            },
            ..o
        };
    }
    let (x, y): (i64, i64) = (o.x as i64, o.y as i64);
    let (vx, vy): (i64, i64) = (viewport.0 as i64, viewport.1 as i64);
    if o.state < 0 && (x < vx || x > vx + 320 || y < vy || y > vy + 320) {
        EventObject {
            state: if o.state > i16::MIN {
                -o.state
            } else {
                o.state
            },
            current_frame_num: 0,
            ..o
        }
    } else {
        o
    }
}

/// Give event objects their turn until the party walks into one.
fn turn_objects(objects: &mut Vec<EventObject>, viewport: (i32, i32), player: Pos, at: usize, end: usize) -> (stop: usize)
    requires
        at < end ==> end <= old(objects)@.len(),
        geometry::in_world(player),
    ensures
        stop == next_touched(old(objects)@, player, at as int, end as int),
        final(objects)@ == turned_all(old(objects)@, viewport, at as int, stop as int),
        at <= stop,
        stop < end ==> walked_into(final(objects)@[stop as int], player),
        at <= end ==> stop <= end,
        final(objects)@.len() == old(objects)@.len(),
{
    let ghost before = objects@;
    let mut i: usize = at;
    assert(objects@ =~= turned_all(before, viewport, at as int, i as int));
    while i < end
        invariant
            before == old(objects)@,
            at < end ==> end <= before.len(),
            geometry::in_world(player),
            at <= i,
            at <= end ==> i <= end,
            objects@ == turned_all(before, viewport, at as int, i as int),
            next_touched(before, player, at as int, end as int) == next_touched(before, player, i as int, end as int),
        decreases end - i,
    {
        let o: EventObject = objects[i];
        assert(o == before[i as int]);
        if o.vanish_time == 0 && o.state > 0 && o.trigger_mode >= 4 && geometry::metric(
            player,
            (o.x as i64, o.y as i64),
        ) < zones::touch_radius_of(o.trigger_mode) {
            return i;
        }
        objects[i] = turn_object(o, viewport);
        assert(objects@ =~= turned_all(before, viewport, at as int, i + 1));
        i = i + 1;
    }
    i
}

impl Engine {
    /// The current scene and its event objects are in the tables.
    pub open spec fn scene_in_tables(&self) -> bool {
        &&& 1 <= self.globals.num_scene < self.globals.game.scenes@.len()
        &&& self.globals.scene_start() < self.globals.scene_end() ==> self.globals.scene_end()
            <= self.globals.game.event_objects@.len()
    }

    /// Where the party stands.
    pub open spec fn player_pos(&self) -> Pos {
        (self.party_position().0 as i64, self.party_position().1 as i64)
    }

    /// The engine with other event objects.
    pub open spec fn with_objects_of(&self, after: &Engine) -> Engine {
        Engine {
            globals: Globals {
                game: GameData { event_objects: after.globals.game.event_objects, ..self.globals.game },
                ..self.globals
            },
            ..*self
        }
    }

    /// The party stands in the way of a blocking event object.
    pub open spec fn in_way_of(&self, o: EventObject) -> bool {
        o.state >= 2 && o.sprite_num != 0 && geometry::distance(zones::place_of(o), self.player_pos()) <= 12
    }

    /// The first of `n` directions, starting behind `direction`, in which the
    /// party can step aside.
    pub open spec fn way_aside(&self, direction: u16, n: int) -> Option<int>
        decreases n,
    {
        if n <= 0 {
            None
        } else {
            match self.way_aside(direction, n - 1) {
                Some(d) => Some(d),
                None => {
                    let d = (direction + n) % 4;
                    let offset = walk::dir_offset(d);
                    let p = self.party_position();
                    if self.obstacle(((p.0 + offset.0) as i64, (p.1 + offset.1) as i64), true, 0, true) {
                        None
                    } else {
                        Some(d)
                    }
                },
            }
        }
    }

    /// Where the view goes when the party gets out of the way of an event
    /// object, if it stands there and can.
    pub open spec fn viewport_aside(&self, o: EventObject) -> (i32, i32) {
        let v = self.globals.viewport;
        if self.in_way_of(o) {
            match self.way_aside(o.direction, 4) {
                Some(d) => ((v.0 + walk::dir_offset(d).0) as i32, (v.1 + walk::dir_offset(d).1) as i32),
                None => v,
            }
        } else {
            v
        }
    }

    fn step_aside(&mut self, o: EventObject)
        requires
            old(self).wf(),
            old(self).in_way_of(o) ==> old(self).steps_fit(),
        ensures
            final(self).wf(),
            final(self).globals.viewport == old(self).viewport_aside(o),
            *final(self) == (Engine {
                globals: Globals { viewport: final(self).globals.viewport, ..old(self).globals },
                ..*old(self)
            }),
    {
        let x: i64 = self.globals.viewport.0 as i64 + self.globals.partyoffset.0 as i64;
        let y: i64 = self.globals.viewport.1 as i64 + self.globals.partyoffset.1 as i64;
        if o.state >= 2 && o.sprite_num != 0 && geometry::metric((o.x as i64, o.y as i64), (x, y)) <= 12 {
            let mut n: u32 = 0;
            while n < 4
                invariant
                    n <= 4,
                    *self == *old(self),
                    self.wf(),
                    self.steps_fit(),
                    x == self.party_position().0,
                    y == self.party_position().1,
                    self.in_way_of(o),
                    self.way_aside(o.direction, n as int) is None,
                decreases 4 - n,
            {
                n = n + 1;
                let d: u32 = (o.direction as u32 + n) % 4;
                let dx: i32 = if d == 1 || d == 0 {
                    -16
                } else {
                    16
                };
                let dy: i32 = if d == 1 || d == 2 {
                    -8
                } else {
                    8
                };
                if !self.obstacle_at((x + dx as i64, y + dy as i64), true, 0, true) {
                    proof {
                        lemma_way_aside(*self, o.direction, n as int);
                    }
                    self.globals.viewport = (self.globals.viewport.0 + dx, self.globals.viewport.1 + dy);
                    return;
                }
            }
        }
    }

    /// The update starts: with the script of a scene that is entered, with the
    /// event objects that can be triggered, or with what runs by itself.
    pub open spec fn after_start_step(before: &Engine, after: &Engine, trigger: bool, a: UpdateAction) -> bool {
        &&& if !trigger {
                a == (UpdateAction::Continue { next: UpdateStage::BeginAutos }) && *after == *before
            } else if !before.globals.entering_scene {
                a == (UpdateAction::Continue { next: UpdateStage::BeginTriggers }) && *after == *before
            } else {
                &&& a == (UpdateAction::RunTriggerScript {
                    script: before.globals.game.scenes@[before.globals.num_scene - 1].script_on_enter,
                    object: 0xffff,
                    next: UpdateStage::Entered { scene: (before.globals.num_scene - 1) as usize },
                })
                &&& *after == (Engine {
                    globals: Globals { entering_scene: false, ..before.globals },
                    ..*before
                })
            }
    }

    /// The script of an entered scene has run: where it starts the next time is
    /// kept, and the update goes on unless another scene is entered.
    pub open spec fn after_entered_step(before: &Engine, after: &Engine, scene: usize, result: u16, a: UpdateAction) -> bool {
        &&& a == if before.globals.entering_scene {
                UpdateAction::Over
            } else {
                UpdateAction::MakeScene { next: UpdateStage::BeginTriggers }
            }
        &&& after.globals.game.scenes@ == before.globals.game.scenes@.update(
                scene as int,
                Scene { script_on_enter: result, ..before.globals.game.scenes@[scene as int] },
            )
        &&& after.input@ == if before.globals.entering_scene {
                before.input@
            } else {
                Keyboard { key_press: 0, pending_dir: 4, ..before.input@ }
            }
        &&& *after == (Engine {
                globals: Globals {
                    game: GameData { scenes: after.globals.game.scenes, ..before.globals.game },
                    ..before.globals
                },
                input: after.input,
                ..*before
            })
    }

    /// The party walks into one of the event objects `at..end` that shows.
    pub open spec fn touch_shown(&self, at: usize, end: usize) -> bool {
        let objects = self.globals.game.event_objects@;
        let stop = next_touched(objects, self.player_pos(), at as int, end as int);
        stop < end && objects[stop].sprite_frames != 0
    }

    /// The party can be made to stand.
    pub open spec fn may_stand(&self) -> bool {
        self.walkers_placed() && self.standing_frames_fit(self.globals.party_direction as int)
    }

    /// Event objects have their turn until the party walks into one, which turns
    /// to the party if it shows.
    pub open spec fn after_triggers_step(before: &Engine, after: &Engine, at: usize, end: usize, a: UpdateAction) -> bool {
        &&& {
                let objects = before.globals.game.event_objects@;
                let player = before.player_pos();
                let stop = next_touched(objects, player, at as int, end as int);
                let turned = turned_all(objects, before.globals.viewport, at as int, stop);
                let o = turned[stop];
                if stop >= end {
                    &&& a == (UpdateAction::Continue { next: UpdateStage::BeginAutos })
                    &&& after.globals.game.event_objects@ == turned
                    &&& *after == before.with_objects_of(after)
                } else if o.sprite_frames == 0 {
                    &&& a == (UpdateAction::RunTriggerScript {
                        script: o.trigger_script,
                        object: (stop + 1) as u16,
                        next: UpdateStage::Triggered { at: stop as usize, end },
                    })
                    &&& after.globals.game.event_objects@ == turned
                    &&& *after == before.with_objects_of(after)
                } else {
                    &&& a == (UpdateAction::ShowScene { next: UpdateStage::Touched { at: stop as usize, end } })
                    &&& after.globals.game.event_objects@ == turned.update(
                        stop,
                        EventObject { current_frame_num: 0, direction: looks_at(o, player), ..o },
                    )
                    &&& after.only_gestures_changed(&before.with_objects_of(after))
                    &&& after.scene.this_step_frame == if before.scene.this_step_frame < 2 { 2int } else { 0 }
                    &&& after.globals.party@ == after.standing_party(before.globals.party@)
                }
            }
    }

    /// The script of an event object has run: where it starts the next time is
    /// kept, and the next event object has its turn unless a scene is entered.
    pub open spec fn after_triggered_step(before: &Engine, after: &Engine, at: usize, end: usize, result: u16, a: UpdateAction) -> bool {
        &&& a == if before.globals.entering_scene {
                UpdateAction::Over
            } else {
                UpdateAction::Continue { next: UpdateStage::Triggers { at: (at + 1) as usize, end } }
            }
        &&& after.globals.game.event_objects@ == before.globals.game.event_objects@.update(
                at as int,
                EventObject { trigger_script: result, ..before.globals.game.event_objects@[at as int] },
            )
        &&& after.input@ == (Keyboard { key_press: 0, pending_dir: 4, ..before.input@ })
        &&& *after == (Engine { input: after.input, ..before.with_objects_of(after) })
    }

    /// An event object acts by itself, or the party gets out of its way; behind
    /// the last one the frame is counted.
    pub open spec fn after_auto_step(before: &Engine, after: &Engine, trigger: bool, at: usize, end: usize, a: UpdateAction) -> bool {
        &&& {
                let g = before.globals;
                let o = g.game.event_objects@[at as int];
                if at >= end {
                    let cycles = if g.chasespeed_change_cycles == 0 { 0xffff } else { g.chasespeed_change_cycles - 1 };
                    &&& a == UpdateAction::Over
                    &&& *after == (Engine {
                        globals: Globals {
                            chasespeed_change_cycles: cycles as u16,
                            chase_range: if cycles == 0 { 1 } else { g.chase_range },
                            frame_num: (g.frame_num + 1) as u32,
                            ..g
                        },
                        ..*before
                    })
                } else if o.state > 0 && o.vanish_time == 0 && o.auto_script != 0 {
                    &&& a == (UpdateAction::RunAutoScript {
                        script: o.auto_script,
                        object: (at + 1) as u16,
                        next: UpdateStage::AutoDone { at, end },
                    })
                    &&& *after == *before
                } else {
                    &&& a == (UpdateAction::Continue { next: UpdateStage::Autos { at: (at + 1) as usize, end } })
                    &&& *after == (Engine {
                        globals: Globals {
                            viewport: if trigger { before.viewport_aside(o) } else { g.viewport },
                            ..g
                        },
                        ..*before
                    })
                }
            }
    }

    /// An automatic script has run: where it starts the next time is kept, and
    /// the party gets out of the way unless a scene is entered.
    pub open spec fn after_auto_done_step(before: &Engine, after: &Engine, trigger: bool, at: usize, end: usize, result: u16, a: UpdateAction) -> bool {
        &&& {
                let o = EventObject { auto_script: result, ..before.globals.game.event_objects@[at as int] };
                &&& after.globals.game.event_objects@ == before.globals.game.event_objects@.update(at as int, o)
                &&& after.globals.viewport == if trigger && !before.globals.entering_scene {
                    before.with_objects_of(after).viewport_aside(o)
                } else {
                    before.globals.viewport
                }
                &&& a == if before.globals.entering_scene {
                    UpdateAction::Over
                } else {
                    UpdateAction::Continue { next: UpdateStage::Autos { at: (at + 1) as usize, end } }
                }
                &&& *after == (Engine {
                    globals: Globals {
                        viewport: after.globals.viewport,
                        ..before.with_objects_of(after).globals
                    },
                    ..*before
                })
            }
    }

    fn update_start(&mut self, trigger: bool) -> (a: UpdateAction)
        requires
            old(self).wf(),
            trigger && old(self).globals.entering_scene ==> 1 <= old(self).globals.num_scene
                <= old(self).globals.game.scenes@.len(),
        ensures
            final(self).wf(),
            Engine::after_start_step(old(self), final(self), trigger, a),
    {
        if !trigger {
            return UpdateAction::Continue { next: UpdateStage::BeginAutos };
        }
        if !self.globals.entering_scene {
            return UpdateAction::Continue { next: UpdateStage::BeginTriggers };
        }
        self.globals.entering_scene = false;
        let scene: usize = self.globals.num_scene as usize - 1;
        UpdateAction::RunTriggerScript {
            script: self.globals.game.scenes[scene].script_on_enter,
            object: 0xffff,
            next: UpdateStage::Entered { scene },
        }
    }

    fn update_entered(&mut self, scene: usize, result: u16) -> (a: UpdateAction)
        requires
            old(self).wf(),
            scene < old(self).globals.game.scenes@.len(),
        ensures
            final(self).wf(),
            Engine::after_entered_step(old(self), final(self), scene, result, a),
    {
        self.globals.game.scenes[scene].script_on_enter = result;
        assert(self.globals.game.scenes@ =~= old(self).globals.game.scenes@.update(
            scene as int,
            Scene { script_on_enter: result, ..old(self).globals.game.scenes@[scene as int] },
        ));
        if self.globals.entering_scene {
            return UpdateAction::Over;
        }
        self.input.clear_key_state();
        UpdateAction::MakeScene { next: UpdateStage::BeginTriggers }
    }

    pub(crate) fn scene_range(&self) -> (r: (usize, usize))
        requires
            1 <= self.globals.num_scene < self.globals.game.scenes@.len(),
        ensures
            r.0 == self.globals.scene_start(),
            r.1 == self.globals.scene_end(),
    {
        let scene: usize = self.globals.num_scene as usize;
        (
            self.globals.game.scenes[scene - 1].event_object_index as usize,
            self.globals.game.scenes[scene].event_object_index as usize,
        )
    }

    fn update_triggers(&mut self, at: usize, end: usize) -> (a: UpdateAction)
        requires
            old(self).wf(),
            at < end ==> end <= old(self).globals.game.event_objects@.len() && end <= 0xffff,
            old(self).touch_shown(at, end) ==> old(self).may_stand(),
        ensures
            final(self).wf(),
            Engine::after_triggers_step(old(self), final(self), at, end, a),
    {
        let player: Pos = (
            self.globals.viewport.0 as i64 + self.globals.partyoffset.0 as i64,
            self.globals.viewport.1 as i64 + self.globals.partyoffset.1 as i64,
        );
        let viewport: (i32, i32) = self.globals.viewport;
        let stop: usize = turn_objects(&mut self.globals.game.event_objects, viewport, player, at, end);
        if stop >= end {
            return UpdateAction::Continue { next: UpdateStage::BeginAutos };
        }
        let o: EventObject = self.globals.game.event_objects[stop];
        if o.sprite_frames == 0 {
            return UpdateAction::RunTriggerScript {
                script: o.trigger_script,
                object: (stop + 1) as u16,
                next: UpdateStage::Triggered { at: stop, end },
            };
        }
        let direction: u16 = if player.0 > o.x as i64 {
            if player.1 > o.y as i64 {
                3
            } else {
                2
            }
        } else if player.1 > o.y as i64 {
            0
        } else {
            1
        };
        self.globals.game.event_objects[stop] = EventObject { current_frame_num: 0, direction, ..o };
        self.update_party_gestures(false);
        UpdateAction::ShowScene { next: UpdateStage::Touched { at: stop, end } }
    }

    fn update_triggered(&mut self, at: usize, end: usize, result: u16) -> (a: UpdateAction)
        requires
            old(self).wf(),
            at < end,
            at < old(self).globals.game.event_objects@.len(),
        ensures
            final(self).wf(),
            Engine::after_triggered_step(old(self), final(self), at, end, result, a),
    {
        let o: EventObject = self.globals.game.event_objects[at];
        self.globals.game.event_objects[at] = EventObject { trigger_script: result, ..o };
        self.input.clear_key_state();
        if self.globals.entering_scene {
            return UpdateAction::Over;
        }
        UpdateAction::Continue { next: UpdateStage::Triggers { at: at + 1, end } }
    }

    /// A frame is over: the range of chases has its end nearer.
    fn count_frame(&mut self)
        requires
            old(self).wf(),
            old(self).globals.frame_num < u32::MAX,
        ensures
            final(self).wf(),
            ({
                let g = old(self).globals;
                let cycles = if g.chasespeed_change_cycles == 0 { 0xffff } else { g.chasespeed_change_cycles - 1 };
                *final(self) == (Engine {
                    globals: Globals {
                        chasespeed_change_cycles: cycles as u16,
                        chase_range: if cycles == 0 { 1 } else { g.chase_range },
                        frame_num: (g.frame_num + 1) as u32,
                        ..g
                    },
                    ..*old(self)
                })
            }),
    {
        let cycles: u16 = if self.globals.chasespeed_change_cycles == 0 {
            0xffff
        } else {
            self.globals.chasespeed_change_cycles - 1
        };
        self.globals.chasespeed_change_cycles = cycles;
        if cycles == 0 {
            self.globals.chase_range = 1;
        }
        self.globals.frame_num = self.globals.frame_num + 1;
    }

    fn update_auto(&mut self, trigger: bool, at: usize, end: usize) -> (a: UpdateAction)
        requires
            old(self).wf(),
            at < end ==> end <= old(self).globals.game.event_objects@.len() && end <= 0xffff,
            at < end && trigger && old(self).in_way_of(old(self).globals.game.event_objects@[at as int]) ==> old(self).steps_fit(),
            at >= end ==> old(self).globals.frame_num < u32::MAX,
        ensures
            final(self).wf(),
            Engine::after_auto_step(old(self), final(self), trigger, at, end, a),
    {
        if at >= end {
            self.count_frame();
            return UpdateAction::Over;
        }
        let o: EventObject = self.globals.game.event_objects[at];
        if o.state > 0 && o.vanish_time == 0 && o.auto_script != 0 {
            return UpdateAction::RunAutoScript {
                script: o.auto_script,
                object: (at + 1) as u16,
                next: UpdateStage::AutoDone { at, end },
            };
        }
        if trigger {
            self.step_aside(o);
        }
        UpdateAction::Continue { next: UpdateStage::Autos { at: at + 1, end } }
    }

    fn update_auto_done(&mut self, trigger: bool, at: usize, end: usize, result: u16) -> (a: UpdateAction)
        requires
            old(self).wf(),
            at < end <= old(self).globals.game.event_objects@.len(),
            trigger && old(self).in_way_of(old(self).globals.game.event_objects@[at as int]) ==> old(self).steps_fit(),
        ensures
            final(self).wf(),
            Engine::after_auto_done_step(old(self), final(self), trigger, at, end, result, a),
    {
        let o: EventObject = self.globals.game.event_objects[at];
        let done: EventObject = EventObject { auto_script: result, ..o };
        self.globals.game.event_objects[at] = done;
        if self.globals.entering_scene {
            return UpdateAction::Over;
        }
        if trigger {
            self.step_aside(done);
        }
        UpdateAction::Continue { next: UpdateStage::Autos { at: at + 1, end } }
    }

    /// The tables hold what a stage of the update needs, and counters have
    /// room.
    pub open spec fn update_ready(&self, trigger: bool, stage: UpdateStage) -> bool {
        let count = self.globals.game.event_objects@.len();
        match stage {
            UpdateStage::Start => trigger && self.globals.entering_scene ==> 1 <= self.globals.num_scene
                <= self.globals.game.scenes@.len(),
            UpdateStage::Entered { scene } => scene < self.globals.game.scenes@.len(),
            UpdateStage::BeginTriggers => 1 <= self.globals.num_scene < self.globals.game.scenes@.len(),
            UpdateStage::Triggers { at, end } => {
                &&& at < end ==> end <= count && end <= 0xffff
                &&& self.touch_shown(at, end) ==> self.may_stand()
            },
            UpdateStage::Touched { at, end } => at < end <= count && end <= 0xffff,
            UpdateStage::Triggered { at, end } => at < end <= count,
            UpdateStage::BeginAutos => 1 <= self.globals.num_scene < self.globals.game.scenes@.len(),
            UpdateStage::Autos { at, end } => {
                &&& at < end ==> end <= count && end <= 0xffff
                &&& at < end && trigger && self.in_way_of(self.globals.game.event_objects@[at as int]) ==> self.steps_fit()
                &&& at >= end ==> self.globals.frame_num < u32::MAX
            },
            UpdateStage::AutoDone { at, end } => {
                &&& at < end <= count
                &&& trigger && self.in_way_of(self.globals.game.event_objects@[at as int]) ==> self.steps_fit()
            },
        }
    }

    /// What a stage of the update does and asks for.
    pub open spec fn update_does(
        before: &Engine,
        after: &Engine,
        trigger: bool,
        stage: UpdateStage,
        result: u16,
        a: UpdateAction,
    ) -> bool {
        let (start, end) = (before.globals.scene_start() as usize, before.globals.scene_end() as usize);
        match stage {
            UpdateStage::Start => Engine::after_start_step(before, after, trigger, a),
            UpdateStage::Entered { scene } => Engine::after_entered_step(before, after, scene, result, a),
            UpdateStage::BeginTriggers => a == (UpdateAction::Continue { next: UpdateStage::Triggers { at: start, end } })
                && *after == *before,
            UpdateStage::Triggers { at, end } => Engine::after_triggers_step(before, after, at, end, a),
            UpdateStage::Touched { at, end } => a == (UpdateAction::RunTriggerScript {
                script: before.globals.game.event_objects@[at as int].trigger_script,
                object: (at + 1) as u16,
                next: UpdateStage::Triggered { at, end },
            }) && *after == *before,
            UpdateStage::Triggered { at, end } => Engine::after_triggered_step(before, after, at, end, result, a),
            UpdateStage::BeginAutos => a == (UpdateAction::Continue { next: UpdateStage::Autos { at: start, end } })
                && *after == *before,
            UpdateStage::Autos { at, end } => Engine::after_auto_step(before, after, trigger, at, end, a),
            UpdateStage::AutoDone { at, end } => Engine::after_auto_done_step(before, after, trigger, at, end, result, a),
        }
    }

    /// One stage of the update of a frame. Whoever calls it does what it asks
    /// for and calls it again for the stage that it names, with what a script
    /// handed back.
    pub fn game_update(&mut self, trigger: bool, stage: UpdateStage, result: u16) -> (a: UpdateAction)
        requires
            old(self).wf(),
            old(self).update_ready(trigger, stage),
        ensures
            final(self).wf(),
            Engine::update_does(old(self), final(self), trigger, stage, result, a),
    {
        match stage {
            UpdateStage::Start => self.update_start(trigger),
            UpdateStage::Entered { scene } => self.update_entered(scene, result),
            UpdateStage::BeginTriggers => {
                let (at, end): (usize, usize) = self.scene_range();
                UpdateAction::Continue { next: UpdateStage::Triggers { at, end } }
            },
            UpdateStage::Triggers { at, end } => self.update_triggers(at, end),
            UpdateStage::Touched { at, end } => UpdateAction::RunTriggerScript {
                script: self.globals.game.event_objects[at].trigger_script,
                object: (at + 1) as u16,
                next: UpdateStage::Triggered { at, end },
            },
            UpdateStage::Triggered { at, end } => self.update_triggered(at, end, result),
            UpdateStage::BeginAutos => {
                let (at, end): (usize, usize) = self.scene_range();
                UpdateAction::Continue { next: UpdateStage::Autos { at, end } }
            },
            UpdateStage::Autos { at, end } => self.update_auto(trigger, at, end),
            UpdateStage::AutoDone { at, end } => self.update_auto_done(trigger, at, end, result),
        }
    }
}

/// An update that is not stopped by the entering of a scene makes its way
/// through all event objects: each stage that goes on names a later one.
pub proof fn law_update_goes_forward(before: Engine, after: Engine, trigger: bool, at: usize, end: usize, result: u16, a: UpdateAction)
    requires
        at < end,
        Engine::update_does(&before, &after, trigger, UpdateStage::Autos { at, end }, result, a)
            || Engine::update_does(&before, &after, trigger, UpdateStage::AutoDone { at, end }, result, a),
    ensures
        a == UpdateAction::Over || a == (UpdateAction::Continue { next: UpdateStage::Autos { at: (at + 1) as usize, end } })
            || (a matches UpdateAction::RunAutoScript { next, .. } && next == (UpdateStage::AutoDone { at, end })),
        a == UpdateAction::Over ==> after.globals.entering_scene,
{
}

/// The first way found stays the first.
proof fn lemma_way_aside(e: Engine, direction: u16, n: int)
    requires
        1 <= n <= 4,
        e.way_aside(direction, n) is Some,
    ensures
        e.way_aside(direction, 4) == e.way_aside(direction, n),
    decreases 4 - n,
{
    if n < 4 {
        lemma_way_aside(e, direction, n + 1);
    }
}

/// Whether the party at (`px`, `py`) is within the range at which an event
/// object is touched: it is there (in whatever state above 0), can be touched,
/// and is nearer than its trigger mode asks for.
pub open spec fn in_touch(o: EventObject, px: int, py: int) -> bool {
    &&& o.vanish_time == 0
    &&& o.state > 0
    &&& o.trigger_mode >= 4
    &&& vstd::math::abs(px - o.x) + 2 * vstd::math::abs(py - o.y) < (o.trigger_mode - 4) * 32 + 16
}

/// An event object that is touched and not the first is passed only if an
/// earlier one is touched.
proof fn lemma_next_touched(objects: Seq<EventObject>, player: Pos, at: int, end: int)
    requires
        at <= end,
    ensures
        at <= next_touched(objects, player, at, end) <= end,
        next_touched(objects, player, at, end) < end ==> walked_into(
            objects[next_touched(objects, player, at, end)],
            player,
        ),
        forall|i: int|
            at <= i < next_touched(objects, player, at, end) ==> !walked_into(#[trigger] objects[i], player),
    decreases end - at,
{
    if at < end && !walked_into(objects[at], player) {
        lemma_next_touched(objects, player, at + 1, end);
    }
}

/// The first event object that the party touches stops the turn of the others
/// and has its trigger script run: at once if it has no images of its own, and
/// else after it was shown, turned to the party.
pub proof fn law_touched_object_runs_its_script(before: Engine, after: Engine, at: usize, end: usize, result: u16, i: int, a: UpdateAction)
    requires
        Engine::update_does(&before, &after, true, UpdateStage::Triggers { at, end }, result, a),
        at <= i < end <= before.globals.game.event_objects@.len(),
        ({
            let px = before.globals.viewport.0 + before.globals.partyoffset.0;
            let py = before.globals.viewport.1 + before.globals.partyoffset.1;
            let o = before.globals.game.event_objects@[i];
            &&& o.vanish_time == 0
            &&& o.state > 0
            &&& o.trigger_mode >= 4
            &&& vstd::math::abs(px - o.x) + 2 * vstd::math::abs(py - o.y) < (o.trigger_mode - 4) * 32 + 16
            &&& forall|k: int| at <= k < i ==> !in_touch(#[trigger] before.globals.game.event_objects@[k], px, py)
        }),
    ensures
        ({
            let px = before.globals.viewport.0 + before.globals.partyoffset.0;
            let py = before.globals.viewport.1 + before.globals.partyoffset.1;
            let o = before.globals.game.event_objects@[i];
            let r = after.globals.game.event_objects@[i];
            &&& o.sprite_frames == 0 ==> a == (UpdateAction::RunTriggerScript {
                script: o.trigger_script,
                object: (i + 1) as u16,
                next: UpdateStage::Triggered { at: i as usize, end },
            }) && r == o
            &&& o.sprite_frames != 0 ==> {
                &&& a == (UpdateAction::ShowScene { next: UpdateStage::Touched { at: i as usize, end } })
                &&& r.current_frame_num == 0
                &&& r.trigger_script == o.trigger_script
                &&& px > o.x ==> walk::dir_offset(r.direction as int).0 > 0
                &&& px <= o.x ==> walk::dir_offset(r.direction as int).0 < 0
                &&& py > o.y ==> walk::dir_offset(r.direction as int).1 > 0
                &&& py <= o.y ==> walk::dir_offset(r.direction as int).1 < 0
            }
            &&& forall|k: int|
                i < k < before.globals.game.event_objects@.len() ==> #[trigger] after.globals.game.event_objects@[k]
                    == before.globals.game.event_objects@[k]
        }),
{
    let objects = before.globals.game.event_objects@;
    let player = before.player_pos();
    let px = before.globals.viewport.0 + before.globals.partyoffset.0;
    let py = before.globals.viewport.1 + before.globals.partyoffset.1;
    lemma_next_touched(objects, player, at as int, end as int);
    assert(walked_into(objects[i], player));
    let stop = next_touched(objects, player, at as int, end as int);
    if stop < i {
        assert(in_touch(objects[stop], px, py));
    }
    assert(stop == i);
}

/// While the party touches no event object, all have their turn, and the
/// update goes on with what runs by itself.
pub proof fn law_untouched_objects_go_on(before: Engine, after: Engine, at: usize, end: usize, result: u16, a: UpdateAction)
    requires
        Engine::update_does(&before, &after, true, UpdateStage::Triggers { at, end }, result, a),
        at <= end <= before.globals.game.event_objects@.len(),
        ({
            let px = before.globals.viewport.0 + before.globals.partyoffset.0;
            let py = before.globals.viewport.1 + before.globals.partyoffset.1;
            forall|k: int| at <= k < end ==> !in_touch(#[trigger] before.globals.game.event_objects@[k], px, py)
        }),
    ensures
        a == (UpdateAction::Continue { next: UpdateStage::BeginAutos }),
{
    let objects = before.globals.game.event_objects@;
    let px = before.globals.viewport.0 + before.globals.partyoffset.0;
    let py = before.globals.viewport.1 + before.globals.partyoffset.1;
    lemma_next_touched(objects, before.player_pos(), at as int, end as int);
    let stop = next_touched(objects, before.player_pos(), at as int, end as int);
    if stop < end {
        assert(in_touch(objects[stop], px, py));
    }
}

/// Its turn brings an event object that has vanished one nearer to its return,
/// and makes one with a state below 0 appear again, in its first image, once
/// it is off the screen. Others stay as they are.
pub proof fn law_turns_bring_objects_back(before: Engine, after: Engine, at: usize, end: usize, result: u16, a: UpdateAction, i: int)
    requires
        Engine::update_does(&before, &after, true, UpdateStage::Triggers { at, end }, result, a),
        a == (UpdateAction::Continue { next: UpdateStage::BeginAutos }),
        at <= i < end <= before.globals.game.event_objects@.len(),
    ensures
        ({
            let o = before.globals.game.event_objects@[i];
            let r = after.globals.game.event_objects@[i];
            let sx = o.x - before.globals.viewport.0;
            let sy = o.y - before.globals.viewport.1;
            &&& o.vanish_time != 0 ==> vstd::math::abs(r.vanish_time as int) == vstd::math::abs(o.vanish_time as int) - 1
                && r.state == o.state
            &&& o.vanish_time == 0 ==> r.vanish_time == 0
            &&& o.vanish_time == 0 && i16::MIN < o.state < 0 && !(0 <= sx <= 320 && 0 <= sy <= 320) ==> r.state == -o.state
                && r.current_frame_num == 0
            &&& o.vanish_time == 0 && (o.state >= 0 || (0 <= sx <= 320 && 0 <= sy <= 320)) ==> r == o
            &&& r.x == o.x && r.y == o.y && r.trigger_script == o.trigger_script && r.direction == o.direction
        }),
{
    lemma_next_touched(before.globals.game.event_objects@, before.player_pos(), at as int, end as int);
}

/// A scene that is entered has its script run, once, before anything else; and
/// a script that has run starts the next time where it said.
pub proof fn law_scripts_go_on_where_they_stopped(before: Engine, after: Engine, trigger: bool, stage: UpdateStage, result: u16, a: UpdateAction)
    requires
        before.update_ready(trigger, stage),
        Engine::update_does(&before, &after, trigger, stage, result, a),
    ensures
        stage == UpdateStage::Start && trigger && before.globals.entering_scene ==> {
            &&& a matches UpdateAction::RunTriggerScript { script, object, next }
            &&& script == before.globals.game.scenes@[before.globals.num_scene - 1].script_on_enter
            &&& object == 0xffff
            &&& next matches UpdateStage::Entered { scene }
            &&& scene == before.globals.num_scene - 1
            &&& !after.globals.entering_scene
        },
        stage matches UpdateStage::Entered { scene } ==> after.globals.game.scenes@[scene as int].script_on_enter == result,
        stage matches UpdateStage::Touched { at, .. } ==> {
            &&& a matches UpdateAction::RunTriggerScript { script, object, next }
            &&& script == before.globals.game.event_objects@[at as int].trigger_script
            &&& object == at + 1
            &&& next matches UpdateStage::Triggered { at: k, .. }
            &&& k == at
        },
        stage matches UpdateStage::Triggered { at, .. } ==> after.globals.game.event_objects@[at as int].trigger_script == result,
        stage matches UpdateStage::AutoDone { at, .. } ==> after.globals.game.event_objects@[at as int].auto_script == result,
        before.globals.entering_scene && (stage is Entered || stage is Triggered || stage is AutoDone) ==> a == UpdateAction::Over,
{
}

/// An event object that is there (in whatever state above 0) and has an
/// automatic script has it run; others do not.
pub proof fn law_autos_run(before: Engine, after: Engine, trigger: bool, at: usize, end: usize, result: u16, a: UpdateAction)
    requires
        before.update_ready(trigger, UpdateStage::Autos { at, end }),
        Engine::update_does(&before, &after, trigger, UpdateStage::Autos { at, end }, result, a),
        at < end,
    ensures
        ({
            let o = before.globals.game.event_objects@[at as int];
            a is RunAutoScript <==> o.state >= 1 && o.vanish_time == 0 && o.auto_script != 0
        }),
        a matches UpdateAction::RunAutoScript { script, object, .. } ==> script == before.globals.game.event_objects@[at as int].auto_script
            && object == at + 1,
        !trigger ==> after.globals.viewport == before.globals.viewport,
{
}

/// At the end of an update the frame is counted. The range of chases is back to
/// normal when its time is over.
pub proof fn law_frames_are_counted(before: Engine, after: Engine, trigger: bool, at: usize, end: usize, result: u16, a: UpdateAction)
    requires
        before.update_ready(trigger, UpdateStage::Autos { at, end }),
        Engine::update_does(&before, &after, trigger, UpdateStage::Autos { at, end }, result, a),
        at >= end,
    ensures
        a == UpdateAction::Over,
        after.globals.frame_num == before.globals.frame_num + 1,
        before.globals.chasespeed_change_cycles == 1 ==> after.globals.chase_range == 1,
        before.globals.chasespeed_change_cycles != 1 ==> after.globals.chase_range == before.globals.chase_range,
        (after.globals.chasespeed_change_cycles + 1) % 0x1_0000 == before.globals.chasespeed_change_cycles,
{
}

/// The party gets out of the way of an event object that walks over it, if it
/// shows and blocks: one step, the first that is free of the directions that
/// follow the one in which the event object faces. Else it stays.
pub proof fn law_party_steps_aside(e: Engine, o: EventObject, k: int)
    requires
        e.steps_fit(),
        o.direction < 4,
        1 <= k <= 4,
    ensures
        ({
            let px = e.globals.viewport.0 + e.globals.partyoffset.0;
            let py = e.globals.viewport.1 + e.globals.partyoffset.1;
            let near = vstd::math::abs(px - o.x) + 2 * vstd::math::abs(py - o.y) <= 12;
            let (dx, dy) = walk::dir_offset((o.direction + k) % 4);
            let free = |d: (int, int)| !e.obstacle(((px + d.0) as i64, (py + d.1) as i64), true, 0, true);
            let all_taken = forall|m: int| 1 <= m < k ==> !free(#[trigger] walk::dir_offset((o.direction + m) % 4));
            &&& !(o.state >= 2 && o.sprite_num != 0 && near) ==> e.viewport_aside(o) == e.globals.viewport
            &&& o.state >= 2 && o.sprite_num != 0 && near && all_taken && free((dx, dy)) ==> e.viewport_aside(o) == (
                (e.globals.viewport.0 + dx) as i32,
                (e.globals.viewport.1 + dy) as i32,
            )
            &&& k == 4 && all_taken && !free((dx, dy)) ==> e.viewport_aside(o) == e.globals.viewport
        }),
{
    reveal_with_fuel(Engine::way_aside, 5);
    let px = e.globals.viewport.0 + e.globals.partyoffset.0;
    let py = e.globals.viewport.1 + e.globals.partyoffset.1;
    let free = |d: (int, int)| !e.obstacle(((px + d.0) as i64, (py + d.1) as i64), true, 0, true);
    let all_taken = forall|m: int| 1 <= m < k ==> !free(#[trigger] walk::dir_offset((o.direction + m) % 4));
    if all_taken {
        assert(k > 1 ==> !free(walk::dir_offset((o.direction + 1) % 4)));
        assert(k > 2 ==> !free(walk::dir_offset((o.direction + 2) % 4)));
        assert(k > 3 ==> !free(walk::dir_offset((o.direction + 3) % 4)));
    }
}

/// The update goes through the event objects of the current scene, from its
/// first to where those of the next scene start; first for what is touched, if
/// that is asked for, and then for what runs by itself. One after the other has
/// its turn.
pub proof fn law_update_goes_through_the_scene(before: Engine, after: Engine, trigger: bool, stage: UpdateStage, result: u16, a: UpdateAction)
    requires
        before.update_ready(trigger, stage),
        Engine::update_does(&before, &after, trigger, stage, result, a),
    ensures
        ({
            let start = before.globals.game.scenes@[before.globals.num_scene - 1].event_object_index as usize;
            let end = before.globals.game.scenes@[before.globals.num_scene as int].event_object_index as usize;
            &&& stage == UpdateStage::BeginTriggers ==> a == (UpdateAction::Continue {
                next: UpdateStage::Triggers { at: start, end },
            })
            &&& stage == UpdateStage::BeginAutos ==> a == (UpdateAction::Continue { next: UpdateStage::Autos { at: start, end } })
            &&& stage == UpdateStage::Start && !trigger ==> a == (UpdateAction::Continue { next: UpdateStage::BeginAutos })
            &&& stage == UpdateStage::Start && trigger && !before.globals.entering_scene ==> a == (UpdateAction::Continue {
                next: UpdateStage::BeginTriggers,
            })
            &&& stage is Entered && !before.globals.entering_scene ==> a == (UpdateAction::MakeScene {
                next: UpdateStage::BeginTriggers,
            }) && after.input@.key_press == 0 && after.input@.pending_dir == 4
            &&& stage matches UpdateStage::Triggered { at, end } ==> {
                &&& !before.globals.entering_scene ==> a == (UpdateAction::Continue {
                    next: UpdateStage::Triggers { at: (at + 1) as usize, end },
                })
                &&& after.input@.key_press == 0
                &&& after.input@.pending_dir == 4
            }
        }),
{
}

} // verus!
