//! Walking: the party's steps and gestures, and those of other characters.

use vstd::prelude::*;

use crate::casts;
use crate::engine::{Engine, SceneState};
use crate::gamedata::GameData;
use crate::geometry;
use crate::geometry::Pos;
use crate::global::{Globals, DIR_EAST, DIR_NORTH, DIR_SOUTH, DIR_WEST};
use crate::input;
use crate::input::Keyboard;
use crate::records::{EventObject, Party, Trail};

verus! {

/// How far a walking step in a direction leads.
pub open spec fn dir_offset(dir: int) -> (int, int) {
    (
        if dir == 1 || dir == 0 { -16 } else { 16 },
        if dir == 1 || dir == 2 { -8 } else { 8 },
    )
}

/// Where party member `i` walks, seen from the spot behind the leader.
pub open spec fn member_offset(i: int, trail_dir: u16) -> (int, int) {
    if i == 2 {
        (if trail_dir == DIR_EAST || trail_dir == DIR_WEST { -16 } else { 16 }, 8)
    } else {
        (
            if trail_dir == DIR_WEST || trail_dir == DIR_SOUTH { 16 } else { -16 },
            if trail_dir == DIR_WEST || trail_dir == DIR_NORTH { 8 } else { -8 },
        )
    }
}

/// The frame of the leader's stepping foot at a step of the gesture.
pub open spec fn leading_foot(step: int) -> int {
    if step == 1 {
        1
    } else if step == 3 {
        2
    } else {
        0
    }
}

/// The frame of a follower's stepping foot at a step of the gesture.
pub open spec fn following_foot(step: int) -> int {
    if step == 1 {
        2
    } else if step == 3 {
        1
    } else {
        0
    }
}

/// The frame of a walking character.
pub open spec fn walking_frame(walk_frames: u16, dir: u16, step: int) -> int {
    if walk_frames == 4 {
        dir * 4 + step
    } else {
        dir * 3 + leading_foot(step)
    }
}

/// The frames per direction of a standing character.
pub open spec fn standing_frames(walk_frames: u16) -> int {
    if walk_frames == 0 {
        3
    } else {
        walk_frames as int
    }
}

impl Engine {
    /// The walk frames of the role that party member `i` plays.
    pub open spec fn walk_frames_of(&self, party: Seq<Party>, i: int) -> u16 {
        self.globals.game.player_roles.walk_frames@[party[i].player_role as int]
    }

    /// The spot behind the leader, on the screen.
    pub open spec fn behind_leader(&self) -> Pos {
        (
            (self.globals.trail@[1].x - self.globals.viewport.0) as i64,
            (self.globals.trail@[1].y - self.globals.viewport.1) as i64,
        )
    }

    /// The screen position that party member `i` would like to walk at.
    pub open spec fn wished_spot(&self, i: int) -> (i16, i16) {
        let base = self.behind_leader();
        let d = member_offset(i, self.globals.trail@[1].direction);
        (((base.0 + d.0) as i64) as i16, ((base.1 + d.1) as i64) as i16)
    }

    /// The world position of a screen position.
    pub open spec fn world_of(&self, spot: (i16, i16)) -> Pos {
        ((spot.0 + self.globals.viewport.0) as i64, (spot.1 + self.globals.viewport.1) as i64)
    }

    /// Walking party member `i`: beside the spot behind the leader, or on it
    /// where the way is blocked.
    pub open spec fn walking_member(&self, party: Seq<Party>, i: int) -> Party {
        let wished = self.wished_spot(i);
        let base = self.behind_leader();
        let spot = if self.obstacle(self.world_of(wished), true, 0, true) {
            (base.0 as i16, base.1 as i16)
        } else {
            wished
        };
        Party {
            x: spot.0,
            y: spot.1,
            frame: walking_frame(
                self.walk_frames_of(party, i),
                self.globals.trail@[2].direction,
                self.scene.this_step_frame as int,
            ) as u16,
            ..party[i]
        }
    }

    /// The walking follower at place `i` of the party, on the trail.
    pub open spec fn walking_follower(&self, party: Seq<Party>, i: int) -> Party {
        let t = self.globals.trail@[2 + i - self.globals.max_party_member_index];
        Party {
            x: ((t.x - self.globals.viewport.0) as i64) as i16,
            y: ((t.y - self.globals.viewport.1) as i64) as i16,
            frame: (t.direction * 3 + following_foot(self.scene.this_step_frame as int)) as u16,
            ..party[i]
        }
    }

    /// The party as it walks, `party` being how it stood.
    pub open spec fn walking_party(&self, party: Seq<Party>) -> Seq<Party> {
        Seq::new(
            5,
            |i: int|
                if i == 0 {
                    Party {
                        x: self.globals.partyoffset.0 as i16,
                        y: self.globals.partyoffset.1 as i16,
                        frame: walking_frame(
                            self.walk_frames_of(party, 0),
                            self.globals.party_direction,
                            self.scene.this_step_frame as int,
                        ) as u16,
                        ..party[0]
                    }
                } else if i <= self.globals.max_party_member_index {
                    self.walking_member(party, i)
                } else if i < self.globals.walkers() {
                    self.walking_follower(party, i)
                } else {
                    party[i]
                },
        )
    }

    /// The party as it stands, `party` being how it was.
    pub open spec fn standing_party(&self, party: Seq<Party>) -> Seq<Party> {
        Seq::new(
            5,
            |i: int|
                if i == 0 {
                    Party {
                        frame: (self.globals.party_direction * standing_frames(self.walk_frames_of(party, 0))) as u16,
                        ..party[0]
                    }
                } else if i <= self.globals.max_party_member_index {
                    Party {
                        frame: (self.globals.trail@[2].direction * standing_frames(self.walk_frames_of(party, i))) as u16,
                        ..party[i]
                    }
                } else if i < self.globals.walkers() {
                    Party {
                        frame: (self.globals.trail@[2 + i - self.globals.max_party_member_index].direction * 3) as u16,
                        ..party[i]
                    }
                } else {
                    party[i]
                },
        )
    }

    /// Members and followers have their places in the party and on the trail,
    /// and members play known roles.
    pub open spec fn walkers_placed(&self) -> bool {
        &&& self.globals.walkers_known()
        &&& self.globals.follower_num <= 2
    }

    /// The frame numbers of standing characters fit a word.
    pub open spec fn standing_frames_fit(&self, direction: int) -> bool {
        &&& direction * standing_frames(self.walk_frames_of(self.globals.party@, 0)) <= u16::MAX
        &&& forall|i: int|
            1 <= i <= self.globals.max_party_member_index ==> self.globals.trail@[2].direction * standing_frames(
                self.globals.game.player_roles.walk_frames@[(#[trigger] self.globals.party@[i]).player_role as int],
            ) <= u16::MAX
        &&& forall|i: int|
            1 <= i <= self.globals.follower_num ==> (#[trigger] self.globals.trail@[2 + i]).direction * 3 <= u16::MAX
    }

    /// The frame numbers of walking characters fit a word.
    pub open spec fn walking_frames_fit(&self, direction: int, trail: Seq<Trail>) -> bool {
        &&& direction * 4 + 3 <= u16::MAX
        &&& self.globals.max_party_member_index >= 1 ==> trail[2].direction * 4 + 3 <= u16::MAX
        &&& forall|i: int| 1 <= i <= self.globals.follower_num ==> (#[trigger] trail[2 + i]).direction * 3 + 2 <= u16::MAX
    }

    /// Everything but the party records and the step of the gesture is as in
    /// `before`.
    pub open spec fn only_gestures_changed(&self, before: &Engine) -> bool {
        *self == (Engine {
            globals: Globals { party: self.globals.party, ..before.globals },
            scene: SceneState { this_step_frame: self.scene.this_step_frame, ..before.scene },
            ..*before
        })
    }

    /// Update the party's positions and gestures.
    pub fn update_party_gestures(&mut self, walking: bool)
        requires
            old(self).wf(),
            old(self).walkers_placed(),
            walking ==> old(self).walking_frames_fit(old(self).globals.party_direction as int, old(self).globals.trail@),
            !walking ==> old(self).standing_frames_fit(old(self).globals.party_direction as int),
        ensures
            final(self).wf(),
            final(self).only_gestures_changed(old(self)),
            walking ==> {
                &&& final(self).scene.this_step_frame == (old(self).scene.this_step_frame + 1) % 4
                &&& final(self).globals.party@ == final(self).walking_party(old(self).globals.party@)
            },
            !walking ==> {
                &&& final(self).scene.this_step_frame == if old(self).scene.this_step_frame < 2 { 2int } else { 0 }
                &&& final(self).globals.party@ == final(self).standing_party(old(self).globals.party@)
            },
    {
        if walking {
            let step: i32 = (self.scene.this_step_frame + 1) % 4;
            self.scene.this_step_frame = step;
            let ghost mid = *self;
            let party: [Party; 5] = self.walk_gestures();
            self.globals.party = party;
            proof {
                lemma_walking_party_same(mid, *self, old(self).globals.party@);
            }
        } else {
            let party: [Party; 5] = self.stand_gestures();
            self.globals.party = party;
            let step: i32 = if self.scene.this_step_frame < 2 {
                2
            } else {
                0
            };
            self.scene.this_step_frame = step;
            assert(self.globals.party@ =~= self.standing_party(old(self).globals.party@));
        }
    }

    fn walk_frame(&self, role: usize, dir: u16) -> (f: u16)
        requires
            self.wf(),
            role < 6,
            dir * 4 + 3 <= u16::MAX,
        ensures
            f == walking_frame(
                self.globals.game.player_roles.walk_frames@[role as int],
                dir,
                self.scene.this_step_frame as int,
            ),
    {
        let step: i32 = self.scene.this_step_frame;
        if self.globals.game.player_roles.walk_frames[role] == 4 {
            dir * 4 + step as u16
        } else {
            dir * 3 + if step == 1 {
                1
            } else if step == 3 {
                2
            } else {
                0
            }
        }
    }

    fn place_member(&self, i: usize) -> (p: Party)
        requires
            self.wf(),
            self.walkers_placed(),
            1 <= i <= self.globals.max_party_member_index,
            self.walking_frames_fit(self.globals.party_direction as int, self.globals.trail@),
        ensures
            p == self.walking_member(self.globals.party@, i as int),
    {
        assert(self.globals.party@[i as int].player_role < 6);
        let base_x: i64 = self.globals.trail[1].x as i64 - self.globals.viewport.0 as i64;
        let base_y: i64 = self.globals.trail[1].y as i64 - self.globals.viewport.1 as i64;
        let dir1: u16 = self.globals.trail[1].direction;
        let (dx, dy): (i64, i64) = if i == 2 {
            (if dir1 == DIR_EAST || dir1 == DIR_WEST { -16 } else { 16 }, 8)
        } else {
            (
                if dir1 == DIR_WEST || dir1 == DIR_SOUTH { 16 } else { -16 },
                if dir1 == DIR_WEST || dir1 == DIR_NORTH { 8 } else { -8 },
            )
        };
        let wished_x: i16 = (base_x + dx) as i16;
        let wished_y: i16 = (base_y + dy) as i16;
        assert((wished_x, wished_y) == self.wished_spot(i as int));
        let check: Pos = (
            wished_x as i64 + self.globals.viewport.0 as i64,
            wished_y as i64 + self.globals.viewport.1 as i64,
        );
        assert(check == self.world_of((wished_x, wished_y)));
        let blocked: bool = self.obstacle_at(check, true, 0, true);
        let member: Party = self.globals.party[i];
        let frame: u16 = self.walk_frame(member.player_role as usize, self.globals.trail[2].direction);
        if blocked {
            Party { x: base_x as i16, y: base_y as i16, frame, ..member }
        } else {
            Party { x: wished_x, y: wished_y, frame, ..member }
        }
    }

    fn walk_gestures(&self) -> (r: [Party; 5])
        requires
            self.wf(),
            self.walkers_placed(),
            self.walking_frames_fit(self.globals.party_direction as int, self.globals.trail@),
        ensures
            r@ == self.walking_party(self.globals.party@),
    {
        let ghost before = self.globals.party@;
        let mut party: [Party; 5] = self.globals.party;
        let leader: Party = party[0];
        assert(before[0].player_role < 6);
        let frame0: u16 = self.walk_frame(leader.player_role as usize, self.globals.party_direction);
        party[0] = Party {
            x: self.globals.partyoffset.0 as i16,
            y: self.globals.partyoffset.1 as i16,
            frame: frame0,
            ..leader
        };
        let members: usize = self.globals.max_party_member_index as usize;
        let followers: usize = self.globals.follower_num as usize;
        let mut i: usize = 1;
        while i <= members
            invariant
                self.wf(),
                self.walkers_placed(),
                self.walking_frames_fit(self.globals.party_direction as int, self.globals.trail@),
                before == self.globals.party@,
                members == self.globals.max_party_member_index,
                1 <= i <= members + 1,
                forall|k: int| 0 <= k < i ==> #[trigger] party@[k] == self.walking_party(before)[k],
                forall|k: int| i <= k < 5 ==> #[trigger] party@[k] == before[k],
            decreases members + 1 - i,
        {
            party[i] = self.place_member(i);
            i = i + 1;
        }
        let mut i: usize = 1;
        while i <= followers
            invariant
                self.wf(),
                self.walkers_placed(),
                self.walking_frames_fit(self.globals.party_direction as int, self.globals.trail@),
                before == self.globals.party@,
                members == self.globals.max_party_member_index,
                followers == self.globals.follower_num,
                1 <= i <= followers + 1,
                forall|k: int| 0 <= k < members + i ==> #[trigger] party@[k] == self.walking_party(before)[k],
                forall|k: int| members + i <= k < 5 ==> #[trigger] party@[k] == before[k],
            decreases followers + 1 - i,
        {
            let idx: usize = members + i;
            let t: Trail = self.globals.trail[2 + i];
            assert(self.globals.trail@[2 + i as int] == t);
            let step: i32 = self.scene.this_step_frame;
            let foot: u16 = if step == 1 {
                2
            } else if step == 3 {
                1
            } else {
                0
            };
            let follower: Party = party[idx];
            party[idx] = Party {
                x: (t.x as i64 - self.globals.viewport.0 as i64) as i16,
                y: (t.y as i64 - self.globals.viewport.1 as i64) as i16,
                frame: t.direction * 3 + foot,
                ..follower
            };
            i = i + 1;
        }
        assert(party@ =~= self.walking_party(before));
        party
    }

    fn stand_gestures(&self) -> (r: [Party; 5])
        requires
            self.wf(),
            self.walkers_placed(),
            self.standing_frames_fit(self.globals.party_direction as int),
        ensures
            r@ == self.standing_party(self.globals.party@),
    {
        let ghost before = self.globals.party@;
        let mut party: [Party; 5] = self.globals.party;
        let members: usize = self.globals.max_party_member_index as usize;
        let followers: usize = self.globals.follower_num as usize;
        let mut i: usize = 0;
        while i <= members
            invariant
                self.walkers_placed(),
                self.standing_frames_fit(self.globals.party_direction as int),
                before == self.globals.party@,
                members == self.globals.max_party_member_index,
                0 <= i <= members + 1,
                forall|k: int| 0 <= k < i ==> #[trigger] party@[k] == self.standing_party(before)[k],
                forall|k: int| i <= k < 5 ==> #[trigger] party@[k] == before[k],
            decreases members + 1 - i,
        {
            assert(before[i as int].player_role < 6);
            let member: Party = party[i];
            let frames: u16 = self.globals.game.player_roles.walk_frames[member.player_role as usize];
            assert(frames == self.walk_frames_of(before, i as int));
            let frames: u16 = if frames == 0 {
                3
            } else {
                frames
            };
            let dir: u16 = if i == 0 {
                self.globals.party_direction
            } else {
                self.globals.trail[2].direction
            };
            assert(dir * frames <= u16::MAX);
            party[i] = Party { frame: dir * frames, ..member };
            i = i + 1;
        }
        let mut i: usize = 1;
        while i <= followers
            invariant
                self.walkers_placed(),
                self.standing_frames_fit(self.globals.party_direction as int),
                before == self.globals.party@,
                members == self.globals.max_party_member_index,
                followers == self.globals.follower_num,
                1 <= i <= followers + 1,
                forall|k: int| 0 <= k < members + i ==> #[trigger] party@[k] == self.standing_party(before)[k],
                forall|k: int| members + i <= k < 5 ==> #[trigger] party@[k] == before[k],
            decreases followers + 1 - i,
        {
            let t: Trail = self.globals.trail[2 + i];
            assert(self.globals.trail@[2 + i as int] == t);
            let follower: Party = party[members + i];
            party[members + i] = Party { frame: t.direction * 3, ..follower };
            i = i + 1;
        }
        assert(party@ =~= self.standing_party(before));
        party
    }

    /// The trail after a step from `source` in direction `dir`.
    pub open spec fn trail_after(trail: Seq<Trail>, source: (int, int), dir: int) -> Seq<Trail> {
        seq![
            Trail { x: (source.0 as i32) as u16, y: (source.1 as i32) as u16, direction: dir as u16 },
            trail[0],
            trail[1],
            trail[2],
            trail[3],
        ]
    }

    /// Where the party stands in the world.
    pub open spec fn party_position(&self) -> (int, int) {
        (
            self.globals.viewport.0 + self.globals.partyoffset.0,
            self.globals.viewport.1 + self.globals.partyoffset.1,
        )
    }

    /// A step in any direction stays within 32 bits.
    pub open spec fn steps_fit(&self) -> bool {
        let p = self.party_position();
        &&& i32::MIN + 16 <= p.0 <= i32::MAX - 16
        &&& i32::MIN + 16 <= p.1 <= i32::MAX - 16
        &&& i32::MIN + 16 <= self.globals.viewport.0 <= i32::MAX - 16
        &&& i32::MIN + 16 <= self.globals.viewport.1 <= i32::MAX - 16
    }

    /// Members and followers have their places, a step fits if one is asked
    /// for, and so do the frame numbers that walking or standing gives.
    pub open spec fn party_ready(&self, now: u64) -> bool {
        &&& self.walkers_placed()
        &&& self.input@.frame_dir(now) != 4 ==> self.steps_fit()
        &&& {
            let dir = self.input@.frame_dir(now);
            if self.will_walk(dir) {
                self.walking_frames_fit(dir, Engine::trail_after(self.globals.trail@, self.party_position(), dir))
            } else {
                self.standing_frames_fit(if dir != 4 { dir } else { self.globals.party_direction as int })
            }
        }
    }

    /// Where a step in a direction leads the party.
    pub open spec fn step_target(&self, dir: int) -> Pos {
        (
            (self.party_position().0 + dir_offset(dir).0) as i64,
            (self.party_position().1 + dir_offset(dir).1) as i64,
        )
    }

    /// The party is asked to step in a direction, and nothing is in its way.
    pub open spec fn will_walk(&self, dir: int) -> bool {
        dir != 4 && !self.obstacle(self.step_target(dir), true, 0, true)
    }

    /// The party has walked in the direction that the input asked for, or has
    /// turned there before an obstacle, or stands.
    pub open spec fn party_walked(before: &Engine, after: &Engine, now: u64) -> bool {
        let dir = before.input@.frame_dir(now);
        let offset = dir_offset(dir);
        let source = before.party_position();
        let moves = before.will_walk(dir);
        let g = before.globals;
        &&& after.wf()
        &&& after.input@ == (Keyboard { pending_dir: 4, ..before.input@ })
        &&& after.globals.party_direction == if dir != 4 { dir } else { g.party_direction as int }
        &&& after.globals.viewport == if moves {
            ((g.viewport.0 + offset.0) as i32, (g.viewport.1 + offset.1) as i32)
        } else {
            g.viewport
        }
        &&& after.globals.trail@ == if moves { Engine::trail_after(g.trail@, source, dir) } else { g.trail@ }
        &&& after.globals.party@ == if moves {
            after.walking_party(g.party@)
        } else {
            after.standing_party(g.party@)
        }
        &&& after.scene.this_step_frame == if moves {
            (before.scene.this_step_frame + 1) % 4
        } else if before.scene.this_step_frame < 2 {
            2
        } else {
            0
        }
        &&& *after == (Engine {
            globals: Globals {
                party_direction: after.globals.party_direction,
                viewport: after.globals.viewport,
                trail: after.globals.trail,
                party: after.globals.party,
                ..g
            },
            input: after.input,
            scene: SceneState { this_step_frame: after.scene.this_step_frame, ..before.scene },
            ..*before
        })
    }

    /// Walk the party in the direction that the input asks for, if any, and
    /// update its gestures. A blocked way still turns the party.
    #[verifier::rlimit(40)]
    pub fn update_party(&mut self, now: u64)
        requires
            old(self).wf(),
            old(self).party_ready(now),
        ensures
            Engine::party_walked(old(self), final(self), now),
    {
        let dir: usize = self.input.take_direction(now);
        proof {
            lemma_obstacle_ignores_input(*old(self), *self, old(self).step_target(dir as int));
        }
        if dir == input::DIR_UNKNOWN {
            self.update_party_gestures(false);
            return;
        }
        let (dx, dy): (i32, i32) = offset_towards(dir);
        if self.way_blocked(dx, dy) {
            self.turn_to(dir);
        } else {
            self.step_to(dir, dx, dy);
        }
    }

    fn turn_to(&mut self, dir: usize)
        requires
            old(self).wf(),
            dir < 4,
            old(self).walkers_placed(),
            old(self).standing_frames_fit(dir as int),
        ensures
            final(self).wf(),
            final(self).globals.party_direction == dir,
            final(self).globals.party@ == final(self).standing_party(old(self).globals.party@),
            final(self).scene.this_step_frame == if old(self).scene.this_step_frame < 2 { 2int } else { 0 },
            *final(self) == (Engine {
                globals: Globals {
                    party_direction: final(self).globals.party_direction,
                    party: final(self).globals.party,
                    ..old(self).globals
                },
                scene: SceneState { this_step_frame: final(self).scene.this_step_frame, ..old(self).scene },
                ..*old(self)
            }),
    {
        self.globals.party_direction = dir as u16;
        self.update_party_gestures(false);
    }

    fn step_to(&mut self, dir: usize, dx: i32, dy: i32)
        requires
            old(self).wf(),
            dir < 4,
            -16 <= dx <= 16,
            -16 <= dy <= 16,
            old(self).walkers_placed(),
            old(self).steps_fit(),
            old(self).walking_frames_fit(
                dir as int,
                Engine::trail_after(old(self).globals.trail@, old(self).party_position(), dir as int),
            ),
        ensures
            final(self).wf(),
            final(self).globals.party_direction == dir,
            final(self).globals.viewport == ((old(self).globals.viewport.0 + dx) as i32, (old(self).globals.viewport.1
                + dy) as i32),
            final(self).globals.trail@ == Engine::trail_after(
                old(self).globals.trail@,
                old(self).party_position(),
                dir as int,
            ),
            final(self).globals.party@ == final(self).walking_party(old(self).globals.party@),
            final(self).scene.this_step_frame == (old(self).scene.this_step_frame + 1) % 4,
            *final(self) == (Engine {
                globals: Globals {
                    party_direction: final(self).globals.party_direction,
                    viewport: final(self).globals.viewport,
                    trail: final(self).globals.trail,
                    party: final(self).globals.party,
                    ..old(self).globals
                },
                scene: SceneState { this_step_frame: final(self).scene.this_step_frame, ..old(self).scene },
                ..*old(self)
            }),
    {
        let t: [Trail; 5] = self.pushed_trail(dir as u16);
        self.globals.party_direction = dir as u16;
        self.globals.trail = t;
        self.globals.viewport = (self.globals.viewport.0 + dx, self.globals.viewport.1 + dy);
        self.update_party_gestures(true);
    }

    /// Whether an obstacle stands where a step would lead the party.
    fn way_blocked(&self, dx: i32, dy: i32) -> (b: bool)
        requires
            self.wf(),
            self.steps_fit(),
            -16 <= dx <= 16,
            -16 <= dy <= 16,
        ensures
            b == self.obstacle(
                ((self.party_position().0 + dx) as i64, (self.party_position().1 + dy) as i64),
                true,
                0,
                true,
            ),
    {
        let x: i32 = self.globals.viewport.0 + self.globals.partyoffset.0;
        let y: i32 = self.globals.viewport.1 + self.globals.partyoffset.1;
        self.check_obstacle_with_range((x + dx, y + dy), true, 0, true)
    }

    /// The trail after a step from where the party stands.
    fn pushed_trail(&self, dir: u16) -> (r: [Trail; 5])
        requires
            self.steps_fit(),
        ensures
            r@ == Engine::trail_after(self.globals.trail@, self.party_position(), dir as int),
    {
        let x: i32 = self.globals.viewport.0 + self.globals.partyoffset.0;
        let y: i32 = self.globals.viewport.1 + self.globals.partyoffset.1;
        let t: [Trail; 5] = self.globals.trail;
        let r: [Trail; 5] = [Trail { x: x as u16, y: y as u16, direction: dir }, t[0], t[1], t[2], t[3]];
        assert(r@ =~= Engine::trail_after(self.globals.trail@, self.party_position(), dir as int));
        r
    }

    /// What one step does to an event object.
    pub open spec fn walked_object(o: EventObject, speed: int) -> EventObject {
        let dx = if o.direction == DIR_WEST || o.direction == DIR_SOUTH { -2 } else { 2 };
        let dy = if o.direction == DIR_WEST || o.direction == DIR_NORTH { -1 } else { 1int };
        EventObject {
            x: ((o.x + dx * speed) % 0x1_0000) as u16,
            y: ((o.y + dy * speed) % 0x1_0000) as u16,
            current_frame_num: if o.sprite_frames == 3 {
                ((o.current_frame_num + 1) % 4) as u16
            } else if o.sprite_frames > 0 {
                ((o.current_frame_num + 1) % (o.sprite_frames as int)) as u16
            } else if o.sprite_frames_auto > 0 {
                ((o.current_frame_num + 1) % (o.sprite_frames_auto as int)) as u16
            } else {
                o.current_frame_num
            },
            ..o
        }
    }

    /// Move and animate an event object, by its number counted from 1; other
    /// numbers are ignored.
    pub fn npc_walk_one_step(&mut self, event_object_id: u16, speed: i32)
        requires
            -0x3fff_8000 <= speed <= 0x3fff_8000,
            1 <= event_object_id <= old(self).globals.game.event_objects@.len() ==> {
                let o = old(self).globals.game.event_objects@[event_object_id - 1];
                o.sprite_frames > 0 || o.sprite_frames_auto > 0 ==> o.current_frame_num < u16::MAX
            },
        ensures
            final(self).globals.game.event_objects@ == if 1 <= event_object_id <= old(self).globals.game.event_objects@.len() {
                old(self).globals.game.event_objects@.update(
                    event_object_id - 1,
                    Engine::walked_object(old(self).globals.game.event_objects@[event_object_id - 1], speed as int),
                )
            } else {
                old(self).globals.game.event_objects@
            },
            *final(self) == (Engine {
                globals: Globals {
                    game: GameData { event_objects: final(self).globals.game.event_objects, ..old(self).globals.game },
                    ..old(self).globals
                },
                ..*old(self)
            }),
    {
        if event_object_id == 0 || event_object_id as usize > self.globals.game.event_objects.len() {
            return;
        }
        let at: usize = event_object_id as usize - 1;
        let o: EventObject = self.globals.game.event_objects[at];
        self.globals.game.event_objects[at] = walk_object(o, speed);
    }
}

/// How far a step in a direction leads.
fn offset_towards(dir: usize) -> (d: (i32, i32))
    requires
        dir < 4,
    ensures
        d == ((dir_offset(dir as int).0 as i32), (dir_offset(dir as int).1 as i32)),
{
    (
        if dir == input::DIR_WEST || dir == input::DIR_SOUTH {
            -16
        } else {
            16
        },
        if dir == input::DIR_WEST || dir == input::DIR_NORTH {
            -8
        } else {
            8
        },
    )
}

/// Move and animate one event object.
fn walk_object(o: EventObject, speed: i32) -> (r: EventObject)
    requires
        -0x3fff_8000 <= speed <= 0x3fff_8000,
        o.sprite_frames > 0 || o.sprite_frames_auto > 0 ==> o.current_frame_num < u16::MAX,
    ensures
        r == Engine::walked_object(o, speed as int),
{
    let dx: i32 = if o.direction == DIR_WEST || o.direction == DIR_SOUTH {
        -2
    } else {
        2
    };
    let dy: i32 = if o.direction == DIR_WEST || o.direction == DIR_NORTH {
        -1
    } else {
        1
    };
    assert(dx * speed == if dx == 2 { 2 * speed } else { -2 * speed }) by (nonlinear_arith)
        requires
            dx == 2 || dx == -2,
    ;
    assert(dy * speed == if dy == 1 { speed as int } else { -speed }) by (nonlinear_arith)
        requires
            dy == 1 || dy == -1,
    ;
    let x: i32 = o.x as i32 + dx * speed;
    let y: i32 = o.y as i32 + dy * speed;
    proof {
        casts::lemma_i32_as_u16(x);
        casts::lemma_i32_as_u16(y);
    }
    let frame: u16 = if o.sprite_frames == 3 {
        (o.current_frame_num + 1) % 4
    } else if o.sprite_frames > 0 {
        (o.current_frame_num + 1) % o.sprite_frames
    } else if o.sprite_frames_auto > 0 {
        (o.current_frame_num + 1) % o.sprite_frames_auto
    } else {
        o.current_frame_num
    };
    EventObject { x: x as u16, y: y as u16, current_frame_num: frame, ..o }
}

/// Obstacles do not depend on the party records.
proof fn lemma_obstacle_ignores_party(a: Engine, b: Engine, p: Pos)
    requires
        b == (Engine { globals: Globals { party: b.globals.party, ..a.globals }, ..a }),
    ensures
        a.obstacle(p, true, 0, true) == b.obstacle(p, true, 0, true),
{
    assert forall|i: int| #[trigger] a.scene_object_blocks(i, p, 0) == b.scene_object_blocks(i, p, 0) by {}
    if exists|i: int| #[trigger] a.scene_object_blocks(i, p, 0) {
        let i = choose|i: int| #[trigger] a.scene_object_blocks(i, p, 0);
        assert(b.scene_object_blocks(i, p, 0));
    }
    if exists|i: int| #[trigger] b.scene_object_blocks(i, p, 0) {
        let i = choose|i: int| #[trigger] b.scene_object_blocks(i, p, 0);
        assert(a.scene_object_blocks(i, p, 0));
    }
}

/// Obstacles do not depend on the input.
proof fn lemma_obstacle_ignores_input(a: Engine, b: Engine, p: Pos)
    requires
        b == (Engine { input: b.input, ..a }),
    ensures
        a.obstacle(p, true, 0, true) == b.obstacle(p, true, 0, true),
{
    assert forall|i: int| #[trigger] a.scene_object_blocks(i, p, 0) == b.scene_object_blocks(i, p, 0) by {}
    if exists|i: int| #[trigger] a.scene_object_blocks(i, p, 0) {
        let i = choose|i: int| #[trigger] a.scene_object_blocks(i, p, 0);
        assert(b.scene_object_blocks(i, p, 0));
    }
    if exists|i: int| #[trigger] b.scene_object_blocks(i, p, 0) {
        let i = choose|i: int| #[trigger] b.scene_object_blocks(i, p, 0);
        assert(a.scene_object_blocks(i, p, 0));
    }
}

/// How the party walks does not depend on how its records are changed.
proof fn lemma_walking_party_same(a: Engine, b: Engine, party: Seq<Party>)
    requires
        b == (Engine { globals: Globals { party: b.globals.party, ..a.globals }, ..a }),
    ensures
        a.walking_party(party) == b.walking_party(party),
{
    assert forall|i: int| 0 <= i < 5 implies #[trigger] a.walking_party(party)[i] == b.walking_party(party)[i] by {
        lemma_obstacle_ignores_party(a, b, a.world_of(a.wished_spot(i)));
        assert(a.wished_spot(i) == b.wished_spot(i));
    }
    assert(a.walking_party(party) =~= b.walking_party(party));
}

/// Which way the directions lead: south left and down, west left and up,
/// north right and up, east right and down, by 16 across and 8 down. They are
/// the walking directions down, left, up and right.
pub proof fn law_directions_lead(x: i64, y: i64)
    requires
        geometry::in_world((x, y)),
    ensures
        dir_offset(DIR_SOUTH as int) == (-16int, 8int),
        dir_offset(DIR_WEST as int) == (-16int, -8int),
        dir_offset(DIR_NORTH as int) == (16int, -8int),
        dir_offset(DIR_EAST as int) == (16int, 8int),
        forall|d: int| 0 <= d < 4 ==> geometry::stepped((x, y), (d + 2) % 4) == ((x + #[trigger] dir_offset(d).0) as i64, (
        y + dir_offset(d).1) as i64),
{
}

/// The party walks exactly where the input asks it to and no obstacle stands
/// in the way: one step, the screen with it. In any case it turns there. If
/// the input asks for nothing, it stays and faces where it did.
pub proof fn law_party_walks_where_asked(before: Engine, after: Engine, now: u64, dx: int, dy: int)
    requires
        Engine::party_walked(&before, &after, now),
        before.steps_fit(),
        ({
            let dir = before.input@.frame_dir(now);
            ||| dir == DIR_SOUTH && dx == -16 && dy == 8
            ||| dir == DIR_WEST && dx == -16 && dy == -8
            ||| dir == DIR_NORTH && dx == 16 && dy == -8
            ||| dir == DIR_EAST && dx == 16 && dy == 8
            ||| dir == 4 && dx == 0 && dy == 0
        }),
    ensures
        before.input@.frame_dir(now) != 4 ==> after.globals.party_direction == before.input@.frame_dir(now),
        before.input@.frame_dir(now) == 4 ==> after.globals.party_direction == before.globals.party_direction,
        after.globals.partyoffset == before.globals.partyoffset,
        after.globals.viewport == before.globals.viewport || after.globals.viewport == (
            (before.globals.viewport.0 + dx) as i32,
            (before.globals.viewport.1 + dy) as i32,
        ),
        before.input@.frame_dir(now) != 4 ==> (after.globals.viewport == before.globals.viewport <==> before.obstacle(
            (
                (before.globals.viewport.0 + before.globals.partyoffset.0 + dx) as i64,
                (before.globals.viewport.1 + before.globals.partyoffset.1 + dy) as i64,
            ),
            true,
            0,
            true,
        )),
        after.globals.viewport == before.globals.viewport ==> after.globals.trail@ == before.globals.trail@,
{
}

/// A step moves the trail back by one: every entry is what the one before it
/// was, and the first is where the party stood, with where it went.
pub proof fn law_trail_moves_back(before: Engine, after: Engine, now: u64)
    requires
        Engine::party_walked(&before, &after, now),
        before.steps_fit(),
        after.globals.viewport != before.globals.viewport,
    ensures
        after.globals.trail@.len() == 5,
        forall|i: int| 0 <= i < 4 ==> after.globals.trail@[i + 1] == #[trigger] before.globals.trail@[i],
        after.globals.trail@[0].direction == after.globals.party_direction,
        ({
            let x = before.globals.viewport.0 + before.globals.partyoffset.0;
            let y = before.globals.viewport.1 + before.globals.partyoffset.1;
            &&& 0 <= x <= u16::MAX ==> after.globals.trail@[0].x == x
            &&& 0 <= y <= u16::MAX ==> after.globals.trail@[0].y == y
        }),
{
    let dir = before.input@.frame_dir(now);
    assert(before.will_walk(dir));
    assert(after.globals.trail@ == Engine::trail_after(before.globals.trail@, before.party_position(), dir));
}

/// After a number of steps in a row, entry `j` of the trail is where the party
/// stood `j + 1` steps ago.
pub proof fn law_trail_remembers(walk: Seq<Engine>, times: Seq<u64>, k: int, j: int)
    requires
        0 <= j < k < walk.len(),
        j < 5,
        times.len() == walk.len(),
        forall|i: int|
            0 <= i < k ==> {
                &&& Engine::party_walked(&walk[i], &walk[i + 1], #[trigger] times[i])
                &&& walk[i].steps_fit()
                &&& walk[i + 1].globals.viewport != walk[i].globals.viewport
            },
        ({
            let then = walk[k - 1 - j].globals;
            &&& 0 <= then.viewport.0 + then.partyoffset.0 <= u16::MAX
            &&& 0 <= then.viewport.1 + then.partyoffset.1 <= u16::MAX
        }),
    ensures
        ({
            let then = walk[k - 1 - j].globals;
            let t = walk[k].globals.trail@[j];
            &&& t.x == then.viewport.0 + then.partyoffset.0
            &&& t.y == then.viewport.1 + then.partyoffset.1
            &&& t.direction == walk[k - j].globals.party_direction
        }),
    decreases j,
{
    let now = times[k - 1];
    assert(walk[k - 1 + 1] == walk[k]);
    law_trail_moves_back(walk[k - 1], walk[k], now);
    if j > 0 {
        law_trail_remembers(walk, times, k - 1, j - 1);
        assert(walk[k].globals.trail@[(j - 1) + 1] == walk[k - 1].globals.trail@[j - 1]);
    }
}

/// The leader stays in the same place of the screen as the party walks, and
/// whoever plays a role keeps it.
pub proof fn law_leader_stays_on_screen(before: Engine, after: Engine, now: u64)
    requires
        Engine::party_walked(&before, &after, now),
        before.walkers_placed(),
        after.globals.viewport != before.globals.viewport,
        i16::MIN <= before.globals.partyoffset.0 <= i16::MAX,
        i16::MIN <= before.globals.partyoffset.1 <= i16::MAX,
    ensures
        after.globals.party@[0].x == before.globals.partyoffset.0,
        after.globals.party@[0].y == before.globals.partyoffset.1,
        forall|i: int|
            0 <= i < 5 ==> (#[trigger] after.globals.party@[i]).player_role == before.globals.party@[i].player_role,
{
    let dir = before.input@.frame_dir(now);
    assert(before.will_walk(dir));
}

/// The first member behind the leader walks where one more step, the way the
/// leader came, leads to the spot behind the leader; an obstacle there makes
/// them walk on that spot. The second one walks a step to the side of it,
/// lower on the screen.
pub proof fn law_members_walk_behind(before: Engine, after: Engine, now: u64, i: int)
    requires
        Engine::party_walked(&before, &after, now),
        before.walkers_placed(),
        after.globals.viewport != before.globals.viewport,
        1 <= i <= before.globals.max_party_member_index,
        after.globals.trail@[1].direction < 4,
        -0x4000 <= after.globals.trail@[1].x - after.globals.viewport.0 < 0x4000,
        -0x4000 <= after.globals.trail@[1].y - after.globals.viewport.1 < 0x4000,
    ensures
        ({
            let t = after.globals.trail@[1];
            let p = after.globals.party@[i];
            let at = (
                (p.x + after.globals.viewport.0) as i64,
                (p.y + after.globals.viewport.1) as i64,
            );
            let beside = (
                (t.x + if t.direction == DIR_EAST || t.direction == DIR_WEST { -16int } else { 16 }) as i64,
                (t.y + 8) as i64,
            );
            let d = dir_offset(t.direction as int);
            let wished = if i == 2 { beside } else { ((t.x - d.0) as i64, (t.y - d.1) as i64) };
            &&& after.obstacle(wished, true, 0, true) ==> at == (t.x as i64, t.y as i64)
            &&& !after.obstacle(wished, true, 0, true) ==> at == wished
        }),
{
    let dir = before.input@.frame_dir(now);
    assert(before.will_walk(dir));
    assert(after.globals.party@[i] == after.walking_member(before.globals.party@, i));
    let t = after.globals.trail@[1];
    assert(after.globals.viewport.0 as int == after.globals.viewport.0);
}

/// Followers walk on the trail, the first three steps behind the leader and
/// the second four.
pub proof fn law_followers_walk_on_trail(before: Engine, after: Engine, now: u64, k: int)
    requires
        Engine::party_walked(&before, &after, now),
        before.walkers_placed(),
        after.globals.viewport != before.globals.viewport,
        1 <= k <= before.globals.follower_num,
        i16::MIN <= after.globals.trail@[2 + k].x - after.globals.viewport.0 <= i16::MAX,
        i16::MIN <= after.globals.trail@[2 + k].y - after.globals.viewport.1 <= i16::MAX,
        after.globals.trail@[2 + k].direction < 4,
    ensures
        ({
            let p = after.globals.party@[before.globals.max_party_member_index + k];
            let t = after.globals.trail@[2 + k];
            &&& p.x + after.globals.viewport.0 == t.x
            &&& p.y + after.globals.viewport.1 == t.y
            &&& p.frame / 3 == t.direction
        }),
{
    let dir = before.input@.frame_dir(now);
    assert(before.will_walk(dir));
    let i = before.globals.max_party_member_index + k;
    assert(after.globals.party@[i] == after.walking_follower(before.globals.party@, i));
}

/// The images of a walking character go by direction: those of one direction
/// stand together. Every second one is of standing, and those between are of
/// the one foot and the other, in turn.
pub proof fn law_steps_alternate(walk_frames: u16, dir: u16, step: int)
    requires
        0 <= step < 4,
        dir < 4,
    ensures
        walk_frames == 4 ==> walking_frame(walk_frames, dir, step) / 4 == dir && walking_frame(walk_frames, dir, step) % 4
            == step,
        walk_frames != 4 ==> walking_frame(walk_frames, dir, step) / 3 == dir,
        walk_frames != 4 && step % 2 == 0 ==> walking_frame(walk_frames, dir, step) % 3 == 0,
        walk_frames != 4 && step == 1 ==> walking_frame(walk_frames, dir, step) % 3 == 1,
        walk_frames != 4 && step == 3 ==> walking_frame(walk_frames, dir, step) % 3 == 2,
        following_foot(step) == 0 <==> step % 2 == 0,
        leading_foot(step) + following_foot(step) == if step % 2 == 0 { 0int } else { 3 },
{
}

/// A standing party shows the first image of where each one faces.
pub proof fn law_standing_shows_first_image(before: Engine, after: Engine, now: u64, i: int)
    requires
        Engine::party_walked(&before, &after, now),
        before.walkers_placed(),
        before.party_ready(now),
        after.globals.viewport == before.globals.viewport,
        before.input@.frame_dir(now) == 4 || before.obstacle(before.step_target(before.input@.frame_dir(now)), true, 0, true),
        0 <= i <= before.globals.max_party_member_index,
    ensures
        ({
            let w = before.globals.game.player_roles.walk_frames@[before.globals.party@[i].player_role as int];
            let d = if i == 0 { after.globals.party_direction } else { before.globals.trail@[2].direction };
            let p = after.globals.party@[i];
            &&& p.x == before.globals.party@[i].x
            &&& p.y == before.globals.party@[i].y
            &&& w == 0 || w == 3 ==> p.frame == 3 * d
            &&& w == 4 ==> p.frame == 4 * d
        }),
{
    let dir = before.input@.frame_dir(now);
    assert(!before.will_walk(dir));
    assert(after.globals.party@[i] == after.standing_party(before.globals.party@)[i]);
    assert(before.globals.party@[i].player_role < 6);
    let w = before.globals.game.player_roles.walk_frames@[before.globals.party@[i].player_role as int];
    let d = if i == 0 { after.globals.party_direction as int } else { before.globals.trail@[2].direction as int };
    let n = standing_frames(w);
    assert(n == 3 ==> d * n == 3 * d) by (nonlinear_arith);
    assert(n == 4 ==> d * n == 4 * d) by (nonlinear_arith);
    assert(d * n <= u16::MAX);
}

/// An event object that walks goes where it faces, twice as far across as
/// down: at speed 8 one walking step. It keeps its direction, and its images
/// come round after as many steps as it has for a direction.
pub proof fn law_objects_walk_ahead(o: EventObject, speed: int)
    requires
        o.direction < 4,
        0 <= speed,
        2 * speed <= o.x < 0x1_0000 - 2 * speed,
        speed <= o.y < 0x1_0000 - speed,
    ensures
        ({
            let r = Engine::walked_object(o, speed);
            let d = dir_offset(o.direction as int);
            &&& 8 * (r.x - o.x) == if d.0 > 0 { 16 * speed } else { -16 * speed }
            &&& 8 * (r.y - o.y) == if d.1 > 0 { 8 * speed } else { -8 * speed }
            &&& speed == 8 ==> r.x == o.x + d.0 && r.y == o.y + d.1
            &&& r.direction == o.direction
            &&& r.state == o.state
        }),
        o.sprite_frames == 3 && o.current_frame_num < 3 ==> Engine::walked_object(o, speed).current_frame_num
            == o.current_frame_num + 1,
        o.sprite_frames == 3 && o.current_frame_num == 3 ==> Engine::walked_object(o, speed).current_frame_num == 0,
        o.sprite_frames != 3 && o.current_frame_num + 1 < o.sprite_frames ==> Engine::walked_object(o, speed).current_frame_num
            == o.current_frame_num + 1,
        o.sprite_frames != 3 && o.current_frame_num + 1 == o.sprite_frames ==> Engine::walked_object(
            o,
            speed,
        ).current_frame_num == 0,
        o.sprite_frames == 0 && o.current_frame_num + 1 < o.sprite_frames_auto ==> Engine::walked_object(
            o,
            speed,
        ).current_frame_num == o.current_frame_num + 1,
        o.sprite_frames == 0 && o.sprite_frames_auto > 0 && o.current_frame_num + 1 == o.sprite_frames_auto
            ==> Engine::walked_object(o, speed).current_frame_num == 0,
        o.sprite_frames == 0 && o.sprite_frames_auto == 0 ==> Engine::walked_object(o, speed).current_frame_num
            == o.current_frame_num,
{
    let n: int = o.current_frame_num + 1;
    let dx: int = if o.direction == DIR_WEST || o.direction == DIR_SOUTH { -2 } else { 2 };
    let dy: int = if o.direction == DIR_WEST || o.direction == DIR_NORTH { -1 } else { 1 };
    assert(dx * speed == if dx == 2 { 2 * speed } else { -2 * speed }) by (nonlinear_arith)
        requires
            dx == 2 || dx == -2,
    ;
    assert(dy * speed == if dy == 1 { speed } else { -speed }) by (nonlinear_arith)
        requires
            dy == 1 || dy == -1,
    ;
    let r = Engine::walked_object(o, speed);
    assert(r.x == o.x + dx * speed);
    assert(r.y == o.y + dy * speed);
    if o.sprite_frames != 3 && n < o.sprite_frames {
        vstd::arithmetic::div_mod::lemma_small_mod(n as nat, o.sprite_frames as nat);
    }
    if o.sprite_frames != 3 && o.sprite_frames > 0 && n == o.sprite_frames {
        vstd::arithmetic::div_mod::lemma_mod_self_0(n);
    }
    if o.sprite_frames == 0 && n < o.sprite_frames_auto {
        vstd::arithmetic::div_mod::lemma_small_mod(n as nat, o.sprite_frames_auto as nat);
    }
    if o.sprite_frames == 0 && o.sprite_frames_auto > 0 && n == o.sprite_frames_auto {
        vstd::arithmetic::div_mod::lemma_mod_self_0(n);
    }
}

} // verus!
