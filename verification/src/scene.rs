//! Obstacles in the scene.

use vstd::prelude::*;

use crate::casts;
use crate::engine::Engine;
use crate::geometry;
use crate::geometry::Pos;
use crate::records::EventObject;

verus! {

/// The half-tile that a position lies on: column, row and half.
pub open spec fn tile_under(p: Pos) -> (int, int, int) {
    let x = geometry::tdiv(p.0 as int, 32);
    let y = geometry::tdiv(p.1 as int, 16);
    let xr = geometry::trem(p.0 as int, 32);
    let yr = geometry::trem(p.1 as int, 16);
    if xr + 2 * yr < 16 {
        (x, y, 0)
    } else if xr + 2 * yr >= 48 {
        (x + 1, y + 1, 0)
    } else if 32 - xr + 2 * yr < 16 {
        (x + 1, y, 0)
    } else if 32 - xr + 2 * yr < 48 {
        (x, y, 1)
    } else {
        (x, y + 1, 0)
    }
}

/// The object stands in the way of a position.
pub open spec fn object_blocks(o: EventObject, p: Pos) -> bool {
    o.state >= 2 && geometry::abs(o.x - p.0) + 2 * geometry::abs(o.y - p.1) < 16
}

impl Engine {
    /// The current scene has event objects in the table.
    pub open spec fn scene_has_objects(&self) -> bool {
        1 <= self.globals.num_scene < self.globals.game.scenes@.len()
    }

    /// Event object number `i` belongs to the current scene.
    pub open spec fn in_scene(&self, i: int) -> bool {
        &&& self.scene_has_objects()
        &&& self.globals.scene_start() <= i < self.globals.scene_end()
        &&& i < self.globals.game.event_objects@.len()
    }

    /// The map lets nobody stand at a position; coordinates of half-tiles
    /// count modulo 256.
    pub open spec fn map_blocks(&self, p: Pos) -> bool {
        let (x, y, h) = tile_under(p);
        match self.res.map {
            Some(m) => m.blocked(x % 256, y % 256, h),
            None => true,
        }
    }

    /// The position lies outside what the view may show.
    pub open spec fn out_of_range(&self, p: Pos) -> bool {
        let x = geometry::tdiv(p.0 as int, 32);
        let y = geometry::tdiv(p.1 as int, 16);
        ||| x < geometry::tdiv(self.globals.partyoffset.0 as int, 32)
        ||| x >= 2048
        ||| y < geometry::tdiv(self.globals.partyoffset.1 as int, 16)
        ||| y >= 2048
    }

    /// Event object number `i` of the scene, other than number `self_object`
    /// (counted from 1, 0 for none), stands in the way.
    pub open spec fn scene_object_blocks(&self, i: int, p: Pos, self_object: int) -> bool {
        &&& self.in_scene(i)
        &&& !(self_object != 0 && i + 1 == self_object)
        &&& object_blocks(self.globals.game.event_objects@[i], p)
    }

    /// Nobody can step to a position: it is out of range (if that counts),
    /// the map blocks it, or (if they count) an event object does.
    pub open spec fn obstacle(&self, p: Pos, check_event_objects: bool, self_object: int, check_range: bool) -> bool {
        ||| check_range && self.out_of_range(p)
        ||| self.map_blocks(p)
        ||| check_event_objects && exists|i: int| #[trigger] self.scene_object_blocks(i, p, self_object)
    }

    /// Whether a position is blocked.
    pub fn check_obstacle(&self, pos: (i32, i32), check_event_objects: bool, self_object: u16) -> (b: bool)
        requires
            self.res.wf(),
        ensures
            b == self.obstacle((pos.0 as i64, pos.1 as i64), check_event_objects, self_object as int, false),
    {
        self.check_obstacle_with_range(pos, check_event_objects, self_object, false)
    }

    /// Whether a position is blocked, optionally also by the range of the
    /// view.
    pub fn check_obstacle_with_range(
        &self,
        pos: (i32, i32),
        check_event_objects: bool,
        self_object: u16,
        check_range: bool,
    ) -> (b: bool)
        requires
            self.res.wf(),
        ensures
            b == self.obstacle((pos.0 as i64, pos.1 as i64), check_event_objects, self_object as int, check_range),
    {
        self.obstacle_at((pos.0 as i64, pos.1 as i64), check_event_objects, self_object, check_range)
    }

    /// Whether a position is blocked.
    pub fn obstacle_at(&self, pos: Pos, check_event_objects: bool, self_object: u16, check_range: bool) -> (b: bool)
        requires
            self.res.wf(),
            geometry::in_world(pos),
        ensures
            b == self.obstacle(pos, check_event_objects, self_object as int, check_range),
    {
        let block_x: i64 = (self.globals.partyoffset.0 / 32) as i64;
        let block_y: i64 = (self.globals.partyoffset.1 / 16) as i64;
        let mut x: i64 = pos.0 / 32;
        let mut y: i64 = pos.1 / 16;
        let mut h: i64 = 0;
        if check_range && (x < block_x || x >= 2048 || y < block_y || y >= 2048) {
            return true;
        }
        let xr: i64 = pos.0 % 32;
        let yr: i64 = pos.1 % 16;
        if xr + yr * 2 >= 16 {
            if xr + yr * 2 >= 48 {
                x = x + 1;
                y = y + 1;
            } else if 32 - xr + yr * 2 < 16 {
                x = x + 1;
            } else if 32 - xr + yr * 2 < 48 {
                h = 1;
            } else {
                y = y + 1;
            }
        }
        assert((x as int, y as int, h as int) == tile_under(pos));
        let blocked: bool = match &self.res.map {
            Some(map) => {
                proof {
                    casts::lemma_i64_as_u8(x);
                    casts::lemma_i64_as_u8(y);
                    casts::lemma_i64_as_u8(h);
                }
                map.tile_is_blocked(x as u8, y as u8, h as u8)
            },
            None => true,
        };
        if blocked {
            return true;
        }
        if check_event_objects {
            let num_scene: usize = self.globals.num_scene as usize;
            if num_scene >= 1 && num_scene < self.globals.game.scenes.len() {
                let start: usize = self.globals.game.scenes[num_scene - 1].event_object_index as usize;
                let end: usize = self.globals.game.scenes[num_scene].event_object_index as usize;
                let mut i: usize = start;
                while i < end && i < self.globals.game.event_objects.len()
                    invariant
                        check_event_objects,
                        geometry::in_world(pos),
                        self.scene_has_objects(),
                        start == self.globals.scene_start(),
                        end == self.globals.scene_end(),
                        start <= i,
                        forall|k: int| start <= k < i ==> !#[trigger] self.scene_object_blocks(k, pos, self_object as int),
                    decreases end - i,
                {
                    let o: EventObject = self.globals.game.event_objects[i];
                    if !(self_object != 0 && i + 1 == self_object as usize) && o.state >= 2 && geometry::abs_i64(
                        o.x as i64 - pos.0,
                    ) + 2 * geometry::abs_i64(o.y as i64 - pos.1) < 16 {
                        assert(self.scene_object_blocks(i as int, pos, self_object as int));
                        return true;
                    }
                    i = i + 1;
                }
                assert forall|k: int| !#[trigger] self.scene_object_blocks(k, pos, self_object as int) by {}
            }
        }
        false
    }
}

/// An event object never blocks its own way.
pub proof fn law_objects_do_not_block_themselves(e: Engine, p: Pos, i: int)
    requires
        e.in_scene(i),
        forall|k: int| k != i ==> !#[trigger] e.scene_object_blocks(k, p, 0),
    ensures
        e.obstacle(p, true, i + 1, false) == e.obstacle(p, false, 0, false),
{
    assert forall|k: int| !#[trigger] e.scene_object_blocks(k, p, i + 1) by {
        if k != i {
            assert(!e.scene_object_blocks(k, p, 0));
        }
    }
}

/// Checking more never opens the way: what blocks without event objects or
/// range blocks with them.
pub proof fn law_more_checks_block_more(e: Engine, p: Pos, self_object: int, check_event_objects: bool, check_range: bool)
    requires
        e.obstacle(p, false, 0, false),
    ensures
        e.obstacle(p, check_event_objects, self_object, check_range),
{
}

/// Half-tiles are diamonds: those of the first half have their middles 32
/// apart across and 16 apart down, and those of the second half in between. A
/// position lies on the half-tile whose middle it is near, and never far from
/// it.
pub proof fn law_half_tiles_are_diamonds(p: Pos, x: int, y: int)
    requires
        0 <= p.0 < 0x1_0000_0000,
        0 <= p.1 < 0x1_0000_0000,
        0 <= x < 0x1000_0000,
        0 <= y < 0x1000_0000,
    ensures
        vstd::math::abs(p.0 - 32 * x) + 2 * vstd::math::abs(p.1 - 16 * y) < 16 ==> tile_under(p) == (x, y, 0int),
        vstd::math::abs(p.0 - (32 * x + 16)) + 2 * vstd::math::abs(p.1 - (16 * y + 8)) < 16 ==> tile_under(p) == (x, y, 1int),
        ({
            let (c, r, h) = tile_under(p);
            &&& h == 0 || h == 1
            &&& vstd::math::abs(p.0 - (32 * c + 16 * h)) + 2 * vstd::math::abs(p.1 - (16 * r + 8 * h)) <= 16
        }),
{
    let (a, b) = (p.0 as int, p.1 as int);
    assert(a == 32 * (a / 32) + a % 32);
    assert(b == 16 * (b / 16) + b % 16);
    if vstd::math::abs(a - 32 * x) + 2 * vstd::math::abs(b - 16 * y) < 16 {
        assert(a / 32 == x || a / 32 == x - 1);
        assert(b / 16 == y || b / 16 == y - 1);
    }
    if vstd::math::abs(a - (32 * x + 16)) + 2 * vstd::math::abs(b - (16 * y + 8)) < 16 {
        assert(a / 32 == x && b / 16 == y);
    }
}

/// Where the map is free, exactly the event objects of the current scene that
/// are in the way state (or beyond) and nearer than 16 stand in the way, but
/// for the one that asks.
pub proof fn law_objects_stand_in_the_way(e: Engine, p: Pos, asks: int)
    requires
        1 <= e.globals.num_scene < e.globals.game.scenes@.len(),
        e.globals.game.scenes@[e.globals.num_scene as int].event_object_index <= e.globals.game.event_objects@.len(),
        !e.obstacle(p, false, 0, false),
        asks >= 0,
    ensures
        e.obstacle(p, true, asks, false) <==> exists|i: int|
            {
                let o = #[trigger] e.globals.game.event_objects@[i];
                &&& e.globals.game.scenes@[e.globals.num_scene - 1].event_object_index <= i
                &&& i < e.globals.game.scenes@[e.globals.num_scene as int].event_object_index
                &&& i + 1 != asks
                &&& o.state >= 2
                &&& vstd::math::abs(o.x - p.0) + 2 * vstd::math::abs(o.y - p.1) < 16
            },
{
    if e.obstacle(p, true, asks, false) {
        let i = choose|i: int| #[trigger] e.scene_object_blocks(i, p, asks);
        assert(e.scene_object_blocks(i, p, asks));
        let o = e.globals.game.event_objects@[i];
        assert(o.state >= 2);
    }
    if exists|i: int|
        {
            let o = #[trigger] e.globals.game.event_objects@[i];
            &&& e.globals.game.scenes@[e.globals.num_scene - 1].event_object_index <= i
            &&& i < e.globals.game.scenes@[e.globals.num_scene as int].event_object_index
            &&& i + 1 != asks
            &&& o.state >= 2
            &&& vstd::math::abs(o.x - p.0) + 2 * vstd::math::abs(o.y - p.1) < 16
        } {
        let i = choose|i: int|
            {
                let o = #[trigger] e.globals.game.event_objects@[i];
                &&& e.globals.game.scenes@[e.globals.num_scene - 1].event_object_index <= i
                &&& i < e.globals.game.scenes@[e.globals.num_scene as int].event_object_index
                &&& i + 1 != asks
                &&& o.state >= 2
                &&& vstd::math::abs(o.x - p.0) + 2 * vstd::math::abs(o.y - p.1) < 16
            };
        assert(e.scene_object_blocks(i, p, asks));
    }
}

/// Without event objects and range, exactly the half-tiles that the map marks,
/// and those that it does not have, are obstacles; without a map everything is.
pub proof fn law_map_marks_obstacles(e: Engine, p: Pos, x: int, y: int, h: int)
    requires
        0 <= x < 64,
        0 <= y < 128,
        tile_under(p) == (x, y, h),
        h == 0 || h == 1,
    ensures
        e.res.map is None ==> e.obstacle(p, false, 0, false),
        e.res.map matches Some(m) ==> (e.obstacle(p, false, 0, false) <==> (m.tiles@[128 * y + 2 * x + h] / 0x2000) % 2
            == 1),
{
    assert(crate::map::tile_index(x, y, h) == 128 * y + 2 * x + h);
}

/// Within the range that the view may show, positions start where the party
/// stands on the screen, to whole tiles, and end before 2048 tiles.
pub proof fn law_range_has_ends(e: Engine, p: Pos, check_event_objects: bool)
    requires
        0 <= p.0,
        0 <= p.1,
        0 <= e.globals.partyoffset.0,
        0 <= e.globals.partyoffset.1,
    ensures
        p.0 / 32 < e.globals.partyoffset.0 / 32 ==> e.obstacle(p, check_event_objects, 0, true),
        p.1 / 16 < e.globals.partyoffset.1 / 16 ==> e.obstacle(p, check_event_objects, 0, true),
        p.0 >= 65536 || p.1 >= 32768 ==> e.obstacle(p, check_event_objects, 0, true),
        p.0 / 32 >= e.globals.partyoffset.0 / 32 && p.1 / 16 >= e.globals.partyoffset.1 / 16 && p.0 < 65536 && p.1 < 32768
            ==> e.obstacle(p, check_event_objects, 0, true) == e.obstacle(p, check_event_objects, 0, false),
{
}

} // verus!
