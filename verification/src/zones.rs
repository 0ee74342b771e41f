//! Zones that act on whoever walks into them: exits to other scenes, doors and
//! other touch zones.

use vstd::prelude::*;

use crate::engine::Engine;
use crate::geometry;
use crate::geometry::Pos;
use crate::json;
use crate::json::Members;
use crate::records::EventObject;
use crate::script;
use crate::text;

verus! {

/// A zone that leads to another scene.
#[derive(Clone, Copy, Debug)]
pub struct SceneExit {
    pub id: u16,
    pub pos: Pos,
    pub radius: i64,
    pub dest_scene: u16,
}

/// A zone that acts on whoever walks into it.
#[derive(Clone, Copy, Debug)]
pub struct TouchZone {
    pub id: u16,
    pub pos: Pos,
    pub radius: i64,
    pub dest_scene: Option<u16>,
    pub trigger_mode: u16,
    pub role: ZoneRole,
}

#[derive(Clone, Copy, Debug, PartialEq, Eq, Structural)]
pub enum ZoneRole {
    Exit,
    Door,
    Touch,
}

impl ZoneRole {
    pub open spec fn text(self) -> Seq<char> {
        match self {
            ZoneRole::Exit => "exit"@,
            ZoneRole::Door => "door"@,
            ZoneRole::Touch => "touch"@,
        }
    }

    pub fn name(self) -> (s: &'static str)
        ensures
            s@ == self.text(),
    {
        match self {
            ZoneRole::Exit => "exit",
            ZoneRole::Door => "door",
            ZoneRole::Touch => "touch",
        }
    }
}

/// The exit through which a scene was left.
#[derive(Clone, Copy, Debug, PartialEq, Eq, Structural)]
pub struct SceneExitTransit {
    pub exit_id: u16,
    pub from_scene: u16,
    pub dest_scene: u16,
}

/// The radius of the zone of an event object; 0 for those that have to be
/// searched.
pub open spec fn touch_radius(trigger_mode: u16) -> int {
    if trigger_mode >= 4 {
        (trigger_mode - 4) * 32 + 16
    } else {
        0
    }
}

/// The radius of the zone of an event object.
pub fn touch_radius_of(trigger_mode: u16) -> (r: i64)
    ensures
        r == touch_radius(trigger_mode),
{
    if trigger_mode >= 4 {
        (trigger_mode - 4) as i64 * 32 + 16
    } else {
        0
    }
}

/// The position is inside a zone.
pub open spec fn touches(p: Pos, center: Pos, radius: int) -> bool {
    radius > 0 && geometry::distance(p, center) < radius
}

/// Whether a position is inside a zone.
pub fn in_touch_at(player: Pos, event: Pos, radius: i64) -> (b: bool)
    requires
        geometry::in_world(player),
        geometry::in_world(event),
    ensures
        b == touches(player, event, radius as int),
{
    radius > 0 && geometry::metric(player, event) < radius
}

/// The position can be walked to from another, as far as the grid is
/// concerned.
pub open spec fn same_grid(center: Pos, p: Pos) -> bool {
    let dx = p.0 - center.0;
    let dy = p.1 - center.1;
    dx % 16 == 0 && dy % 8 == 0 && (dx / 16 + dy / 8) % 2 == 0
}

/// The cell is part of a zone: it can be walked to from the center of the
/// zone, and is inside; without a radius, only the center is.
pub open spec fn zone_cell(center: Pos, radius: int, p: Pos) -> bool {
    if radius <= 0 {
        p == center
    } else {
        touches(p, center, radius) && same_grid(center, p)
    }
}

/// The cell that lies `a` steps up and `b` steps right of a position.
pub open spec fn cell_at(center: Pos, a: int, b: int) -> Pos {
    ((center.0 + 16 * a + 16 * b) as i64, (center.1 - 8 * a + 8 * b) as i64)
}

/// The cells of a zone.
pub fn expand_touch_cells(center: Pos, radius: i64) -> (r: Vec<Pos>)
    requires
        geometry::inland(center),
        radius <= 0x40_0000,
    ensures
        forall|p: Pos| #[trigger] r@.contains(p) <==> zone_cell(center, radius as int, p),
{
    let mut r: Vec<Pos> = Vec::new();
    if radius <= 0 {
        r.push(center);
        assert(r@[0] == center);
        return r;
    }
    let m: i64 = (radius - 1) / 32;
    let mut a: i64 = -m;
    while a <= m
        invariant
            geometry::inland(center),
            0 < radius <= 0x40_0000,
            m == (radius - 1) / 32,
            -m <= a <= m + 1,
            forall|i: int| 0 <= i < r@.len() ==> zone_cell(center, radius as int, #[trigger] r@[i]),
            forall|u: int, v: int| -m <= u < a && -m <= v <= m ==> r@.contains(#[trigger] cell_at(center, u, v)),
        decreases m + 1 - a,
    {
        let mut b: i64 = -m;
        while b <= m
            invariant
                geometry::inland(center),
                0 < radius <= 0x40_0000,
                m == (radius - 1) / 32,
                -m <= a <= m,
                -m <= b <= m + 1,
                forall|i: int| 0 <= i < r@.len() ==> zone_cell(center, radius as int, #[trigger] r@[i]),
                forall|u: int, v: int| -m <= u < a && -m <= v <= m ==> r@.contains(#[trigger] cell_at(center, u, v)),
                forall|v: int| -m <= v < b ==> r@.contains(#[trigger] cell_at(center, a as int, v)),
            decreases m + 1 - b,
        {
            let p: Pos = (center.0 + 16 * a + 16 * b, center.1 - 8 * a + 8 * b);
            assert(p == cell_at(center, a as int, b as int));
            assert(zone_cell(center, radius as int, p));
            let ghost before = r@;
            r.push(p);
            assert(r@.last() == p);
            assert forall|q: Pos| #[trigger] before.contains(q) implies r@.contains(q) by {
                let i = before.index_of(q);
                assert(r@[i] == q);
            }
            b = b + 1;
        }
        a = a + 1;
    }
    assert forall|p: Pos| #[trigger] r@.contains(p) <==> zone_cell(center, radius as int, p) by {
        if zone_cell(center, radius as int, p) {
            let dx = p.0 - center.0;
            let dy = p.1 - center.1;
            let u = (dx / 16 - dy / 8) / 2;
            let v = (dx / 16 + dy / 8) / 2;
            assert(dx == 16 * u + 16 * v && dy == -8 * u + 8 * v);
            assert(-m <= u <= m && -m <= v <= m);
            assert(p == cell_at(center, u, v));
            assert(r@.contains(cell_at(center, u, v)));
        }
    }
    r
}

/// The cells inside the zones of exits.
pub open spec fn hazards(exits: Seq<SceneExit>) -> Set<Pos> {
    Set::new(|p: Pos| exists|i: int| 0 <= i < exits.len() && zone_cell((#[trigger] exits[i]).pos, exits[i].radius as int, p))
}

/// The exits lie in the world and have zones of a usual size.
pub open spec fn exits_placed(exits: Seq<SceneExit>) -> bool {
    forall|i: int| 0 <= i < exits.len() ==> geometry::inland((#[trigger] exits[i]).pos) && exits[i].radius <= 0x40_0000
}

/// The cells inside the zones of exits.
pub fn scene_exit_hazard_cells(exits: &[SceneExit]) -> (r: Vec<Pos>)
    requires
        exits_placed(exits@),
    ensures
        r@.to_set() == hazards(exits@),
        forall|p: Pos| #[trigger] r@.contains(p) <==> hazards(exits@).contains(p),
{
    let mut r: Vec<Pos> = Vec::new();
    for i in 0..exits.len()
        invariant
            exits_placed(exits@),
            forall|p: Pos| #[trigger] r@.contains(p) <==> hazards(exits@.take(i as int)).contains(p),
    {
        let e: SceneExit = exits[i];
        assert(geometry::inland(exits@[i as int].pos));
        let mut cells: Vec<Pos> = expand_touch_cells(e.pos, e.radius);
        let ghost before = r@;
        let ghost zone = cells@;
        r.append(&mut cells);
        assert(r@ =~= before + zone);
        assert forall|p: Pos| #[trigger] r@.contains(p) <==> hazards(exits@.take(i + 1)).contains(p) by {
            lemma_contains_sum(before, zone, p);
            let front = exits@.take(i as int);
            let next = exits@.take(i + 1);
            if hazards(front).contains(p) {
                let k = choose|k: int| 0 <= k < front.len() && zone_cell((#[trigger] front[k]).pos, front[k].radius as int, p);
                assert(next[k] == front[k]);
            }
            if zone_cell(e.pos, e.radius as int, p) {
                assert(next[i as int] == e);
            }
            if hazards(next).contains(p) {
                let k = choose|k: int| 0 <= k < next.len() && zone_cell((#[trigger] next[k]).pos, next[k].radius as int, p);
                if k < i {
                    assert(front[k] == next[k]);
                }
            }
        }
    }
    assert(exits@.take(exits@.len() as int) =~= exits@);
    assert(r@.to_set() =~= hazards(exits@));
    r
}

proof fn lemma_contains_sum(a: Seq<Pos>, b: Seq<Pos>, p: Pos)
    ensures
        (a + b).contains(p) <==> a.contains(p) || b.contains(p),
{
    if a.contains(p) {
        assert((a + b)[a.index_of(p)] == p);
    }
    if b.contains(p) {
        assert((a + b)[a.len() + b.index_of(p)] == p);
    }
}

/// Every exit is a hazard, and so is every cell from which a walk leads into
/// its zone.
pub proof fn law_exits_are_hazards(exits: Seq<SceneExit>, i: int, p: Pos)
    requires
        0 <= i < exits.len(),
    ensures
        hazards(exits).contains(exits[i].pos),
        touches(p, exits[i].pos, exits[i].radius as int) && same_grid(exits[i].pos, p) ==> hazards(exits).contains(p),
{
    assert(zone_cell(exits[i].pos, exits[i].radius as int, exits[i].pos));
    if touches(p, exits[i].pos, exits[i].radius as int) && same_grid(exits[i].pos, p) {
        assert(zone_cell(exits[i].pos, exits[i].radius as int, p));
    }
}

/// The event objects of a scene: from which, and up to which.
pub open spec fn events_of(e: &Engine, scene: u16) -> Option<(int, int)> {
    let scenes = e.globals.game.scenes@;
    let count = e.globals.game.event_objects@.len() as int;
    if scene == 0 || scene > scenes.len() {
        None
    } else {
        let end = if scene < scenes.len() { scenes[scene as int].event_object_index as int } else { count };
        Some((scenes[scene - 1].event_object_index as int, if end < count { end } else { count }))
    }
}

/// The event objects of a scene: from which, and up to which.
pub fn event_range(engine: &Engine, scene: u16) -> (r: Option<(usize, usize)>)
    ensures
        match events_of(engine, scene) {
            Some((start, end)) => r matches Some(range) && range.0 == start && range.1 == end && end
                <= engine.globals.game.event_objects@.len(),
            None => r is None,
        },
{
    let scene_i: usize = scene as usize;
    if scene_i == 0 || scene_i > engine.globals.game.scenes.len() {
        return None;
    }
    let count: usize = engine.globals.game.event_objects.len();
    let start: usize = engine.globals.game.scenes[scene_i - 1].event_object_index as usize;
    let end: usize = if scene_i < engine.globals.game.scenes.len() {
        engine.globals.game.scenes[scene_i].event_object_index as usize
    } else {
        count
    };
    Some((
        start,
        if end < count {
            end
        } else {
            count
        },
    ))
}

/// The event objects of the current scene: from which, and up to which.
pub fn scene_event_range(engine: &Engine) -> (r: Option<(usize, usize)>)
    ensures
        match events_of(engine, engine.globals.num_scene) {
            Some((start, end)) => r matches Some(range) && range.0 == start && range.1 == end && end
                <= engine.globals.game.event_objects@.len(),
            None => r is None,
        },
{
    event_range(engine, engine.globals.num_scene)
}

/// The event object is there and has a script to trigger.
pub open spec fn is_active(o: EventObject) -> bool {
    o.state > 0 && o.vanish_time == 0 && o.trigger_script != 0
}

/// Where an event object stands.
pub open spec fn place_of(o: EventObject) -> Pos {
    (o.x as i64, o.y as i64)
}

/// Where the script of an event object leads.
pub open spec fn leads_to(e: &Engine, o: EventObject) -> Option<u16> {
    script::destination(e.globals.game.script_entries@, o.trigger_script)
}

/// Event object `i` is an exit to walk into.
pub open spec fn is_exit(e: &Engine, i: int) -> bool {
    let o = e.globals.game.event_objects@[i];
    is_active(o) && o.trigger_mode >= 4 && leads_to(e, o) is Some
}

/// The exit that event object `i` is.
pub open spec fn exit_of(e: &Engine, i: int) -> SceneExit {
    let o = e.globals.game.event_objects@[i];
    SceneExit {
        id: (i + 1) as u16,
        pos: place_of(o),
        radius: touch_radius(o.trigger_mode) as i64,
        dest_scene: leads_to(e, o)->0,
    }
}

/// The exits among event objects `from..to`.
pub open spec fn exits_among(e: &Engine, from: int, to: int) -> Seq<SceneExit>
    decreases to - from,
{
    if to <= from {
        Seq::empty()
    } else {
        let before = exits_among(e, from, to - 1);
        if is_exit(e, to - 1) {
            before.push(exit_of(e, to - 1))
        } else {
            before
        }
    }
}

/// The exits of a scene.
pub open spec fn exits_in(e: &Engine, scene: u16) -> Seq<SceneExit> {
    match events_of(e, scene) {
        Some((start, end)) => exits_among(e, start, end),
        None => Seq::empty(),
    }
}

/// The exits of a scene.
pub fn collect_exits_in_scene(engine: &Engine, scene: u16) -> (r: Vec<SceneExit>)
    ensures
        r@ == exits_in(engine, scene),
        exits_placed(r@),
{
    let mut r: Vec<SceneExit> = Vec::new();
    assert(r@ =~= Seq::<SceneExit>::empty());
    let (start, end): (usize, usize) = match event_range(engine, scene) {
        Some(range) => range,
        None => {
            return r;
        },
    };
    let mut i: usize = start;
    while i < end
        invariant
            start <= i,
            i <= end || i == start,
            end <= engine.globals.game.event_objects@.len(),
            r@ == exits_among(engine, start as int, i as int),
            exits_placed(r@),
        decreases end - i,
    {
        let o: EventObject = engine.globals.game.event_objects[i];
        if o.state > 0 && o.vanish_time == 0 && o.trigger_script != 0 && o.trigger_mode >= 4 {
            match script::script_destination_scene(engine, o.trigger_script) {
                Some(dest_scene) => {
                    r.push(
                        SceneExit {
                            id: (i + 1) as u16,
                            pos: (o.x as i64, o.y as i64),
                            radius: touch_radius_of(o.trigger_mode),
                            dest_scene,
                        },
                    );
                },
                None => {},
            }
        }
        i = i + 1;
    }
    r
}

/// The exits of the current scene.
pub fn collect_scene_exits(engine: &Engine) -> (r: Vec<SceneExit>)
    ensures
        r@ == exits_in(engine, engine.globals.num_scene),
        exits_placed(r@),
{
    collect_exits_in_scene(engine, engine.globals.num_scene)
}

/// Event object `i` is a zone.
pub open spec fn is_zone(e: &Engine, i: int) -> bool {
    let o = e.globals.game.event_objects@[i];
    is_active(o) && o.trigger_mode >= 4
}

/// The zone that event object `i` is.
pub open spec fn zone_of(e: &Engine, i: int) -> TouchZone {
    let o = e.globals.game.event_objects@[i];
    TouchZone {
        id: (i + 1) as u16,
        pos: place_of(o),
        radius: touch_radius(o.trigger_mode) as i64,
        dest_scene: leads_to(e, o),
        trigger_mode: o.trigger_mode,
        role: if leads_to(e, o) is Some {
            ZoneRole::Exit
        } else if o.sprite_num == 0 {
            ZoneRole::Door
        } else {
            ZoneRole::Touch
        },
    }
}

/// The zones among event objects `from..to`.
pub open spec fn zones_among(e: &Engine, from: int, to: int) -> Seq<TouchZone>
    decreases to - from,
{
    if to <= from {
        Seq::empty()
    } else {
        let before = zones_among(e, from, to - 1);
        if is_zone(e, to - 1) {
            before.push(zone_of(e, to - 1))
        } else {
            before
        }
    }
}

/// The zones of the current scene.
pub open spec fn zones_in(e: &Engine) -> Seq<TouchZone> {
    match events_of(e, e.globals.num_scene) {
        Some((start, end)) => zones_among(e, start, end),
        None => Seq::empty(),
    }
}

/// The zones lie in the world.
pub open spec fn zones_placed(zones: Seq<TouchZone>) -> bool {
    forall|i: int| 0 <= i < zones.len() ==> geometry::inland((#[trigger] zones[i]).pos) && 0 <= zones[i].radius <= 0x40_0000
}

/// The zones of the current scene.
pub fn collect_touch_zones(engine: &Engine) -> (r: Vec<TouchZone>)
    ensures
        r@ == zones_in(engine),
        zones_placed(r@),
{
    let mut r: Vec<TouchZone> = Vec::new();
    assert(r@ =~= Seq::<TouchZone>::empty());
    let (start, end): (usize, usize) = match scene_event_range(engine) {
        Some(range) => range,
        None => {
            return r;
        },
    };
    let mut i: usize = start;
    while i < end
        invariant
            start <= i,
            i <= end || i == start,
            end <= engine.globals.game.event_objects@.len(),
            r@ == zones_among(engine, start as int, i as int),
            zones_placed(r@),
        decreases end - i,
    {
        let o: EventObject = engine.globals.game.event_objects[i];
        if o.state > 0 && o.vanish_time == 0 && o.trigger_script != 0 && o.trigger_mode >= 4 {
            let dest_scene: Option<u16> = script::script_destination_scene(engine, o.trigger_script);
            let role: ZoneRole = if dest_scene.is_some() {
                ZoneRole::Exit
            } else if o.sprite_num == 0 {
                ZoneRole::Door
            } else {
                ZoneRole::Touch
            };
            r.push(
                TouchZone {
                    id: (i + 1) as u16,
                    pos: (o.x as i64, o.y as i64),
                    radius: touch_radius_of(o.trigger_mode),
                    dest_scene,
                    trigger_mode: o.trigger_mode,
                    role,
                },
            );
        }
        i = i + 1;
    }
    r
}

/// The exit among the first `n` whose zone a position is inside of: the
/// smallest, and among those of one size the one with the least number.
pub open spec fn exit_around(p: Pos, exits: Seq<SceneExit>, n: int) -> Option<SceneExit>
    decreases n,
{
    if n <= 0 {
        None
    } else {
        let e = exits[n - 1];
        match exit_around(p, exits, n - 1) {
            Some(b) => if touches(p, e.pos, e.radius as int) && (e.radius < b.radius || e.radius == b.radius && e.id
                < b.id) {
                Some(e)
            } else {
                Some(b)
            },
            None => if touches(p, e.pos, e.radius as int) {
                Some(e)
            } else {
                None
            },
        }
    }
}

/// The exit whose zone a position is inside of.
pub open spec fn exit_at(p: Pos, exits: Seq<SceneExit>) -> Option<SceneExit> {
    exit_around(p, exits, exits.len() as int)
}

/// The exit whose zone a position is inside of: the smallest, and among those
/// of one size the one with the least number.
pub fn exit_touching_at(pos: Pos, exits: &[SceneExit]) -> (r: Option<SceneExit>)
    requires
        geometry::in_world(pos),
        exits_placed(exits@),
    ensures
        r == exit_at(pos, exits@),
{
    let mut best: Option<SceneExit> = None;
    for i in 0..exits.len()
        invariant
            geometry::in_world(pos),
            exits_placed(exits@),
            best == exit_around(pos, exits@, i as int),
    {
        let e: SceneExit = exits[i];
        assert(geometry::inland(exits@[i as int].pos));
        if in_touch_at(pos, e.pos, e.radius) {
            best = match best {
                None => Some(e),
                Some(b) => if e.radius < b.radius || e.radius == b.radius && e.id < b.id {
                    Some(e)
                } else {
                    Some(b)
                },
            };
        }
    }
    best
}

/// An exit around a position is one of the exits, and no smaller one is
/// around it; there is none only outside all zones.
pub proof fn law_exit_around(p: Pos, exits: Seq<SceneExit>, n: int)
    requires
        0 <= n <= exits.len(),
    ensures
        exit_around(p, exits, n) is None <==> forall|i: int|
            0 <= i < n ==> !touches(p, (#[trigger] exits[i]).pos, exits[i].radius as int),
        exit_around(p, exits, n) matches Some(e) ==> {
            &&& exists|i: int| 0 <= i < n && #[trigger] exits[i] == e
            &&& touches(p, e.pos, e.radius as int)
            &&& forall|i: int|
                0 <= i < n && touches(p, (#[trigger] exits[i]).pos, exits[i].radius as int) ==> e.radius < exits[i].radius
                    || e.radius == exits[i].radius && e.id <= exits[i].id
        },
    decreases n,
{
    if n > 0 {
        law_exit_around(p, exits, n - 1);
        match exit_around(p, exits, n) {
            Some(e) => {
                if e == exits[n - 1] {
                    assert(exits[n - 1] == e);
                }
            },
            None => {
                assert(!touches(p, exits[n - 1].pos, exits[n - 1].radius as int));
            },
        }
    }
}

/// The exit through which the current scene would be left, remembered until
/// another one is touched.
pub open spec fn noted_exit(
    last: Option<SceneExitTransit>,
    num_scene: u16,
    entering_scene: bool,
    player: Pos,
    exits: Seq<SceneExit>,
) -> Option<SceneExitTransit> {
    match exit_at(player, exits) {
        Some(e) => if entering_scene || num_scene == 0 {
            last
        } else {
            Some(SceneExitTransit { exit_id: e.id, from_scene: num_scene, dest_scene: e.dest_scene })
        },
        None => last,
    }
}

/// Remember the exit that the player stands in.
pub fn note_scene_exit_touch(
    last: &mut Option<SceneExitTransit>,
    num_scene: u16,
    entering_scene: bool,
    player: Pos,
    scene_exits: &[SceneExit],
)
    requires
        geometry::in_world(player),
        exits_placed(scene_exits@),
    ensures
        *final(last) == noted_exit(*old(last), num_scene, entering_scene, player, scene_exits@),
{
    if entering_scene || num_scene == 0 {
        return;
    }
    match exit_touching_at(player, scene_exits) {
        Some(e) => {
            *last = Some(SceneExitTransit { exit_id: e.id, from_scene: num_scene, dest_scene: e.dest_scene });
        },
        None => {},
    }
}

/// A remembered exit is not forgotten while a scene is being entered.
pub proof fn law_exit_sticks_while_entering(last: Option<SceneExitTransit>, scene: u16, player: Pos, exits: Seq<SceneExit>)
    ensures
        noted_exit(last, scene, true, player, exits) == last,
{
}

/// A remembered exit as text.
pub open spec fn transit_text(last: Option<SceneExitTransit>) -> Seq<char> {
    match last {
        Some(t) => json::object(
            Seq::empty().push(json::num("exit_id"@, t.exit_id as int)).push(
                json::num("from_scene"@, t.from_scene as int),
            ).push(json::num("dest_scene"@, t.dest_scene as int)),
        ),
        None => "null"@,
    }
}

/// The members that tell of the exit through which a scene was left.
pub open spec fn transit_members(
    m: Seq<Seq<char>>,
    last: Option<SceneExitTransit>,
    num_scene: u16,
    entering_scene: bool,
) -> Seq<Seq<char>> {
    let m = m.push(json::member("last_scene_exit"@, transit_text(last)));
    if entering_scene {
        match last {
            Some(t) => if t.dest_scene == num_scene || t.from_scene != num_scene {
                m.push(json::num("scene_change_exit_id"@, t.exit_id as int)).push(
                    json::num("scene_change_from_scene"@, t.from_scene as int),
                ).push(json::num("scene_change_dest"@, t.dest_scene as int))
            } else {
                m.push(json::num("scene_change_dest"@, num_scene as int))
            },
            None => m.push(json::num("scene_change_dest"@, num_scene as int)),
        }
    } else {
        m
    }
}

/// Append what is known of the exit through which a scene was left.
pub fn append_scene_exit_transit(
    out: &mut Members,
    last: Option<SceneExitTransit>,
    num_scene: u16,
    entering_scene: bool,
)
    requires
        old(out).wf(),
    ensures
        final(out).wf(),
        final(out)@ == transit_members(old(out)@, last, num_scene, entering_scene),
{
    match last {
        Some(t) => {
            let mut m: Members = Members::new();
            m.num("exit_id", t.exit_id as u64);
            m.num("from_scene", t.from_scene as u64);
            m.num("dest_scene", t.dest_scene as u64);
            let s: String = m.into_object();
            out.member("last_scene_exit", s.as_str());
        },
        None => {
            out.member("last_scene_exit", "null");
        },
    }
    if entering_scene {
        match last {
            Some(t) => {
                if t.dest_scene == num_scene || t.from_scene != num_scene {
                    out.num("scene_change_exit_id", t.exit_id as u64);
                    out.num("scene_change_from_scene", t.from_scene as u64);
                    out.num("scene_change_dest", t.dest_scene as u64);
                    return;
                }
            },
            None => {},
        }
        out.num("scene_change_dest", num_scene as u64);
    }
}

/// The way leads through the zone of an exit.
pub open spec fn way_touches(path: Seq<Pos>, e: SceneExit) -> bool {
    exists|i: int| 0 <= i < path.len() && touches(#[trigger] path[i], e.pos, e.radius as int)
}

/// An exit with the number is in the list.
pub open spec fn has_exit(exits: Seq<SceneExit>, id: u16) -> bool {
    exists|i: int| 0 <= i < exits.len() && (#[trigger] exits[i]).id == id
}

/// Put an exit into a list ordered by number.
pub open spec fn put_exit(list: Seq<SceneExit>, e: SceneExit) -> Seq<SceneExit>
    decreases list.len(),
{
    if list.len() == 0 || list.last().id <= e.id {
        list.push(e)
    } else {
        put_exit(list.drop_last(), e).push(list.last())
    }
}

/// The exits among the first `n` whose zones a way leads through, by number
/// and each number once.
pub open spec fn crossed(path: Seq<Pos>, exits: Seq<SceneExit>, n: int) -> Seq<SceneExit>
    decreases n,
{
    if n <= 0 {
        Seq::empty()
    } else {
        let before = crossed(path, exits, n - 1);
        if way_touches(path, exits[n - 1]) && !has_exit(before, exits[n - 1].id) {
            put_exit(before, exits[n - 1])
        } else {
            before
        }
    }
}

proof fn lemma_put_exit(list: Seq<SceneExit>, e: SceneExit, k: int)
    requires
        0 <= k <= list.len(),
        k == 0 || list[k - 1].id <= e.id,
        forall|j: int| k <= j < list.len() ==> (#[trigger] list[j]).id > e.id,
    ensures
        put_exit(list, e) == list.insert(k, e),
    decreases list.len(),
{
    if list.len() == 0 || list.last().id <= e.id {
        assert(k == list.len());
        assert(list.insert(k, e) =~= list.push(e));
    } else {
        if k == list.len() {
            assert(list[k - 1] == list.last());
        }
        let front = list.drop_last();
        assert forall|j: int| k <= j < front.len() implies (#[trigger] front[j]).id > e.id by {
            assert(front[j] == list[j]);
        }
        lemma_put_exit(front, e, k);
        assert(front.insert(k, e).push(list.last()) =~= list.insert(k, e));
    }
}

/// The positions lie in the world.
pub open spec fn all_in_world(path: Seq<Pos>) -> bool {
    forall|i: int| 0 <= i < path.len() ==> geometry::in_world(#[trigger] path[i])
}

fn path_touches(path: &[Pos], e: SceneExit) -> (b: bool)
    requires
        all_in_world(path@),
        geometry::in_world(e.pos),
    ensures
        b == way_touches(path@, e),
{
    for i in 0..path.len()
        invariant
            all_in_world(path@),
            geometry::in_world(e.pos),
            forall|k: int| 0 <= k < i ==> !touches(#[trigger] path@[k], e.pos, e.radius as int),
    {
        assert(geometry::in_world(path@[i as int]));
        if in_touch_at(path[i], e.pos, e.radius) {
            assert(touches(path@[i as int], e.pos, e.radius as int));
            return true;
        }
    }
    false
}

/// The exits whose zones a way leads through, by number.
pub fn exits_covering_path(path: &[Pos], exits: &[SceneExit]) -> (r: Vec<SceneExit>)
    requires
        all_in_world(path@),
        exits_placed(exits@),
    ensures
        r@ == crossed(path@, exits@, exits@.len() as int),
        exits_placed(r@),
{
    let mut r: Vec<SceneExit> = Vec::new();
    assert(r@ =~= Seq::<SceneExit>::empty());
    for i in 0..exits.len()
        invariant
            all_in_world(path@),
            exits_placed(exits@),
            exits_placed(r@),
            r@ == crossed(path@, exits@, i as int),
    {
        let e: SceneExit = exits[i];
        assert(geometry::inland(exits@[i as int].pos));
        let mut known: bool = false;
        for j in 0..r.len()
            invariant
                known == exists|k: int| 0 <= k < j && (#[trigger] r@[k]).id == e.id,
        {
            if r[j].id == e.id {
                assert(r@[j as int].id == e.id);
                known = true;
            }
        }
        assert(known == has_exit(r@, e.id));
        if path_touches(path, e) && !known {
            let mut k: usize = r.len();
            while k > 0 && r[k - 1].id > e.id
                invariant
                    k <= r@.len(),
                    forall|j: int| k <= j < r@.len() ==> (#[trigger] r@[j]).id > e.id,
                decreases k,
            {
                k = k - 1;
            }
            proof {
                lemma_put_exit(r@, e, k as int);
            }
            r.insert(k, e);
        }
    }
    r
}

/// The members that describe an exit.
pub open spec fn exit_members(e: SceneExit) -> Seq<Seq<char>> {
    Seq::empty().push(json::num("id"@, e.id as int)).push(json::num("dest_scene"@, e.dest_scene as int)).push(
        json::pair("pos"@, e.pos.0 as int, e.pos.1 as int),
    ).push(json::num("touch_radius"@, e.radius as int))
}

fn push_exit(e: SceneExit) -> (m: Members)
    ensures
        m.wf(),
        m@ == exit_members(e),
{
    let mut m: Members = Members::new();
    m.num("id", e.id as u64);
    m.num("dest_scene", e.dest_scene as u64);
    m.pair("pos", e.pos.0, e.pos.1);
    m.signed("touch_radius", e.radius);
    m
}

/// The first eight of `n` exits that lead back to a scene.
pub open spec fn ways_back(exits: Seq<SceneExit>, from_scene: u16, n: int) -> Seq<Seq<char>>
    decreases n,
{
    if n <= 0 {
        Seq::empty()
    } else {
        let before = ways_back(exits, from_scene, n - 1);
        if exits[n - 1].dest_scene == from_scene && before.len() < 8 {
            before.push(json::object(exit_members(exits[n - 1])))
        } else {
            before
        }
    }
}

/// The exits of a scene that lead back to another.
pub open spec fn return_exits(e: &Engine, dest_scene: u16, from_scene: u16) -> Seq<char> {
    let exits = exits_in(e, dest_scene);
    json::member("return_exits"@, json::array(ways_back(exits, from_scene, exits.len() as int)))
}

/// Append the exits of a scene that lead back to another.
pub fn append_return_exits(out: &mut Members, engine: &Engine, dest_scene: u16, from_scene: u16)
    requires
        old(out).wf(),
    ensures
        final(out).wf(),
        final(out)@ == old(out)@.push(return_exits(engine, dest_scene, from_scene)),
{
    let exits: Vec<SceneExit> = collect_exits_in_scene(engine, dest_scene);
    let mut list: Members = Members::new();
    let mut n: usize = 0;
    for i in 0..exits.len()
        invariant
            list.wf(),
            list@ == ways_back(exits@, from_scene, i as int),
            n == list@.len(),
            n <= 8,
    {
        let e: SceneExit = exits[i];
        if e.dest_scene == from_scene && n < 8 {
            let s: String = push_exit(e).into_object();
            list.put(s.as_str());
            n = n + 1;
        }
    }
    let s: String = list.into_array();
    out.member("return_exits", s.as_str());
}

/// The exits that a way crosses, each with those that lead back.
pub open spec fn crossed_texts(e: &Engine, from_scene: u16, exits: Seq<SceneExit>, n: int) -> Seq<Seq<char>>
    decreases n,
{
    if n <= 0 {
        Seq::empty()
    } else {
        crossed_texts(e, from_scene, exits, n - 1).push(
            json::object(exit_members(exits[n - 1]).push(return_exits(e, exits[n - 1].dest_scene, from_scene))),
        )
    }
}

/// The member that tells which exits a way crosses, if it crosses any.
pub open spec fn detour_members(
    m: Seq<Seq<char>>,
    e: &Engine,
    from_scene: u16,
    path: Seq<Pos>,
    exits: Seq<SceneExit>,
) -> Seq<Seq<char>> {
    let blocking = crossed(path, exits, exits.len() as int);
    if blocking.len() == 0 {
        m
    } else {
        m.push(
            json::member(
                "exit_detour"@,
                json::object(
                    Seq::empty().push(
                        json::member(
                            "blocking_exits"@,
                            json::array(crossed_texts(e, from_scene, blocking, blocking.len() as int)),
                        ),
                    ).push(
                        json::string(
                            "note"@,
                            "Unrestricted path enters these exit radii (scene change). return_exits are walk-into portals in dest_scene back to this scene."@,
                        ),
                    ),
                ),
            ),
        )
    }
}

/// Append which exits a way crosses, and how to come back.
pub fn append_exit_detour(out: &mut Members, engine: &Engine, from_scene: u16, path: &[Pos], scene_exits: &[SceneExit])
    requires
        old(out).wf(),
        all_in_world(path@),
        exits_placed(scene_exits@),
    ensures
        final(out).wf(),
        final(out)@ == detour_members(old(out)@, engine, from_scene, path@, scene_exits@),
{
    let blocking: Vec<SceneExit> = exits_covering_path(path, scene_exits);
    if blocking.len() == 0 {
        return;
    }
    let mut list: Members = Members::new();
    for i in 0..blocking.len()
        invariant
            list.wf(),
            list@ == crossed_texts(engine, from_scene, blocking@, i as int),
    {
        let e: SceneExit = blocking[i];
        let mut m: Members = push_exit(e);
        append_return_exits(&mut m, engine, e.dest_scene, from_scene);
        let s: String = m.into_object();
        list.put(s.as_str());
    }
    let mut m: Members = Members::new();
    let s: String = list.into_array();
    m.member("blocking_exits", s.as_str());
    m.string(
        "note",
        "Unrestricted path enters these exit radii (scene change). return_exits are walk-into portals in dest_scene back to this scene.",
    );
    let s: String = m.into_object();
    out.member("exit_detour", s.as_str());
}

/// The numbers of the first `n` zones that a position is inside of.
pub open spec fn zone_numbers(p: Pos, zones: Seq<TouchZone>, n: int) -> Seq<Seq<char>>
    decreases n,
{
    if n <= 0 {
        Seq::empty()
    } else {
        let before = zone_numbers(p, zones, n - 1);
        if touches(p, zones[n - 1].pos, zones[n - 1].radius as int) {
            before.push(text::signed_decimal(zones[n - 1].id as int))
        } else {
            before
        }
    }
}

/// The zones that a step leads into.
pub open spec fn step_zones(player: Pos, d: int, walks: bool, zones: Seq<TouchZone>) -> Seq<char> {
    json::array(
        if walks {
            zone_numbers(geometry::stepped(player, d), zones, zones.len() as int)
        } else {
            Seq::empty()
        },
    )
}

/// The zones that a step in each direction leads into.
pub open spec fn step_touch(player: Pos, walk: Seq<bool>, zones: Seq<TouchZone>) -> Seq<char> {
    json::member(
        "step_touch"@,
        json::object(
            Seq::empty().push(json::member("up"@, step_zones(player, 0, walk[0], zones))).push(
                json::member("right"@, step_zones(player, 1, walk[1], zones)),
            ).push(json::member("down"@, step_zones(player, 2, walk[2], zones))).push(
                json::member("left"@, step_zones(player, 3, walk[3], zones)),
            ),
        ),
    )
}

fn step_zones_text(player: Pos, d: usize, walks: bool, zones: &[TouchZone]) -> (s: String)
    requires
        d < 4,
        geometry::inland(player),
        zones_placed(zones@),
    ensures
        s@ == step_zones(player, d as int, walks, zones@),
{
    let mut list: Members = Members::new();
    if walks {
        let next: Pos = geometry::step_from(player, d);
        for i in 0..zones.len()
            invariant
                geometry::in_world(next),
                zones_placed(zones@),
                list.wf(),
                list@ == zone_numbers(next, zones@, i as int),
        {
            let z: TouchZone = zones[i];
            assert(geometry::inland(zones@[i as int].pos));
            if in_touch_at(next, z.pos, z.radius) {
                list.value(z.id as i64);
            }
        }
    }
    list.into_array()
}

/// Append the zones that a step in each direction leads into.
pub fn append_step_touch(out: &mut Members, player: Pos, walk: &[bool; 4], zones: &[TouchZone])
    requires
        old(out).wf(),
        geometry::inland(player),
        zones_placed(zones@),
    ensures
        final(out).wf(),
        final(out)@ == old(out)@.push(step_touch(player, walk@, zones@)),
{
    let mut m: Members = Members::new();
    let up: String = step_zones_text(player, 0, walk[0], zones);
    m.member("up", up.as_str());
    let right: String = step_zones_text(player, 1, walk[1], zones);
    m.member("right", right.as_str());
    let down: String = step_zones_text(player, 2, walk[2], zones);
    m.member("down", down.as_str());
    let left: String = step_zones_text(player, 3, walk[3], zones);
    m.member("left", left.as_str());
    let s: String = m.into_object();
    out.member("step_touch", s.as_str());
}

/// A zone that the player stands in.
pub open spec fn zone_text(player: Pos, z: TouchZone) -> Seq<char> {
    let m = Seq::empty().push(json::num("id"@, z.id as int)).push(json::string("role"@, z.role.text())).push(
        json::num("trigger_mode"@, z.trigger_mode as int),
    ).push(json::num("touch_radius"@, z.radius as int)).push(
        json::num("dist"@, geometry::distance(player, z.pos)),
    );
    json::object(
        match z.dest_scene {
            Some(scene) => m.push(json::num("dest_scene"@, scene as int)),
            None => m,
        },
    )
}

/// The zones among the first `n` that the player stands in.
pub open spec fn zones_around(player: Pos, zones: Seq<TouchZone>, n: int) -> Seq<Seq<char>>
    decreases n,
{
    if n <= 0 {
        Seq::empty()
    } else {
        let before = zones_around(player, zones, n - 1);
        if touches(player, zones[n - 1].pos, zones[n - 1].radius as int) {
            before.push(zone_text(player, zones[n - 1]))
        } else {
            before
        }
    }
}

/// Append the zones that the player stands in.
pub fn append_in_touch_now(out: &mut Members, player: Pos, zones: &[TouchZone])
    requires
        old(out).wf(),
        geometry::inland(player),
        zones_placed(zones@),
    ensures
        final(out).wf(),
        final(out)@ == old(out)@.push(
            json::member("in_touch_now"@, json::array(zones_around(player, zones@, zones@.len() as int))),
        ),
{
    let mut list: Members = Members::new();
    for i in 0..zones.len()
        invariant
            geometry::inland(player),
            zones_placed(zones@),
            list.wf(),
            list@ == zones_around(player, zones@, i as int),
    {
        let z: TouchZone = zones[i];
        assert(geometry::inland(zones@[i as int].pos));
        if in_touch_at(player, z.pos, z.radius) {
            let mut m: Members = Members::new();
            m.num("id", z.id as u64);
            m.string("role", z.role.name());
            m.num("trigger_mode", z.trigger_mode as u64);
            m.signed("touch_radius", z.radius);
            m.signed("dist", geometry::metric(player, z.pos));
            match z.dest_scene {
                Some(scene) => {
                    m.num("dest_scene", scene as u64);
                },
                None => {},
            }
            let s: String = m.into_object();
            list.put(s.as_str());
        }
    }
    let s: String = list.into_array();
    out.member("in_touch_now", s.as_str());
}

/// An event object is touched from within its zone: the zone of the least
/// trigger mode reaches 16 far, and each further mode 32 more. Those that have
/// to be searched have no zone.
pub proof fn law_zones_reach_farther_by_mode(o: EventObject, p: Pos)
    ensures
        touches(p, place_of(o), touch_radius(o.trigger_mode)) <==> o.trigger_mode >= 4 && vstd::math::abs(p.0 - o.x) + 2
            * vstd::math::abs(p.1 - o.y) < (o.trigger_mode - 4) * 32 + 16,
{
}

/// The cells from which one can walk to another are those some steps up (or
/// down) and some steps right (or left) of it.
pub proof fn law_cells_of_one_grid(center: Pos, p: Pos, a: int, b: int)
    requires
        geometry::in_world(center),
        geometry::in_world(p),
        -0x1000_0000 <= a <= 0x1000_0000,
        -0x1000_0000 <= b <= 0x1000_0000,
    ensures
        same_grid(center, cell_at(center, a, b)),
        same_grid(center, p) ==> exists|i: int, j: int| p == #[trigger] cell_at(center, i, j),
        cell_at(center, 1, 0) == geometry::stepped(center, 0),
        cell_at(center, 0, 1) == geometry::stepped(center, 1),
{
    let q = cell_at(center, a, b);
    assert(q.0 - center.0 == 16 * (a + b));
    assert(q.1 - center.1 == 8 * (b - a));
    assert((16 * (a + b)) / 16 == a + b && (16 * (a + b)) % 16 == 0);
    assert((8 * (b - a)) / 8 == b - a && (8 * (b - a)) % 8 == 0);
    assert((a + b + (b - a)) % 2 == 0) by {
        assert(a + b + (b - a) == 2 * b);
    }
    if same_grid(center, p) {
        let dx = p.0 - center.0;
        let dy = p.1 - center.1;
        let j = (dx / 16 + dy / 8) / 2;
        let i = dx / 16 - j;
        assert(dx == 16 * (dx / 16) && dy == 8 * (dy / 8));
        assert(2 * j == dx / 16 + dy / 8);
        assert(p == cell_at(center, i, j));
    }
}

/// The hazards are exactly the cells inside the zone of some exit that lie on
/// its grid; an exit without a zone is one itself.
pub proof fn law_hazards_lie_in_zones(exits: Seq<SceneExit>, p: Pos)
    ensures
        hazards(exits).contains(p) <==> exists|i: int|
            {
                let e = #[trigger] exits[i];
                &&& 0 <= i < exits.len()
                &&& if e.radius > 0 {
                    &&& vstd::math::abs(p.0 - e.pos.0) + 2 * vstd::math::abs(p.1 - e.pos.1) < e.radius
                    &&& same_grid(e.pos, p)
                } else {
                    p == e.pos
                }
            },
{
    if hazards(exits).contains(p) {
        let i = choose|i: int| 0 <= i < exits.len() && zone_cell((#[trigger] exits[i]).pos, exits[i].radius as int, p);
        let e = exits[i];
        assert(zone_cell(e.pos, e.radius as int, p));
    }
    if exists|i: int|
        {
            let e = #[trigger] exits[i];
            &&& 0 <= i < exits.len()
            &&& if e.radius > 0 {
                &&& vstd::math::abs(p.0 - e.pos.0) + 2 * vstd::math::abs(p.1 - e.pos.1) < e.radius
                &&& same_grid(e.pos, p)
            } else {
                p == e.pos
            }
        } {
        let i = choose|i: int|
            {
                let e = #[trigger] exits[i];
                &&& 0 <= i < exits.len()
                &&& if e.radius > 0 {
                    &&& vstd::math::abs(p.0 - e.pos.0) + 2 * vstd::math::abs(p.1 - e.pos.1) < e.radius
                    &&& same_grid(e.pos, p)
                } else {
                    p == e.pos
                }
            };
        assert(zone_cell(exits[i].pos, exits[i].radius as int, p));
    }
}

/// The event objects of a scene start where the scene says and end where those
/// of the next scene start, or with the table.
pub proof fn law_scenes_share_event_objects(e: &Engine, scene: u16)
    ensures
        events_of(e, scene) is Some <==> 1 <= scene <= e.globals.game.scenes@.len(),
        1 <= scene <= e.globals.game.scenes@.len() ==> (events_of(e, scene)->0).0 == e.globals.game.scenes@[scene
            - 1].event_object_index,
        1 <= scene < e.globals.game.scenes@.len() && e.globals.game.scenes@[scene as int].event_object_index
            <= e.globals.game.event_objects@.len() ==> (events_of(e, scene)->0).1
            == e.globals.game.scenes@[scene as int].event_object_index,
        scene == e.globals.game.scenes@.len() && scene > 0 ==> (events_of(e, scene)->0).1 == e.globals.game.event_objects@.len(),
        events_of(e, scene) matches Some((_, end)) ==> end <= e.globals.game.event_objects@.len(),
{
}

/// The exits among event objects are those that are there, have a script that
/// leads to another scene, and are touched; in the order of their numbers, each
/// with where it is, how far its zone reaches and where it leads.
pub proof fn law_exits_are_those_that_lead_away(e: &Engine, from: int, to: int, i: int)
    requires
        0 <= from <= i < to <= 0xffff,
    ensures
        ({
            let o = e.globals.game.event_objects@[i];
            let list = exits_among(e, from, to);
            let dest = script::destination(e.globals.game.script_entries@, o.trigger_script);
            &&& o.state > 0 && o.vanish_time == 0 && o.trigger_script != 0 && o.trigger_mode >= 4 && dest is Some
                <==> exists|k: int| 0 <= k < list.len() && (#[trigger] list[k]).id == i + 1
            &&& forall|k: int|
                0 <= k < list.len() && (#[trigger] list[k]).id == i + 1 ==> {
                    &&& list[k].pos == (o.x as i64, o.y as i64)
                    &&& list[k].radius == (o.trigger_mode - 4) * 32 + 16
                    &&& dest == Some(list[k].dest_scene)
                }
            &&& forall|k: int, m: int| 0 <= k < m < list.len() ==> (#[trigger] list[k]).id < (#[trigger] list[m]).id
            &&& forall|k: int| 0 <= k < list.len() ==> from + 1 <= (#[trigger] list[k]).id <= to
        }),
{
    lemma_exits_among(e, from, to);
    let list = exits_among(e, from, to);
    if is_exit(e, i) {
        assert(list.contains(exit_of(e, i)));
        let k = choose|k: int| 0 <= k < list.len() && list[k] == exit_of(e, i);
        assert(list[k].id == i + 1);
    }
    assert forall|k: int| 0 <= k < list.len() && (#[trigger] list[k]).id == i + 1 implies is_exit(e, i) && list[k] == exit_of(e, i) by {
        assert(is_exit(e, list[k].id - 1) && list[k] == exit_of(e, list[k].id - 1));
    }
}

proof fn lemma_exits_among(e: &Engine, from: int, to: int)
    requires
        0 <= from,
        to <= 0xffff,
    ensures
        ({
            let list = exits_among(e, from, to);
            &&& forall|i: int| from <= i < to && #[trigger] is_exit(e, i) ==> list.contains(exit_of(e, i))
            &&& forall|k: int|
                0 <= k < list.len() ==> {
                    &&& from + 1 <= (#[trigger] list[k]).id <= to
                    &&& is_exit(e, list[k].id - 1)
                    &&& list[k] == exit_of(e, list[k].id - 1)
                }
            &&& forall|k: int, m: int| 0 <= k < m < list.len() ==> (#[trigger] list[k]).id < (#[trigger] list[m]).id
        }),
    decreases to - from,
{
    if to > from {
        lemma_exits_among(e, from, to - 1);
        let before = exits_among(e, from, to - 1);
        let list = exits_among(e, from, to);
        if is_exit(e, to - 1) {
            assert(list == before.push(exit_of(e, to - 1)));
            assert forall|i: int| from <= i < to && #[trigger] is_exit(e, i) implies list.contains(exit_of(e, i)) by {
                if i < to - 1 {
                    assert(before.contains(exit_of(e, i)));
                    let k = choose|k: int| 0 <= k < before.len() && before[k] == exit_of(e, i);
                    assert(list[k] == exit_of(e, i));
                } else {
                    assert(list[before.len() as int] == exit_of(e, i));
                }
            }
        }
    }
}

/// The zones among event objects are those of all that are there, have a script
/// and are touched: exits if they lead to another scene, and else doors if they
/// do not show.
pub proof fn law_zones_are_those_that_are_touched(e: &Engine, from: int, to: int, i: int)
    requires
        0 <= from <= i < to <= 0xffff,
    ensures
        ({
            let o = e.globals.game.event_objects@[i];
            let list = zones_among(e, from, to);
            let dest = script::destination(e.globals.game.script_entries@, o.trigger_script);
            &&& o.state > 0 && o.vanish_time == 0 && o.trigger_script != 0 && o.trigger_mode >= 4 <==> exists|k: int|
                0 <= k < list.len() && (#[trigger] list[k]).id == i + 1
            &&& forall|k: int|
                0 <= k < list.len() && (#[trigger] list[k]).id == i + 1 ==> {
                    &&& list[k].pos == (o.x as i64, o.y as i64)
                    &&& list[k].radius == (o.trigger_mode - 4) * 32 + 16
                    &&& list[k].dest_scene == dest
                    &&& list[k].trigger_mode == o.trigger_mode
                    &&& list[k].role == ZoneRole::Exit <==> dest is Some
                    &&& list[k].role == ZoneRole::Door <==> dest is None && o.sprite_num == 0
                    &&& list[k].role == ZoneRole::Touch <==> dest is None && o.sprite_num != 0
                }
            &&& forall|k: int, m: int| 0 <= k < m < list.len() ==> (#[trigger] list[k]).id < (#[trigger] list[m]).id
        }),
{
    lemma_zones_among(e, from, to);
    let list = zones_among(e, from, to);
    if is_zone(e, i) {
        assert(list.contains(zone_of(e, i)));
        let k = choose|k: int| 0 <= k < list.len() && list[k] == zone_of(e, i);
        assert(list[k].id == i + 1);
    }
    assert forall|k: int| 0 <= k < list.len() && (#[trigger] list[k]).id == i + 1 implies is_zone(e, i) && list[k] == zone_of(e, i) by {
        assert(is_zone(e, list[k].id - 1) && list[k] == zone_of(e, list[k].id - 1));
    }
}

proof fn lemma_zones_among(e: &Engine, from: int, to: int)
    requires
        0 <= from,
        to <= 0xffff,
    ensures
        ({
            let list = zones_among(e, from, to);
            &&& forall|i: int| from <= i < to && #[trigger] is_zone(e, i) ==> list.contains(zone_of(e, i))
            &&& forall|k: int|
                0 <= k < list.len() ==> {
                    &&& from + 1 <= (#[trigger] list[k]).id <= to
                    &&& is_zone(e, list[k].id - 1)
                    &&& list[k] == zone_of(e, list[k].id - 1)
                }
            &&& forall|k: int, m: int| 0 <= k < m < list.len() ==> (#[trigger] list[k]).id < (#[trigger] list[m]).id
        }),
    decreases to - from,
{
    if to > from {
        lemma_zones_among(e, from, to - 1);
        let before = zones_among(e, from, to - 1);
        let list = zones_among(e, from, to);
        if is_zone(e, to - 1) {
            assert(list == before.push(zone_of(e, to - 1)));
            assert forall|i: int| from <= i < to && #[trigger] is_zone(e, i) implies list.contains(zone_of(e, i)) by {
                if i < to - 1 {
                    assert(before.contains(zone_of(e, i)));
                    let k = choose|k: int| 0 <= k < before.len() && before[k] == zone_of(e, i);
                    assert(list[k] == zone_of(e, i));
                } else {
                    assert(list[before.len() as int] == zone_of(e, i));
                }
            }
        }
    }
}

/// The exit that the party stands in is remembered, with the scene it was in
/// and where the exit leads; outside all exits, while a scene is entered, and
/// without a scene, what was remembered stays.
pub proof fn law_touched_exit_is_noted(last: Option<SceneExitTransit>, scene: u16, entering: bool, player: Pos, exits: Seq<SceneExit>)
    ensures
        !entering && scene != 0 && exit_at(player, exits) is Some ==> {
            &&& noted_exit(last, scene, entering, player, exits) is Some
            &&& (noted_exit(last, scene, entering, player, exits)->0).from_scene == scene
            &&& (noted_exit(last, scene, entering, player, exits)->0).exit_id == (exit_at(player, exits)->0).id
            &&& (noted_exit(last, scene, entering, player, exits)->0).dest_scene == (exit_at(player, exits)->0).dest_scene
        },
        entering || scene == 0 || exit_at(player, exits) is None ==> noted_exit(last, scene, entering, player, exits) == last,
{
}

/// The exits that a way crosses: each is one of the exits, its zone holds a
/// position of the way, and no number comes twice; they come by number; and
/// whatever exit the way leads into has its number among them.
pub proof fn law_crossed_exits(path: Seq<Pos>, exits: Seq<SceneExit>, n: int)
    requires
        0 <= n <= exits.len(),
    ensures
        ({
            let list = crossed(path, exits, n);
            &&& forall|k: int, m: int| 0 <= k < m < list.len() ==> (#[trigger] list[k]).id < (#[trigger] list[m]).id
            &&& forall|k: int| 0 <= k < list.len() ==> exits.contains(#[trigger] list[k]) && way_touches(path, list[k])
            &&& forall|i: int| 0 <= i < n && way_touches(path, #[trigger] exits[i]) ==> has_exit(list, exits[i].id)
        }),
    decreases n,
{
    if n > 0 {
        law_crossed_exits(path, exits, n - 1);
        let before = crossed(path, exits, n - 1);
        let x = exits[n - 1];
        if way_touches(path, x) && !has_exit(before, x.id) {
            lemma_put_by_number(before, x);
            let list = crossed(path, exits, n);
            assert forall|k: int| 0 <= k < list.len() implies exits.contains(#[trigger] list[k]) && way_touches(path, list[k]) by {
                assert(list.contains(list[k]));
                if list[k] != x {
                    let m = choose|m: int| 0 <= m < before.len() && before[m] == list[k];
                    assert(exits.contains(before[m]));
                } else {
                    assert(exits[n - 1] == x);
                }
            }
            assert forall|i: int| 0 <= i < n && way_touches(path, #[trigger] exits[i]) implies has_exit(list, exits[i].id) by {
                if i < n - 1 {
                    assert(has_exit(before, exits[i].id));
                    let m = choose|m: int| 0 <= m < before.len() && (#[trigger] before[m]).id == exits[i].id;
                    assert(before.contains(before[m]));
                    assert(list.contains(before[m]));
                    let k = choose|k: int| 0 <= k < list.len() && list[k] == before[m];
                    assert(list[k].id == exits[i].id);
                } else {
                    assert(list.contains(x));
                    let k = choose|k: int| 0 <= k < list.len() && list[k] == x;
                    assert(list[k].id == x.id);
                }
            }
        }
    }
}

proof fn lemma_put_by_number(list: Seq<SceneExit>, x: SceneExit)
    requires
        forall|k: int, m: int| 0 <= k < m < list.len() ==> (#[trigger] list[k]).id < (#[trigger] list[m]).id,
        !has_exit(list, x.id),
    ensures
        ({
            let r = put_exit(list, x);
            &&& forall|k: int, m: int| 0 <= k < m < r.len() ==> (#[trigger] r[k]).id < (#[trigger] r[m]).id
            &&& forall|y: SceneExit| #[trigger] r.contains(y) <==> y == x || list.contains(y)
        }),
    decreases list.len(),
{
    let r = put_exit(list, x);
    if list.len() == 0 || list.last().id <= x.id {
        assert(r == list.push(x));
        assert forall|y: SceneExit| #[trigger] r.contains(y) <==> y == x || list.contains(y) by {
            if r.contains(y) {
                let k = choose|k: int| 0 <= k < r.len() && r[k] == y;
                if k < list.len() {
                    assert(list[k] == y);
                }
            }
            if list.contains(y) {
                let k = choose|k: int| 0 <= k < list.len() && list[k] == y;
                assert(r[k] == y);
            }
            assert(r[list.len() as int] == x);
        }
        assert forall|k: int, m: int| 0 <= k < m < r.len() implies (#[trigger] r[k]).id < (#[trigger] r[m]).id by {
            assert(r[k] == list[k]);
            if m == list.len() {
                assert(list[list.len() - 1].id != x.id);
            } else {
                assert(r[m] == list[m]);
            }
        }
    } else {
        let front = list.drop_last();
        assert forall|k: int| 0 <= k < front.len() implies (#[trigger] front[k]).id != x.id by {
            assert(front[k] == list[k]);
        }
        lemma_put_by_number(front, x);
        let put = put_exit(front, x);
        let last = list.last();
        assert(r == put.push(last));
        assert(last == list[list.len() - 1]);
        assert forall|y: SceneExit| #[trigger] r.contains(y) <==> y == x || list.contains(y) by {
            if r.contains(y) {
                let k = choose|k: int| 0 <= k < r.len() && r[k] == y;
                if k < put.len() {
                    assert(put[k] == y);
                    assert(put.contains(y));
                    if y != x {
                        let m = choose|m: int| 0 <= m < front.len() && front[m] == y;
                        assert(list[m] == y);
                    }
                } else {
                    assert(list[list.len() - 1] == y);
                }
            }
            if list.contains(y) {
                let k = choose|k: int| 0 <= k < list.len() && list[k] == y;
                if k < front.len() {
                    assert(front[k] == y);
                    assert(put.contains(y));
                    let m = choose|m: int| 0 <= m < put.len() && put[m] == y;
                    assert(r[m] == y);
                } else {
                    assert(r[put.len() as int] == y);
                }
            }
            if y == x {
                assert(put.contains(x));
                let m = choose|m: int| 0 <= m < put.len() && put[m] == x;
                assert(r[m] == x);
            }
        }
        assert forall|k: int, m: int| 0 <= k < m < r.len() implies (#[trigger] r[k]).id < (#[trigger] r[m]).id by {
            assert(r[k] == put[k]);
            if m == put.len() {
                assert(put.contains(put[k]));
                if put[k] != x {
                    let c = choose|c: int| 0 <= c < front.len() && front[c] == put[k];
                    assert(list[c] == put[k]);
                }
            } else {
                assert(r[m] == put[m]);
            }
        }
    }
}

/// An exit is told by its number, where it leads, where it is, and how far its
/// zone reaches.
pub proof fn law_exits_are_told(e: SceneExit)
    ensures
        exit_members(e) == seq![
            json::num("id"@, e.id as int),
            json::num("dest_scene"@, e.dest_scene as int),
            json::pair("pos"@, e.pos.0 as int, e.pos.1 as int),
            json::num("touch_radius"@, e.radius as int),
        ],
{
    assert(exit_members(e) =~= seq![
        json::num("id"@, e.id as int),
        json::num("dest_scene"@, e.dest_scene as int),
        json::pair("pos"@, e.pos.0 as int, e.pos.1 as int),
        json::num("touch_radius"@, e.radius as int),
    ]);
}

/// The ways back to a scene are the exits that lead there, the first eight.
pub proof fn law_ways_back_lead_back(exits: Seq<SceneExit>, from_scene: u16, n: int)
    requires
        0 <= n < exits.len(),
    ensures
        ways_back(exits, from_scene, n).len() <= 8,
        exits[n].dest_scene != from_scene ==> ways_back(exits, from_scene, n + 1) == ways_back(exits, from_scene, n),
        exits[n].dest_scene == from_scene && ways_back(exits, from_scene, n).len() < 8 ==> ways_back(exits, from_scene, n + 1)
            == ways_back(exits, from_scene, n).push(json::object(exit_members(exits[n]))),
    decreases n,
{
    if n > 0 {
        law_ways_back_lead_back(exits, from_scene, n - 1);
    }
}

/// A zone is told of where the party stands in it, and of a step where the step
/// leads into it.
pub proof fn law_zones_are_told_where_they_are_touched(p: Pos, zones: Seq<TouchZone>, n: int, d: int)
    requires
        0 <= n < zones.len(),
    ensures
        ({
            let z = zones[n];
            let inside = z.radius > 0 && vstd::math::abs(p.0 - z.pos.0) + 2 * vstd::math::abs(p.1 - z.pos.1) < z.radius;
            &&& inside ==> zones_around(p, zones, n + 1) == zones_around(p, zones, n).push(zone_text(p, z))
            &&& !inside ==> zones_around(p, zones, n + 1) == zones_around(p, zones, n)
            &&& inside ==> zone_numbers(p, zones, n + 1) == zone_numbers(p, zones, n).push(text::signed_decimal(z.id as int))
            &&& !inside ==> zone_numbers(p, zones, n + 1) == zone_numbers(p, zones, n)
        }),
        step_zones(p, d, false, zones) == json::array(Seq::empty()),
        step_zones(p, d, true, zones) == json::array(zone_numbers(geometry::stepped(p, d), zones, zones.len() as int)),
{
}

/// While a scene is entered, the exit through which the last one was left is
/// told, if it leads here or was left for here; else only the scene.
pub proof fn law_scene_changes_are_told(m: Seq<Seq<char>>, last: Option<SceneExitTransit>, scene: u16)
    ensures
        transit_members(m, last, scene, false) == m.push(json::member("last_scene_exit"@, transit_text(last))),
        last is None ==> transit_members(m, last, scene, true) == m.push(json::member("last_scene_exit"@, "null"@)).push(
            json::num("scene_change_dest"@, scene as int),
        ),
        last matches Some(t) ==> {
            let told = transit_members(m, last, scene, true);
            let at = m.len() as int;
            &&& t.dest_scene == scene || t.from_scene != scene ==> {
                &&& told.len() == at + 4
                &&& told[at + 1] == json::num("scene_change_exit_id"@, t.exit_id as int)
                &&& told[at + 2] == json::num("scene_change_from_scene"@, t.from_scene as int)
                &&& told[at + 3] == json::num("scene_change_dest"@, t.dest_scene as int)
            }
            &&& t.dest_scene != scene && t.from_scene == scene ==> {
                &&& told.len() == at + 2
                &&& told[at + 1] == json::num("scene_change_dest"@, scene as int)
            }
        },
{
}

/// A zone is told with its number, what it is, how far it reaches and how far the
/// party is from it, and where it leads if it leads anywhere.
pub proof fn law_zones_are_told(player: Pos, z: TouchZone)
    ensures
        ({
            let m = seq![
                json::num("id"@, z.id as int),
                json::string("role"@, z.role.text()),
                json::num("trigger_mode"@, z.trigger_mode as int),
                json::num("touch_radius"@, z.radius as int),
                json::num("dist"@, (vstd::math::abs(player.0 - z.pos.0) + 2 * vstd::math::abs(player.1 - z.pos.1)) as int),
            ];
            &&& z.dest_scene is None ==> zone_text(player, z) == json::object(m)
            &&& z.dest_scene matches Some(d) ==> zone_text(player, z) == json::object(m.push(json::num("dest_scene"@, d as int)))
        }),
        ZoneRole::Exit.text() == "exit"@,
        ZoneRole::Door.text() == "door"@,
        ZoneRole::Touch.text() == "touch"@,
{
    let m = Seq::empty().push(json::num("id"@, z.id as int)).push(json::string("role"@, z.role.text())).push(
        json::num("trigger_mode"@, z.trigger_mode as int),
    ).push(json::num("touch_radius"@, z.radius as int)).push(json::num("dist"@, geometry::distance(player, z.pos)));
    assert(m =~= seq![
        json::num("id"@, z.id as int),
        json::string("role"@, z.role.text()),
        json::num("trigger_mode"@, z.trigger_mode as int),
        json::num("touch_radius"@, z.radius as int),
        json::num("dist"@, (vstd::math::abs(player.0 - z.pos.0) + 2 * vstd::math::abs(player.1 - z.pos.1)) as int),
    ]);
}

} // verus!
