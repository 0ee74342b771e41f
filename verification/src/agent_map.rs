//! The current scene as JSON text: exits, what can be acted on, and event
//! objects nearby.

use vstd::prelude::*;

use crate::engine::Engine;
use crate::geometry;
use crate::geometry::Pos;
use crate::global::Globals;
use crate::json;
use crate::json::Members;
use crate::reach;
use crate::reach::Reachability;
use crate::records::EventObject;
use crate::script;
use crate::script::ScriptRank;
use crate::search;
use crate::search::SearchInfo;
use crate::zones;
use crate::zones::SceneExit;

verus! {

/// How many event objects are listed at most.
pub const MAX_EVENTS: usize = 32;

/// What an event object is good for.
#[derive(Clone, Copy, Debug, PartialEq, Eq, Structural)]
pub enum EventRole {
    /// It leads to another scene.
    Exit,
    /// It is walked into, within the scene.
    Door,
    /// It gives or takes items.
    LoadPoint,
    /// It can be searched and does not show.
    Trigger,
    /// It shows.
    Npc,
    /// It does nothing.
    Decor,
}

impl EventRole {
    pub open spec fn text(self) -> Seq<char> {
        match self {
            EventRole::Exit => "exit"@,
            EventRole::Door => "door"@,
            EventRole::LoadPoint => "load_point"@,
            EventRole::Trigger => "trigger"@,
            EventRole::Npc => "npc"@,
            EventRole::Decor => "decor"@,
        }
    }

    pub fn name(self) -> (s: &'static str)
        ensures
            s@ == self.text(),
    {
        match self {
            EventRole::Exit => "exit",
            EventRole::Door => "door",
            EventRole::LoadPoint => "load_point",
            EventRole::Trigger => "trigger",
            EventRole::Npc => "npc",
            EventRole::Decor => "decor",
        }
    }
}

/// What an event object is good for.
pub open spec fn role_of(mode: u16, sprite_num: u16, script: u16, dest: Option<u16>, progress: Seq<char>) -> EventRole {
    if script == 0 {
        EventRole::Decor
    } else if dest is Some {
        EventRole::Exit
    } else if progress == "item"@ {
        EventRole::LoadPoint
    } else if mode >= 4 {
        if sprite_num == 0 {
            EventRole::Door
        } else {
            EventRole::Npc
        }
    } else if mode == 0 {
        EventRole::Decor
    } else if sprite_num == 0 {
        EventRole::Trigger
    } else {
        EventRole::Npc
    }
}

/// What an event object is good for.
pub fn event_role(trigger_mode: u16, sprite_num: u16, trigger_script: u16, dest_scene: Option<u16>, progress: &str) -> (r:
    EventRole)
    ensures
        r == role_of(trigger_mode, sprite_num, trigger_script, dest_scene, progress@),
{
    if trigger_script == 0 {
        EventRole::Decor
    } else if dest_scene.is_some() {
        EventRole::Exit
    } else if json::same_text(progress, "item") {
        EventRole::LoadPoint
    } else if trigger_mode >= 4 {
        if sprite_num == 0 {
            EventRole::Door
        } else {
            EventRole::Npc
        }
    } else if trigger_mode == 0 {
        EventRole::Decor
    } else if sprite_num == 0 {
        EventRole::Trigger
    } else {
        EventRole::Npc
    }
}

/// The name of what an event object is good for.
pub fn classify_event_role(
    trigger_mode: u16,
    sprite_num: u16,
    trigger_script: u16,
    dest_scene: Option<u16>,
    progress: &str,
) -> (s: &'static str)
    ensures
        s@ == role_of(trigger_mode, sprite_num, trigger_script, dest_scene, progress@).text(),
{
    event_role(trigger_mode, sprite_num, trigger_script, dest_scene, progress).name()
}

/// Only what leads to another scene is an exit.
pub proof fn law_exit_only_with_destination(mode: u16, sprite_num: u16, script: u16, dest: Option<u16>, progress: Seq<char>)
    ensures
        role_of(mode, sprite_num, script, dest, progress) == EventRole::Exit <==> script != 0 && dest is Some,
{
}

/// The first of `n` spots that is the fewest steps away, and their number.
pub open spec fn nearest_spot(cells: Seq<(Pos, u16)>, spots: Seq<(Pos, u16)>, n: int) -> Option<(Pos, u16)>
    decreases n,
{
    if n <= 0 {
        None
    } else {
        let best = nearest_spot(cells, spots, n - 1);
        match reach::steps_near(cells, spots[n - 1].0, 0) {
            Some(s) => match best {
                Some(b) => if s < b.1 {
                    Some((spots[n - 1].0, s))
                } else {
                    best
                },
                None => Some((spots[n - 1].0, s)),
            },
            None => best,
        }
    }
}

/// The steps to where an event object can be acted on.
pub open spec fn target_steps(cells: Seq<(Pos, u16)>, spots: Seq<(Pos, u16)>, pos: Pos, mode: u16) -> Option<u16> {
    if search::is_searched(mode) && spots.len() > 0 {
        match nearest_spot(cells, spots, spots.len() as int) {
            Some(b) => Some(b.1),
            None => None,
        }
    } else {
        reach::steps_near(cells, pos, search::goal_distance(mode))
    }
}

/// A shortest way to within a distance of a goal.
pub open spec fn way_near(cells: Seq<(Pos, u16)>, goal: Pos, dist: int) -> Option<Seq<Pos>> {
    match reach::end_near(cells, goal, dist) {
        Some(end) => Some(reach::way_to(cells, end.0, end.1 as int)),
        None => None,
    }
}

/// A shortest way to where an event object can be acted on.
pub open spec fn target_way(cells: Seq<(Pos, u16)>, spots: Seq<(Pos, u16)>, pos: Pos, mode: u16) -> Option<Seq<Pos>> {
    if search::is_searched(mode) && spots.len() > 0 {
        match nearest_spot(cells, spots, spots.len() as int) {
            Some(b) => way_near(cells, b.0, 0),
            None => None,
        }
    } else {
        way_near(cells, pos, search::goal_distance(mode))
    }
}

fn find_nearest_spot(reach: &Reachability, spots: &[(Pos, u16)]) -> (r: Option<(Pos, u16)>)
    requires
        reach::all_inland(reach@),
        search::spots_placed(spots@),
    ensures
        r == nearest_spot(reach@, spots@, spots@.len() as int),
        r matches Some(b) ==> geometry::inland(b.0),
{
    let mut best: Option<(Pos, u16)> = None;
    for i in 0..spots.len()
        invariant
            reach::all_inland(reach@),
            search::spots_placed(spots@),
            best == nearest_spot(reach@, spots@, i as int),
            best matches Some(b) ==> geometry::inland(b.0),
    {
        let sp: Pos = spots[i].0;
        assert(geometry::inland(spots@[i as int].0));
        match reach.steps_to(sp, 0) {
            Some(s) => {
                best = match best {
                    None => Some((sp, s)),
                    Some(b) => if s < b.1 {
                        Some((sp, s))
                    } else {
                        Some(b)
                    },
                };
            },
            None => {},
        }
    }
    best
}

/// The steps to where an event object can be acted on.
pub fn steps_any_for_target(spots: &[(Pos, u16)], pos: Pos, trigger_mode: u16, reach: &Reachability) -> (r: Option<u16>)
    requires
        reach::all_inland(reach@),
        search::spots_placed(spots@),
        geometry::in_world(pos),
    ensures
        r == target_steps(reach@, spots@, pos, trigger_mode),
{
    if 0 < trigger_mode && trigger_mode < 4 && spots.len() > 0 {
        match find_nearest_spot(reach, spots) {
            Some(b) => Some(b.1),
            None => None,
        }
    } else {
        reach.steps_to(pos, search::interact_goal_dist(trigger_mode))
    }
}

/// Whether an event object can be acted on without crossing an exit, in how
/// many steps, and whether it can be only by crossing one.
pub fn reach_for_target(
    spots: &[(Pos, u16)],
    pos: Pos,
    trigger_mode: u16,
    reach: &Reachability,
    reach_safe: &Reachability,
) -> (r: (bool, Option<u16>, bool))
    requires
        reach::all_inland(reach@),
        reach::all_inland(reach_safe@),
        search::spots_placed(spots@),
        geometry::in_world(pos),
    ensures
        ({
            let safe = target_steps(reach_safe@, spots@, pos, trigger_mode);
            let any = target_steps(reach@, spots@, pos, trigger_mode);
            r == (safe is Some, safe, safe is None && any is Some)
        }),
{
    let safe: Option<u16> = steps_any_for_target(spots, pos, trigger_mode, reach_safe);
    if safe.is_some() {
        return (true, safe, false);
    }
    let any: Option<u16> = steps_any_for_target(spots, pos, trigger_mode, reach);
    (false, None, any.is_some())
}

/// A shortest way to where an event object can be acted on.
pub fn path_for_target(spots: &[(Pos, u16)], pos: Pos, trigger_mode: u16, reach: &Reachability) -> (r: Option<Vec<Pos>>)
    requires
        reach::all_inland(reach@),
        search::spots_placed(spots@),
        geometry::in_world(pos),
    ensures
        match target_way(reach@, spots@, pos, trigger_mode) {
            Some(way) => r matches Some(v) && v@ == way,
            None => r is None,
        },
        r matches Some(v) ==> zones::all_in_world(v@),
{
    let r: Option<Vec<Pos>> = if 0 < trigger_mode && trigger_mode < 4 && spots.len() > 0 {
        match find_nearest_spot(reach, spots) {
            Some(b) => reach.path_to(b.0, 0),
            None => None,
        }
    } else {
        reach.path_to(pos, search::interact_goal_dist(trigger_mode))
    };
    proof {
        let (goal, dist) = if search::is_searched(trigger_mode) && spots@.len() > 0 {
            match nearest_spot(reach@, spots@, spots@.len() as int) {
                Some(b) => (b.0, 0int),
                None => (pos, 0int),
            }
        } else {
            (pos, search::goal_distance(trigger_mode))
        };
        if r is Some {
            reach::law_nearest_end(reach@, goal, dist, reach@.len() as int);
            let end = reach::end_near(reach@, goal, dist)->0;
            let i = choose|i: int| 0 <= i < reach@.len() && #[trigger] reach@[i] == end;
            assert(geometry::inland(reach@[i].0));
            lemma_way_in_world(reach@, end.0, end.1 as int);
        }
    }
    r
}

/// Ways stay in the world.
proof fn lemma_way_in_world(cells: Seq<(Pos, u16)>, cur: Pos, steps: int)
    requires
        reach::all_inland(cells),
        geometry::inland(cur),
    ensures
        zones::all_in_world(reach::way_to(cells, cur, steps)),
    decreases steps,
{
    let way = reach::way_to(cells, cur, steps);
    if steps > 0 {
        match reach::cell_before(cells, cur, steps) {
            Some(before) => {
                assert(cells.contains((before, (steps - 1) as u16)));
                let i = choose|i: int| 0 <= i < cells.len() && cells[i] == (before, (steps - 1) as u16);
                assert(geometry::inland(cells[i].0));
                lemma_way_in_world(cells, before, steps - 1);
                let front = reach::way_to(cells, before, steps - 1);
                assert forall|k: int| 0 <= k < way.len() implies geometry::in_world(#[trigger] way[k]) by {
                    if k < front.len() {
                        assert(way[k] == front[k]);
                    }
                }
            },
            None => {},
        }
    }
}

/// The steps to spot `i`, by a way that crosses no exit (0), by any way if the
/// spot is in no exit (1), or by any way (2).
pub open spec fn spot_measure(
    spots: Seq<(Pos, u16)>,
    safe: Seq<(Pos, u16)>,
    cells: Seq<(Pos, u16)>,
    exits: Seq<SceneExit>,
    i: int,
    which: int,
) -> Option<u16> {
    let sp = spots[i].0;
    if which != 2 && zones::exit_at(sp, exits) is Some {
        None
    } else if which == 0 {
        reach::steps_near(safe, sp, 0)
    } else {
        reach::steps_near(cells, sp, 0)
    }
}

/// The first of `n` spots with the fewest steps by a measure: the spot, where
/// to face and the steps.
pub open spec fn best_by(
    spots: Seq<(Pos, u16)>,
    safe: Seq<(Pos, u16)>,
    cells: Seq<(Pos, u16)>,
    exits: Seq<SceneExit>,
    n: int,
    which: int,
) -> Option<(Pos, u16, u16)>
    decreases n,
{
    if n <= 0 {
        None
    } else {
        let best = best_by(spots, safe, cells, exits, n - 1, which);
        match spot_measure(spots, safe, cells, exits, n - 1, which) {
            Some(s) => match best {
                Some(b) => if s < b.2 {
                    Some((spots[n - 1].0, spots[n - 1].1, s))
                } else {
                    best
                },
                None => Some((spots[n - 1].0, spots[n - 1].1, s)),
            },
            None => best,
        }
    }
}

/// Spot `i` as text.
pub open spec fn spot_text(
    spots: Seq<(Pos, u16)>,
    safe: Seq<(Pos, u16)>,
    cells: Seq<(Pos, u16)>,
    exits: Seq<SceneExit>,
    i: int,
) -> Seq<char> {
    let (sp, face) = spots[i];
    let hit = zones::exit_at(sp, exits);
    let m = Seq::<Seq<char>>::empty()
        .push(json::pair("pos"@, sp.0 as int, sp.1 as int))
        .push(json::string("face"@, search::facing_key(face as int)))
        .push(json::flag("in_exit_touch"@, hit is Some));
    let m = match hit {
        Some(x) => {
            let m = m
                .push(json::num("exit_id"@, x.id as int))
                .push(json::num("exit_dest"@, x.dest_scene as int));
            m
        },
        None => m,
    };
    let m = match spot_measure(spots, safe, cells, exits, i, 0) {
        Some(n) => {
            let m = m
                .push(json::num("walk_steps"@, n as int));
            m
        },
        None => m,
    };
    let m = match spot_measure(spots, safe, cells, exits, i, 2) {
        Some(n) => {
            let m = m
                .push(json::num("walk_steps_any"@, n as int));
            m
        },
        None => m,
    };
    json::object(m)
}

/// The first `n` spots.
pub open spec fn spot_list(
    spots: Seq<(Pos, u16)>,
    safe: Seq<(Pos, u16)>,
    cells: Seq<(Pos, u16)>,
    exits: Seq<SceneExit>,
    n: int,
) -> Seq<Seq<char>>
    decreases n,
{
    if n <= 0 {
        Seq::empty()
    } else {
        spot_list(spots, safe, cells, exits, n - 1).push(spot_text(spots, safe, cells, exits, n - 1))
    }
}

/// The best spot as text.
pub open spec fn best_spot_text(
    player: Pos,
    exits: Seq<SceneExit>,
    best: (Pos, u16, u16),
    path_safe: bool,
    stand_safe: bool,
) -> Seq<char> {
    let (sp, face, steps) = best;
    let hit = zones::exit_at(sp, exits);
    let m = Seq::<Seq<char>>::empty()
        .push(json::pair("pos"@, sp.0 as int, sp.1 as int))
        .push(json::string("face"@, search::facing_key(face as int)))
        .push(json::num("walk_steps"@, steps as int))
        .push(json::flag("path_safe"@, path_safe))
        .push(json::flag("safe"@, stand_safe && path_safe))
        .push(json::flag("in_exit_touch"@, hit is Some));
    let m = match hit {
        Some(x) => {
            let m = m
                .push(json::num("exit_id"@, x.id as int));
            m
        },
        None => m,
    };
    let m = m
        .push(json::string("approach_dir"@, search::walk_key(search::toward(player, sp))));
    json::object(m)
}

/// The member that names the best spot: one that can be reached without
/// crossing an exit, or else one in no exit, or else any.
pub open spec fn best_spot_members(
    m: Seq<Seq<char>>,
    player: Pos,
    spots: Seq<(Pos, u16)>,
    safe: Seq<(Pos, u16)>,
    cells: Seq<(Pos, u16)>,
    exits: Seq<SceneExit>,
) -> Seq<Seq<char>> {
    let n = spots.len() as int;
    match best_by(spots, safe, cells, exits, n, 0) {
        Some(b) => m.push(json::member("best_spot"@, best_spot_text(player, exits, b, true, true))),
        None => match best_by(spots, safe, cells, exits, n, 1) {
            Some(b) => m.push(json::member("best_spot"@, best_spot_text(player, exits, b, false, true))),
            None => match best_by(spots, safe, cells, exits, n, 2) {
                Some(b) => m.push(json::member("best_spot"@, best_spot_text(player, exits, b, false, false))),
                None => m,
            },
        },
    }
}

/// The members that tell how to search an event object.
pub open spec fn search_members(
    m: Seq<Seq<char>>,
    player: Pos,
    info: SearchInfo,
    spots: Seq<(Pos, u16)>,
    safe: Seq<(Pos, u16)>,
    cells: Seq<(Pos, u16)>,
    exits: Seq<SceneExit>,
) -> Seq<Seq<char>> {
    let m = m
        .push(json::flag("can_search_now"@, info.can_now))
        .push(json::flag("in_search_range"@, info.in_range))
        .push(json::flag("facing_ok"@, info.can_now))
        .push(json::flag("need_face"@, info.in_range && !info.can_now))
        .push(json::string("approach_dir"@, search::walk_key(info.approach as int)))
        .push(json::string("approach_note"@, "approach_dir is geometric toward the event body only; walk to best_spot/search_spots first."@));
    let m = match info.face {
        Some(face) => {
            let m = m
                .push(json::string("face"@, search::facing_key(face as int)));
            m
        },
        None => m,
    };
    if spots.len() == 0 {
        m
    } else {
        best_spot_members(
            m.push(json::member("search_spots"@, json::array(spot_list(spots, safe, cells, exits, spots.len() as int)))),
            player,
            spots,
            safe,
            cells,
            exits,
        )
    }
}

fn better(best: Option<(Pos, u16, u16)>, sp: Pos, face: u16, steps: Option<u16>) -> (r: Option<(Pos, u16, u16)>)
    ensures
        r == match steps {
            Some(s) => match best {
                Some(b) => if s < b.2 {
                    Some((sp, face, s))
                } else {
                    best
                },
                None => Some((sp, face, s)),
            },
            None => best,
        },
{
    match steps {
        Some(s) => match best {
            Some(b) => if s < b.2 {
                Some((sp, face, s))
            } else {
                best
            },
            None => Some((sp, face, s)),
        },
        None => best,
    }
}

fn push_best_spot(
    out: &mut Members,
    player: Pos,
    scene_exits: &[SceneExit],
    best: (Pos, u16, u16),
    path_safe: bool,
    stand_safe: bool,
)
    requires
        old(out).wf(),
        geometry::central(player),
        geometry::inland(best.0),
        zones::exits_placed(scene_exits@),
    ensures
        final(out).wf(),
        final(out)@ == old(out)@.push(
            json::member("best_spot"@, best_spot_text(player, scene_exits@, best, path_safe, stand_safe)),
        ),
{
    let (sp, face, steps): (Pos, u16, u16) = best;
    let hit: Option<SceneExit> = zones::exit_touching_at(sp, scene_exits);
    let mut m: Members = Members::new();
    m.pair("pos", sp.0, sp.1);
    m.string("face", search::dir_to_key(face));
    m.num("walk_steps", steps as u64);
    m.flag("path_safe", path_safe);
    m.flag("safe", stand_safe && path_safe);
    m.flag("in_exit_touch", hit.is_some());
    match hit {
        Some(x) => {
            m.num("exit_id", x.id as u64);
        },
        None => {},
    }
    m.string("approach_dir", search::approach_face(player, sp));
    let t: String = m.into_object();
    out.member("best_spot", t.as_str());
}

fn spot_json(
    spots: &[(Pos, u16)],
    i: usize,
    hit: Option<SceneExit>,
    st_safe: Option<u16>,
    st_any: Option<u16>,
    Ghost(safe): Ghost<Seq<(Pos, u16)>>,
    Ghost(cells): Ghost<Seq<(Pos, u16)>>,
    Ghost(exits): Ghost<Seq<SceneExit>>,
) -> (s: String)
    requires
        i < spots@.len(),
        hit == zones::exit_at(spots@[i as int].0, exits),
        st_safe == spot_measure(spots@, safe, cells, exits, i as int, 0),
        st_any == spot_measure(spots@, safe, cells, exits, i as int, 2),
    ensures
        s@ == spot_text(spots@, safe, cells, exits, i as int),
{
    let (sp, face): (Pos, u16) = spots[i];
    let mut m: Members = Members::new();
    m.pair("pos", sp.0, sp.1);
    m.string("face", search::dir_to_key(face));
    m.flag("in_exit_touch", hit.is_some());
    match hit {
        Some(x) => {
            m.num("exit_id", x.id as u64);
            m.num("exit_dest", x.dest_scene as u64);
        },
        None => {},
    }
    match st_safe {
        Some(n) => {
            m.num("walk_steps", n as u64);
        },
        None => {},
    }
    match st_any {
        Some(n) => {
            m.num("walk_steps_any", n as u64);
        },
        None => {},
    }
    m.into_object()
}

/// Append how to search an event object.
pub fn append_search_fields(
    out: &mut Members,
    player: Pos,
    info: &SearchInfo,
    spots: &[(Pos, u16)],
    reach_safe: &Reachability,
    reach: &Reachability,
    scene_exits: &[SceneExit],
)
    requires
        old(out).wf(),
        geometry::central(player),
        reach::all_inland(reach@),
        reach::all_inland(reach_safe@),
        search::spots_placed(spots@),
        zones::exits_placed(scene_exits@),
    ensures
        final(out).wf(),
        final(out)@ == search_members(old(out)@, player, *info, spots@, reach_safe@, reach@, scene_exits@),
{
    out.flag("can_search_now", info.can_now);
    out.flag("in_search_range", info.in_range);
    out.flag("facing_ok", info.can_now);
    out.flag("need_face", info.in_range && !info.can_now);
    out.string("approach_dir", search::walk_name(info.approach));
    out.string("approach_note", "approach_dir is geometric toward the event body only; walk to best_spot/search_spots first.");
    match info.face {
        Some(face) => {
            out.string("face", search::dir_to_key(face));
        },
        None => {},
    }
    if spots.len() == 0 {
        return;
    }
    append_spots(out, player, spots, reach_safe, reach, scene_exits);
}

fn append_spots(
    out: &mut Members,
    player: Pos,
    spots: &[(Pos, u16)],
    reach_safe: &Reachability,
    reach: &Reachability,
    scene_exits: &[SceneExit],
)
    requires
        old(out).wf(),
        geometry::central(player),
        reach::all_inland(reach@),
        reach::all_inland(reach_safe@),
        search::spots_placed(spots@),
        zones::exits_placed(scene_exits@),
    ensures
        final(out).wf(),
        final(out)@ == best_spot_members(
            old(out)@.push(
                json::member(
                    "search_spots"@,
                    json::array(spot_list(spots@, reach_safe@, reach@, scene_exits@, spots@.len() as int)),
                ),
            ),
            player,
            spots@,
            reach_safe@,
            reach@,
            scene_exits@,
        ),
{
    let mut list: Members = Members::new();
    let mut best_path: Option<(Pos, u16, u16)> = None;
    let mut best_stand: Option<(Pos, u16, u16)> = None;
    let mut best_any: Option<(Pos, u16, u16)> = None;
    for i in 0..spots.len()
        invariant
            geometry::central(player),
            reach::all_inland(reach@),
            reach::all_inland(reach_safe@),
            search::spots_placed(spots@),
            zones::exits_placed(scene_exits@),
            list.wf(),
            list@ == spot_list(spots@, reach_safe@, reach@, scene_exits@, i as int),
            best_path == best_by(spots@, reach_safe@, reach@, scene_exits@, i as int, 0),
            best_stand == best_by(spots@, reach_safe@, reach@, scene_exits@, i as int, 1),
            best_any == best_by(spots@, reach_safe@, reach@, scene_exits@, i as int, 2),
            best_path matches Some(b) ==> geometry::inland(b.0),
            best_stand matches Some(b) ==> geometry::inland(b.0),
            best_any matches Some(b) ==> geometry::inland(b.0),
    {
        let (sp, face): (Pos, u16) = spots[i];
        assert(geometry::inland(spots@[i as int].0));
        let hit: Option<SceneExit> = zones::exit_touching_at(sp, scene_exits);
        let st_any: Option<u16> = reach.steps_to(sp, 0);
        let st_safe: Option<u16> = if hit.is_some() {
            None
        } else {
            reach_safe.steps_to(sp, 0)
        };
        let st_stand: Option<u16> = if hit.is_some() {
            None
        } else {
            st_any
        };
        let t: String = spot_json(
            spots,
            i,
            hit,
            st_safe,
            st_any,
            Ghost(reach_safe@),
            Ghost(reach@),
            Ghost(scene_exits@),
        );
        list.put(t.as_str());
        best_path = better(best_path, sp, face, st_safe);
        best_stand = better(best_stand, sp, face, st_stand);
        best_any = better(best_any, sp, face, st_any);
    }
    let t: String = list.into_array();
    out.member("search_spots", t.as_str());
    match best_path {
        Some(b) => {
            push_best_spot(out, player, scene_exits, b, true, true);
        },
        None => match best_stand {
            Some(b) => {
                push_best_spot(out, player, scene_exits, b, false, true);
            },
            None => match best_any {
                Some(b) => {
                    push_best_spot(out, player, scene_exits, b, false, false);
                },
                None => {},
            },
        },
    }
}

/// Event object `i`, which leads to another scene, as text.
pub open spec fn map_exit(e: &Engine, player: Pos, cells: Seq<(Pos, u16)>, i: int) -> Seq<char> {
    let g = e.globals;
    let o = g.game.event_objects@[i];
    let id = (i + 1) as u16;
    let pos = zones::place_of(o);
    let dest = zones::leads_to(e, o)->0;
    let steps = reach::steps_near(cells, pos, search::goal_distance(o.trigger_mode));
    let m = Seq::<Seq<char>>::empty()
        .push(json::num("id"@, id as int))
        .push(json::string("kind"@, if o.trigger_mode >= 4 { "touch"@ } else if o.trigger_mode == 0 { "scenery"@ } else { "search"@ }))
        .push(json::pair("pos"@, pos.0 as int, pos.1 as int))
        .push(json::pair("screen"@, pos.0 - g.viewport.0, pos.1 - g.viewport.1))
        .push(json::pair("delta"@, pos.0 - player.0, pos.1 - player.1))
        .push(json::num("dist"@, geometry::distance(player, pos)))
        .push(json::num("dest_scene"@, dest as int))
        .push(json::num("trigger_mode"@, o.trigger_mode as int));
    let m = if zones::touch_radius(o.trigger_mode) > 0 {
        let m = m
            .push(json::num("touch_radius"@, zones::touch_radius(o.trigger_mode)))
            .push(json::flag("in_touch_range"@, zones::touches(player, pos, zones::touch_radius(o.trigger_mode))));
        m
    } else {
        m
    };
    let m = m
        .push(json::string("how"@, if o.trigger_mode >= 4 { "walk_into"@ } else { "face_and_confirm"@ }))
        .push(json::flag("walk_reachable"@, steps is Some));
    let m = match steps {
        Some(n) => {
            let m = m
                .push(json::num("walk_steps"@, n as int));
            m
        },
        None => m,
    };
    let m = m.push(zones::return_exits(e, dest, g.num_scene));
    json::object(m)
}

/// The event objects `from..to` that lead to another scene.
pub open spec fn map_exits(e: &Engine, player: Pos, cells: Seq<(Pos, u16)>, from: int, to: int) -> Seq<Seq<char>>
    decreases to - from,
{
    if to <= from {
        Seq::empty()
    } else {
        let before = map_exits(e, player, cells, from, to - 1);
        let o = e.globals.game.event_objects@[to - 1];
        if zones::is_active(o) && zones::leads_to(e, o) is Some {
            before.push(map_exit(e, player, cells, to - 1))
        } else {
            before
        }
    }
}

fn map_exit_json(engine: &Engine, player: Pos, reach: &Reachability, i: usize, dest: u16) -> (s: String)
    requires
        engine.res.wf(),
        geometry::central(player),
        reach::all_inland(reach@),
        i < engine.globals.game.event_objects@.len(),
        zones::leads_to(engine, engine.globals.game.event_objects@[i as int]) == Some(dest),
    ensures
        s@ == map_exit(engine, player, reach@, i as int),
{
    let g: &Globals = &engine.globals;
    let o: EventObject = g.game.event_objects[i];
    assert(i < g.game.event_objects.len());
    let id: u16 = (i + 1) as u16;
    let pos: Pos = (o.x as i64, o.y as i64);
    let dist: i64 = geometry::metric(player, pos);
    let radius: i64 = zones::touch_radius_of(o.trigger_mode);
    let in_touch: bool = zones::in_touch_at(player, pos, radius);
    let steps: Option<u16> = reach.steps_to(pos, search::interact_goal_dist(o.trigger_mode));
    let mut m: Members = Members::new();
    m.num("id", id as u64);
    m.string("kind", if o.trigger_mode >= 4 { "touch" } else if o.trigger_mode == 0 { "scenery" } else { "search" });
    m.pair("pos", pos.0, pos.1);
    m.pair("screen", pos.0 - g.viewport.0 as i64, pos.1 - g.viewport.1 as i64);
    m.pair("delta", pos.0 - player.0, pos.1 - player.1);
    m.signed("dist", dist);
    m.num("dest_scene", dest as u64);
    m.num("trigger_mode", o.trigger_mode as u64);
    if radius > 0 {
        m.signed("touch_radius", radius);
        m.flag("in_touch_range", in_touch);
    }
    m.string("how", if o.trigger_mode >= 4 { "walk_into" } else { "face_and_confirm" });
    m.flag("walk_reachable", steps.is_some());
    match steps {
        Some(n) => {
            m.num("walk_steps", n as u64);
        },
        None => {},
    }
    zones::append_return_exits(&mut m, engine, dest, g.num_scene);
    m.into_object()
}

fn map_exits_json(engine: &Engine, player: Pos, reach: &Reachability, start: usize, end: usize) -> (s: String)
    requires
        engine.res.wf(),
        geometry::central(player),
        reach::all_inland(reach@),
        end <= engine.globals.game.event_objects@.len(),
    ensures
        s@ == json::array(map_exits(engine, player, reach@, start as int, end as int)),
{
    let mut list: Members = Members::new();
    let mut i: usize = start;
    while i < end
        invariant
            engine.res.wf(),
            geometry::central(player),
            reach::all_inland(reach@),
            start <= i,
            i <= end || i == start,
            end <= engine.globals.game.event_objects@.len(),
            list.wf(),
            list@ == map_exits(engine, player, reach@, start as int, i as int),
        decreases end - i,
    {
        let o: EventObject = engine.globals.game.event_objects[i];
        if o.state > 0 && o.vanish_time == 0 && o.trigger_script != 0 {
            match script::script_destination_scene(engine, o.trigger_script) {
                Some(dest) => {
                    let t: String = map_exit_json(engine, player, reach, i, dest);
                    list.put(t.as_str());
                },
                None => {},
            }
        }
        i = i + 1;
    }
    list.into_array()
}

/// What event object `i` does: use of a held item counts first.
pub open spec fn mechanism_progress(e: &Engine, i: int) -> Seq<char> {
    if script::story_item(e, (i + 1) as u16, 256) is Some {
        "item"@
    } else {
        script::script_rank(e.globals.game.script_entries@, e.globals.game.event_objects@[i].trigger_script, 0).label
    }
}

/// The name of event object `i`, if it shows and speaks.
pub open spec fn speaker_label(e: &Engine, role: EventRole, o: EventObject) -> Option<Seq<char>> {
    if role == EventRole::Npc {
        script::event_speaker(e, o.trigger_script, o.auto_script)
    } else {
        None
    }
}

/// The members that tell how to walk to an event object: without crossing an
/// exit, or else which exits the way crosses.
pub open spec fn walk_members(
    m: Seq<Seq<char>>,
    e: &Engine,
    cells: Seq<(Pos, u16)>,
    safe: Seq<(Pos, u16)>,
    exits: Seq<SceneExit>,
    spots: Seq<(Pos, u16)>,
    o: EventObject,
) -> Seq<Seq<char>> {
    let g = e.globals;
    let pos = zones::place_of(o);
    let safe_steps = target_steps(safe, spots, pos, o.trigger_mode);
    let any_steps = target_steps(cells, spots, pos, o.trigger_mode);
    let m = m
        .push(json::flag("walk_reachable"@, safe_steps is Some));
    let m = match safe_steps {
        Some(n) => {
            let m = m
                .push(json::num("walk_steps"@, n as int));
            m
        },
        None => m,
    };
    let m = if safe_steps is None && any_steps is Some {
        let m = m
            .push(json::flag("path_crosses_exit"@, true));
        let m = match any_steps {
            Some(n) => {
                let m = m
                    .push(json::num("walk_steps_any"@, n as int));
                m
            },
            None => m,
        };
        let m = match target_way(cells, spots, pos, o.trigger_mode) {
            Some(path) => {
                let m = zones::detour_members(m, e, g.num_scene, path, exits);
                m
            },
            None => m,
        };
        m
    } else {
        m
    };
    m
}

fn append_event_walk(
    m: &mut Members,
    engine: &Engine,
    player: Pos,
    reach: &Reachability,
    reach_safe: &Reachability,
    scene_exits: &[SceneExit],
    o: EventObject,
    spots: &[(Pos, u16)],
)
    requires
        old(m).wf(),
        engine.res.wf(),
        geometry::central(player),
        reach::all_inland(reach@),
        reach::all_inland(reach_safe@),
        zones::exits_placed(scene_exits@),
        search::spots_placed(spots@),
    ensures
        final(m).wf(),
        final(m)@ == walk_members(old(m)@, engine, reach@, reach_safe@, scene_exits@, spots@, o),
{
    let g: &Globals = &engine.globals;
    let pos: Pos = (o.x as i64, o.y as i64);
    let (reachable, safe_steps, crosses): (bool, Option<u16>, bool) = reach_for_target(
        spots,
        pos,
        o.trigger_mode,
        reach,
        reach_safe,
    );
    let any_steps: Option<u16> = steps_any_for_target(spots, pos, o.trigger_mode, reach);
    let way: Option<Vec<Pos>> = path_for_target(spots, pos, o.trigger_mode, reach);
    m.flag("walk_reachable", reachable);
    match safe_steps {
        Some(n) => {
            m.num("walk_steps", n as u64);
        },
        None => {},
    }
    if crosses {
        m.flag("path_crosses_exit", true);
        match any_steps {
            Some(n) => {
                m.num("walk_steps_any", n as u64);
            },
            None => {},
        }
        match &way {
            Some(path) => {
                zones::append_exit_detour(m, engine, g.num_scene, path.as_slice(), scene_exits);
            },
            None => {},
        }
    }
}

/// Event object `i`, which can be acted on, as text.
pub open spec fn mechanism(
    e: &Engine,
    player: Pos,
    cells: Seq<(Pos, u16)>,
    safe: Seq<(Pos, u16)>,
    exits: Seq<SceneExit>,
    i: int,
) -> Seq<char> {
    let g = e.globals;
    let o = g.game.event_objects@[i];
    let id = (i + 1) as u16;
    let pos = zones::place_of(o);
    let rank = script::script_rank(g.game.script_entries@, o.trigger_script, 0);
    let item_use = script::story_item(e, id, 256);
    let progress = mechanism_progress(e, i);
    let role = role_of(o.trigger_mode, o.sprite_num, o.trigger_script, None, progress);
    let label = speaker_label(e, role, o);
    let spots = search::search_spots(e, pos, o.trigger_mode);
    let m = Seq::<Seq<char>>::empty()
        .push(json::num("id"@, id as int))
        .push(json::string("kind"@, if o.trigger_mode >= 4 { "touch"@ } else if o.trigger_mode == 0 { "scenery"@ } else { "search"@ }))
        .push(json::string("role"@, role.text()));
    let m = match label {
        Some(name) => {
            let m = m
                .push(json::string("label"@, name));
            m
        },
        None => m,
    };
    let m = m
        .push(json::pair("pos"@, pos.0 as int, pos.1 as int))
        .push(json::pair("screen"@, pos.0 - g.viewport.0, pos.1 - g.viewport.1))
        .push(json::pair("delta"@, pos.0 - player.0, pos.1 - player.1))
        .push(json::num("dist"@, geometry::distance(player, pos)))
        .push(json::string("progress"@, progress))
        .push(json::num("event_state"@, o.state as int));
    let m = if o.state >= 2 {
        let m = m
            .push(json::flag("solid"@, true));
        m
    } else {
        m
    };
    let m = m
        .push(json::string("how"@, if o.trigger_mode >= 4 { "walk_into"@ } else { "face_and_confirm"@ }));
    let m = if search::is_searched(o.trigger_mode) {
        let m = search_members(m, player, search::search_facts(player, pos, o.trigger_mode, g.party_direction), spots, safe, cells, exits);
        m
    } else {
        m
    };
    let m = if o.trigger_mode >= 4 {
        let m = m
            .push(json::num("trigger_mode"@, o.trigger_mode as int))
            .push(json::num("touch_radius"@, zones::touch_radius(o.trigger_mode)))
            .push(json::flag("in_touch_range"@, zones::touches(player, pos, zones::touch_radius(o.trigger_mode))));
        m
    } else {
        m
    };
    let m = walk_members(m, e, cells, safe, exits, spots, o);
    let m = match item_use {
        Some(item) => {
            let m = m
                .push(json::num("item_use"@, item as int));
            m
        },
        None => m,
    };
    let m = if rank.rank >= 5 {
        let m = m
            .push(json::flag("loop"@, true));
        m
    } else {
        m
    };
    json::object(m)
}

/// Event object `i` can be acted on within the scene.
pub open spec fn is_mechanism(e: &Engine, i: int) -> bool {
    let o = e.globals.game.event_objects@[i];
    zones::is_active(o) && zones::leads_to(e, o) is None && o.trigger_mode != 0
}

/// The event objects `from..to` that can be acted on within the scene.
pub open spec fn mechanisms(
    e: &Engine,
    player: Pos,
    cells: Seq<(Pos, u16)>,
    safe: Seq<(Pos, u16)>,
    exits: Seq<SceneExit>,
    from: int,
    to: int,
) -> Seq<Seq<char>>
    decreases to - from,
{
    if to <= from {
        Seq::empty()
    } else {
        let before = mechanisms(e, player, cells, safe, exits, from, to - 1);
        if is_mechanism(e, to - 1) {
            before.push(mechanism(e, player, cells, safe, exits, to - 1))
        } else {
            before
        }
    }
}

fn mechanism_json(
    engine: &Engine,
    player: Pos,
    reach: &Reachability,
    reach_safe: &Reachability,
    scene_exits: &[SceneExit],
    i: usize,
) -> (s: String)
    requires
        engine.res.wf(),
        geometry::central(player),
        reach::all_inland(reach@),
        reach::all_inland(reach_safe@),
        zones::exits_placed(scene_exits@),
        i < engine.globals.game.event_objects@.len(),
        is_mechanism(engine, i as int),
    ensures
        s@ == mechanism(engine, player, reach@, reach_safe@, scene_exits@, i as int),
{
    let g: &Globals = &engine.globals;
    let o: EventObject = g.game.event_objects[i];
    assert(i < g.game.event_objects.len());
    let id: u16 = (i + 1) as u16;
    let pos: Pos = (o.x as i64, o.y as i64);
    let dist: i64 = geometry::metric(player, pos);
    let radius: i64 = zones::touch_radius_of(o.trigger_mode);
    let in_touch: bool = zones::in_touch_at(player, pos, radius);
    let is_search: bool = 0 < o.trigger_mode && o.trigger_mode < 4;
    let rank: ScriptRank = script::analyze_script_progress(engine, o.trigger_script);
    let item_use: Option<u16> = script::story_item_for_event(engine, id);
    let progress: &str = if item_use.is_some() {
        "item"
    } else {
        rank.label
    };
    let role: EventRole = event_role(o.trigger_mode, o.sprite_num, o.trigger_script, None, progress);
    let label: Option<String> = if role == EventRole::Npc {
        script::event_dialog_label(engine, o.trigger_script, o.auto_script)
    } else {
        None
    };
    let info: SearchInfo = search::search_info(player, pos, o.trigger_mode, g.party_direction);
    let spots: Vec<(Pos, u16)> = search::compute_search_spots(engine, pos, o.trigger_mode);
    let mut m: Members = Members::new();
    m.num("id", id as u64);
    m.string("kind", if o.trigger_mode >= 4 { "touch" } else if o.trigger_mode == 0 { "scenery" } else { "search" });
    m.string("role", role.name());
    match &label {
        Some(name) => {
            m.string("label", name.as_str());
        },
        None => {},
    }
    m.pair("pos", pos.0, pos.1);
    m.pair("screen", pos.0 - g.viewport.0 as i64, pos.1 - g.viewport.1 as i64);
    m.pair("delta", pos.0 - player.0, pos.1 - player.1);
    m.signed("dist", dist);
    m.string("progress", progress);
    m.signed("event_state", o.state as i64);
    if o.state >= 2 {
        m.flag("solid", true);
    }
    m.string("how", if o.trigger_mode >= 4 { "walk_into" } else { "face_and_confirm" });
    if is_search {
        append_search_fields(&mut m, player, &info, spots.as_slice(), reach_safe, reach, scene_exits);
    }
    if o.trigger_mode >= 4 {
        m.num("trigger_mode", o.trigger_mode as u64);
        m.signed("touch_radius", radius);
        m.flag("in_touch_range", in_touch);
    }
    append_event_walk(&mut m, engine, player, reach, reach_safe, scene_exits, o, spots.as_slice());
    match item_use {
        Some(item) => {
            m.num("item_use", item as u64);
        },
        None => {},
    }
    if rank.rank >= 5 {
        m.flag("loop", true);
    }
    m.into_object()
}

fn mechanisms_json(
    engine: &Engine,
    player: Pos,
    reach: &Reachability,
    reach_safe: &Reachability,
    scene_exits: &[SceneExit],
    start: usize,
    end: usize,
) -> (s: String)
    requires
        engine.res.wf(),
        geometry::central(player),
        reach::all_inland(reach@),
        reach::all_inland(reach_safe@),
        zones::exits_placed(scene_exits@),
        end <= engine.globals.game.event_objects@.len(),
    ensures
        s@ == json::array(
            mechanisms(engine, player, reach@, reach_safe@, scene_exits@, start as int, end as int),
        ),
{
    let mut list: Members = Members::new();
    let mut i: usize = start;
    while i < end
        invariant
            engine.res.wf(),
            geometry::central(player),
            reach::all_inland(reach@),
            reach::all_inland(reach_safe@),
            zones::exits_placed(scene_exits@),
            start <= i,
            i <= end || i == start,
            end <= engine.globals.game.event_objects@.len(),
            list.wf(),
            list@ == mechanisms(engine, player, reach@, reach_safe@, scene_exits@, start as int, i as int),
        decreases end - i,
    {
        let o: EventObject = engine.globals.game.event_objects[i];
        if o.state > 0 && o.vanish_time == 0 && o.trigger_script != 0 && o.trigger_mode != 0 {
            if script::script_destination_scene(engine, o.trigger_script).is_none() {
                let t: String = mechanism_json(engine, player, reach, reach_safe, scene_exits, i);
                list.put(t.as_str());
            }
        }
        i = i + 1;
    }
    list.into_array()
}

/// The event objects `from..to` that stand in the way.
pub open spec fn blockers(e: &Engine, from: int, to: int) -> Seq<Seq<char>>
    decreases to - from,
{
    if to <= from {
        Seq::empty()
    } else {
        let before = blockers(e, from, to - 1);
        let i = to - 1;
        let o = e.globals.game.event_objects@[i];
        if o.state >= 2 && o.vanish_time == 0 {
            let m = Seq::<Seq<char>>::empty()
                .push(json::num("id"@, i + 1))
                .push(json::pair("pos"@, o.x as int, o.y as int))
                .push(json::num("state"@, o.state as int));
            before.push(json::object(m))
        } else {
            before
        }
    }
}

/// The event objects of the current scene that stand in the way.
pub open spec fn blockers_text(e: &Engine) -> Seq<char> {
    json::array(
        match zones::events_of(e, e.globals.num_scene) {
            Some((start, end)) => blockers(e, start, end),
            None => Seq::empty(),
        },
    )
}

/// The event objects of the current scene that stand in the way, as text.
pub fn event_blockers_json(engine: &Engine) -> (s: String)
    ensures
        s@ == blockers_text(engine),
{
    let mut list: Members = Members::new();
    match zones::scene_event_range(engine) {
        Some((start, end)) => {
            let mut i: usize = start;
            while i < end
                invariant
                    start <= i,
                    i <= end || i == start,
                    end <= engine.globals.game.event_objects@.len(),
                    list.wf(),
                    list@ == blockers(engine, start as int, i as int),
                decreases end - i,
            {
                let o: EventObject = engine.globals.game.event_objects[i];
                if o.state >= 2 && o.vanish_time == 0 {
                    let mut m: Members = Members::new();
                    m.num("id", (i + 1) as u64);
                    m.pair("pos", o.x as i64, o.y as i64);
                    m.signed("state", o.state as i64);
                    let t: String = m.into_object();
                    list.put(t.as_str());
                }
                i = i + 1;
            }
        },
        None => {},
    }
    list.into_array()
}

/// What is known of obstacles.
pub open spec fn obstacles_text(e: &Engine) -> Seq<char> {
    json::object(
        Seq::<Seq<char>>::empty().push(json::member("event_blockers"@, blockers_text(e))).push(
            json::string("tiles"@, "/v1/obstacles"@),
        ),
    )
}

/// The exits of the current scene.
pub open spec fn map_exits_text(e: &Engine, player: Pos, cells: Seq<(Pos, u16)>) -> Seq<char> {
    json::array(
        match zones::events_of(e, e.globals.num_scene) {
            Some((start, end)) => map_exits(e, player, cells, start, end),
            None => Seq::empty(),
        },
    )
}

/// What can be acted on in the current scene.
pub open spec fn mechanisms_text(
    e: &Engine,
    player: Pos,
    cells: Seq<(Pos, u16)>,
    safe: Seq<(Pos, u16)>,
    exits: Seq<SceneExit>,
) -> Seq<char> {
    json::array(
        match zones::events_of(e, e.globals.num_scene) {
            Some((start, end)) => mechanisms(e, player, cells, safe, exits, start, end),
            None => Seq::empty(),
        },
    )
}

/// The current scene as text.
pub open spec fn map_text(
    e: &Engine,
    player: Pos,
    cells: Seq<(Pos, u16)>,
    safe: Seq<(Pos, u16)>,
    exits: Seq<SceneExit>,
) -> Seq<char> {
    json::object(
        Seq::<Seq<char>>::empty()
            .push("\"dirs\":{\"up\":{\"dx\":16,\"dy\":-8,\"world\":\"(+16,-8)\"},\"right\":{\"dx\":16,\"dy\":8,\"world\":\"(+16,+8)\"},\"down\":{\"dx\":-16,\"dy\":8,\"world\":\"(-16,+8)\"},\"left\":{\"dx\":-16,\"dy\":-8,\"world\":\"(-16,-8)\"}}"@)
            .push(json::string("coord_note"@, "world [x,y]; screen = world - viewport; one walk key = dirs[key]; dist=|dx|+2*|dy|. touch fires when dist < touch_radius. walk_steps for non-exit targets use the safe graph (no cell inside any scene-exit touch radius). Prefer search_spots with in_exit_touch=false."@))
            .push(json::member("exits"@, map_exits_text(e, player, cells)))
            .push(json::member("mechanisms"@, mechanisms_text(e, player, cells, safe, exits)))
            .push(json::member("obstacles"@, obstacles_text(e))),
    )
}

/// The current scene as text.
pub fn map_json(
    engine: &Engine,
    player: Pos,
    reach: &Reachability,
    reach_safe: &Reachability,
    scene_exits: &[SceneExit],
) -> (s: String)
    requires
        engine.res.wf(),
        geometry::central(player),
        reach::all_inland(reach@),
        reach::all_inland(reach_safe@),
        zones::exits_placed(scene_exits@),
    ensures
        s@ == map_text(engine, player, reach@, reach_safe@, scene_exits@),
{
    let (start, end): (usize, usize) = match zones::scene_event_range(engine) {
        Some(range) => range,
        None => (0, 0),
    };
    let exits: String = map_exits_json(engine, player, reach, start, end);
    let mechanisms: String = mechanisms_json(engine, player, reach, reach_safe, scene_exits, start, end);
    let blockers: String = event_blockers_json(engine);
    let mut obstacles: Members = Members::new();
    obstacles.member("event_blockers", blockers.as_str());
    obstacles.string("tiles", "/v1/obstacles");
    let obstacles: String = obstacles.into_object();
    let mut m: Members = Members::new();
    m.put("\"dirs\":{\"up\":{\"dx\":16,\"dy\":-8,\"world\":\"(+16,-8)\"},\"right\":{\"dx\":16,\"dy\":8,\"world\":\"(+16,+8)\"},\"down\":{\"dx\":-16,\"dy\":8,\"world\":\"(-16,+8)\"},\"left\":{\"dx\":-16,\"dy\":-8,\"world\":\"(-16,-8)\"}}");
    m.string("coord_note", "world [x,y]; screen = world - viewport; one walk key = dirs[key]; dist=|dx|+2*|dy|. touch fires when dist < touch_radius. walk_steps for non-exit targets use the safe graph (no cell inside any scene-exit touch radius). Prefer search_spots with in_exit_touch=false.");
    m.member("exits", exits.as_str());
    m.member("mechanisms", mechanisms.as_str());
    m.member("obstacles", obstacles.as_str());
    m.into_object()
}

/// Event object `i` is listed: it is there, has a script to trigger and a way
/// to trigger it.
pub open spec fn is_listed(e: &Engine, i: int) -> bool {
    let o = e.globals.game.event_objects@[i];
    zones::is_active(o) && o.trigger_mode != 0
}

/// Event object `a` is listed before `b`: it is nearer, or as near and of a
/// lesser number.
pub open spec fn listed_before(e: &Engine, player: Pos, a: int, b: int) -> bool {
    let da = geometry::distance(player, zones::place_of(e.globals.game.event_objects@[a]));
    let db = geometry::distance(player, zones::place_of(e.globals.game.event_objects@[b]));
    da < db || da == db && (a + 1) as u16 <= (b + 1) as u16
}

/// Put an event object into a list in order.
pub open spec fn put_event(e: &Engine, player: Pos, list: Seq<int>, i: int) -> Seq<int>
    decreases list.len(),
{
    if list.len() == 0 || listed_before(e, player, list.last(), i) {
        list.push(i)
    } else {
        put_event(e, player, list.drop_last(), i).push(list.last())
    }
}

/// The event objects `from..to` that are listed, in order.
pub open spec fn listed_events(e: &Engine, player: Pos, from: int, to: int) -> Seq<int>
    decreases to - from,
{
    if to <= from {
        Seq::empty()
    } else {
        let before = listed_events(e, player, from, to - 1);
        if is_listed(e, to - 1) {
            put_event(e, player, before, to - 1)
        } else {
            before
        }
    }
}

/// What event object `i` does: use of a held item counts first, and a change
/// of scene before talk.
pub open spec fn event_progress(e: &Engine, i: int) -> Seq<char> {
    let o = e.globals.game.event_objects@[i];
    let rank = script::script_rank(e.globals.game.script_entries@, o.trigger_script, 0);
    if script::story_item(e, (i + 1) as u16, 256) is Some {
        "item"@
    } else if zones::leads_to(e, o) is Some && rank.rank > 3 {
        "scene"@
    } else {
        rank.label
    }
}

/// Event object `i` only talks.
pub open spec fn event_looping(e: &Engine, i: int) -> bool {
    let o = e.globals.game.event_objects@[i];
    &&& script::story_item(e, (i + 1) as u16, 256) is None
    &&& zones::leads_to(e, o) is None
    &&& script::script_rank(e.globals.game.script_entries@, o.trigger_script, 0).rank >= 5
}

/// Listed event object `i` as text.
pub open spec fn event_text(
    e: &Engine,
    player: Pos,
    cells: Seq<(Pos, u16)>,
    safe: Seq<(Pos, u16)>,
    exits: Seq<SceneExit>,
    i: int,
) -> Seq<char> {
    let g = e.globals;
    let o = g.game.event_objects@[i];
    let id = (i + 1) as u16;
    let pos = zones::place_of(o);
    let dest = zones::leads_to(e, o);
    let item_use = script::story_item(e, id, 256);
    let progress = event_progress(e, i);
    let role = role_of(o.trigger_mode, o.sprite_num, o.trigger_script, dest, progress);
    let label = speaker_label(e, role, o);
    let spots = search::search_spots(e, pos, o.trigger_mode);
    let m = Seq::<Seq<char>>::empty()
        .push(json::num("id"@, id as int))
        .push(json::string("kind"@, if o.trigger_mode >= 4 { "touch"@ } else if o.trigger_mode == 0 { "scenery"@ } else { "search"@ }))
        .push(json::string("role"@, role.text()));
    let m = match label {
        Some(name) => {
            let m = m
                .push(json::string("label"@, name));
            m
        },
        None => m,
    };
    let m = m
        .push(json::pair("pos"@, pos.0 as int, pos.1 as int))
        .push(json::pair("screen"@, pos.0 - g.viewport.0, pos.1 - g.viewport.1))
        .push(json::pair("delta"@, pos.0 - player.0, pos.1 - player.1))
        .push(json::num("dist"@, geometry::distance(player, pos)))
        .push(json::string("how"@, if o.trigger_mode >= 4 { "walk_into"@ } else { "face_and_confirm"@ }))
        .push(json::string("progress"@, progress))
        .push(json::num("event_state"@, o.state as int));
    let m = if search::is_searched(o.trigger_mode) {
        let m = search_members(m, player, search::search_facts(player, pos, o.trigger_mode, g.party_direction), spots, safe, cells, exits);
        m
    } else {
        m
    };
    let m = if o.trigger_mode >= 4 {
        let m = m
            .push(json::num("trigger_mode"@, o.trigger_mode as int))
            .push(json::num("touch_radius"@, zones::touch_radius(o.trigger_mode)))
            .push(json::flag("in_touch_range"@, zones::touches(player, pos, zones::touch_radius(o.trigger_mode))));
        m
    } else {
        m
    };
    let m = if dest is Some {
        let exit_steps = reach::steps_near(cells, pos, search::goal_distance(o.trigger_mode));
        let m = m
            .push(json::flag("walk_reachable"@, exit_steps is Some));
        let m = match exit_steps {
            Some(n) => {
                let m = m
                    .push(json::num("walk_steps"@, n as int));
                m
            },
            None => m,
        };
        m
    } else {
        walk_members(m, e, cells, safe, exits, spots, o)
    };
    let m = if o.state >= 2 {
        let m = m
            .push(json::flag("solid"@, true));
        m
    } else {
        m
    };
    let m = if event_looping(e, i) {
        let m = m
            .push(json::flag("loop"@, true));
        m
    } else {
        m
    };
    let m = match item_use {
        Some(item) => {
            let m = m
                .push(json::num("item_use"@, item as int));
            m
        },
        None => m,
    };
    let m = match dest {
        Some(scene) => {
            let m = m
                .push(json::num("dest_scene"@, scene as int));
            m
        },
        None => m,
    };
    json::object(m)
}

/// The first `n` of listed event objects.
pub open spec fn event_texts(
    e: &Engine,
    player: Pos,
    cells: Seq<(Pos, u16)>,
    safe: Seq<(Pos, u16)>,
    exits: Seq<SceneExit>,
    list: Seq<int>,
    n: int,
) -> Seq<Seq<char>>
    decreases n,
{
    if n <= 0 {
        Seq::empty()
    } else {
        event_texts(e, player, cells, safe, exits, list, n - 1).push(
            event_text(e, player, cells, safe, exits, list[n - 1]),
        )
    }
}

/// The event objects nearby as text.
pub open spec fn events_text(
    e: &Engine,
    player: Pos,
    cells: Seq<(Pos, u16)>,
    safe: Seq<(Pos, u16)>,
    exits: Seq<SceneExit>,
) -> Seq<char> {
    json::array(
        match zones::events_of(e, e.globals.num_scene) {
            Some((start, end)) => {
                let list = listed_events(e, player, start, end);
                event_texts(
                    e,
                    player,
                    cells,
                    safe,
                    exits,
                    list,
                    if list.len() < MAX_EVENTS {
                        list.len() as int
                    } else {
                        MAX_EVENTS as int
                    },
                )
            },
            None => Seq::empty(),
        },
    )
}

fn event_json(
    engine: &Engine,
    player: Pos,
    reach: &Reachability,
    reach_safe: &Reachability,
    scene_exits: &[SceneExit],
    i: usize,
) -> (s: String)
    requires
        engine.res.wf(),
        geometry::central(player),
        reach::all_inland(reach@),
        reach::all_inland(reach_safe@),
        zones::exits_placed(scene_exits@),
        i < engine.globals.game.event_objects@.len(),
        is_listed(engine, i as int),
    ensures
        s@ == event_text(engine, player, reach@, reach_safe@, scene_exits@, i as int),
{
    let g: &Globals = &engine.globals;
    let o: EventObject = g.game.event_objects[i];
    assert(i < g.game.event_objects.len());
    let id: u16 = (i + 1) as u16;
    let pos: Pos = (o.x as i64, o.y as i64);
    let dist: i64 = geometry::metric(player, pos);
    let radius: i64 = zones::touch_radius_of(o.trigger_mode);
    let in_touch: bool = zones::in_touch_at(player, pos, radius);
    let is_search: bool = 0 < o.trigger_mode && o.trigger_mode < 4;
    let dest: Option<u16> = script::script_destination_scene(engine, o.trigger_script);
    let rank: ScriptRank = script::analyze_script_progress(engine, o.trigger_script);
    let item_use: Option<u16> = script::story_item_for_event(engine, id);
    let progress: &str = if item_use.is_some() {
        "item"
    } else if dest.is_some() && rank.rank > 3 {
        "scene"
    } else {
        rank.label
    };
    let looping: bool = item_use.is_none() && dest.is_none() && rank.rank >= 5;
    let role: EventRole = event_role(o.trigger_mode, o.sprite_num, o.trigger_script, dest, progress);
    let label: Option<String> = if role == EventRole::Npc {
        script::event_dialog_label(engine, o.trigger_script, o.auto_script)
    } else {
        None
    };
    let info: SearchInfo = search::search_info(player, pos, o.trigger_mode, g.party_direction);
    let spots: Vec<(Pos, u16)> = search::compute_search_spots(engine, pos, o.trigger_mode);
    let mut m: Members = Members::new();
    m.num("id", id as u64);
    m.string("kind", if o.trigger_mode >= 4 { "touch" } else if o.trigger_mode == 0 { "scenery" } else { "search" });
    m.string("role", role.name());
    match &label {
        Some(name) => {
            m.string("label", name.as_str());
        },
        None => {},
    }
    m.pair("pos", pos.0, pos.1);
    m.pair("screen", pos.0 - g.viewport.0 as i64, pos.1 - g.viewport.1 as i64);
    m.pair("delta", pos.0 - player.0, pos.1 - player.1);
    m.signed("dist", dist);
    m.string("how", if o.trigger_mode >= 4 { "walk_into" } else { "face_and_confirm" });
    m.string("progress", progress);
    m.signed("event_state", o.state as i64);
    if is_search {
        append_search_fields(&mut m, player, &info, spots.as_slice(), reach_safe, reach, scene_exits);
    }
    if o.trigger_mode >= 4 {
        m.num("trigger_mode", o.trigger_mode as u64);
        m.signed("touch_radius", radius);
        m.flag("in_touch_range", in_touch);
    }
    if dest.is_some() {
        let exit_steps: Option<u16> = reach.steps_to(pos, search::interact_goal_dist(o.trigger_mode));
        m.flag("walk_reachable", exit_steps.is_some());
        match exit_steps {
            Some(n) => {
                m.num("walk_steps", n as u64);
            },
            None => {},
        }
    } else {
        append_event_walk(&mut m, engine, player, reach, reach_safe, scene_exits, o, spots.as_slice());
    }
    if o.state >= 2 {
        m.flag("solid", true);
    }
    if looping {
        m.flag("loop", true);
    }
    match item_use {
        Some(item) => {
            m.num("item_use", item as u64);
        },
        None => {},
    }
    match dest {
        Some(scene) => {
            m.num("dest_scene", scene as u64);
        },
        None => {},
    }
    m.into_object()
}

proof fn lemma_put_event(e: &Engine, player: Pos, list: Seq<int>, i: int, k: int)
    requires
        0 <= k <= list.len(),
        k == 0 || listed_before(e, player, list[k - 1], i),
        forall|j: int| k <= j < list.len() ==> !listed_before(e, player, #[trigger] list[j], i),
    ensures
        put_event(e, player, list, i) == list.insert(k, i),
    decreases list.len(),
{
    if list.len() == 0 || listed_before(e, player, list.last(), i) {
        if k < list.len() {
            assert(!listed_before(e, player, list[list.len() - 1], i));
        }
        assert(list.insert(k, i) =~= list.push(i));
    } else {
        if k == list.len() {
            assert(list[k - 1] == list.last());
        }
        let front = list.drop_last();
        assert forall|j: int| k <= j < front.len() implies !listed_before(e, player, #[trigger] front[j], i) by {
            assert(front[j] == list[j]);
        }
        lemma_put_event(e, player, front, i, k);
        assert(front.insert(k, i).push(list.last()) =~= list.insert(k, i));
    }
}

/// The numbers in a list.
pub open spec fn indices(list: Seq<usize>) -> Seq<int> {
    Seq::new(list.len(), |i: int| list[i] as int)
}

fn comes_before(engine: &Engine, player: Pos, a: usize, b: usize) -> (r: bool)
    requires
        geometry::central(player),
        a < engine.globals.game.event_objects@.len(),
        b < engine.globals.game.event_objects@.len(),
    ensures
        r == listed_before(engine, player, a as int, b as int),
{
    let x: EventObject = engine.globals.game.event_objects[a];
    let y: EventObject = engine.globals.game.event_objects[b];
    let da: i64 = geometry::metric(player, (x.x as i64, x.y as i64));
    let db: i64 = geometry::metric(player, (y.x as i64, y.y as i64));
    assert(a < engine.globals.game.event_objects.len() && b < engine.globals.game.event_objects.len());
    da < db || da == db && (a + 1) as u16 <= (b + 1) as u16
}

/// The event objects that are listed, in order.
fn collect_events(engine: &Engine, player: Pos, start: usize, end: usize) -> (r: Vec<usize>)
    requires
        geometry::central(player),
        end <= engine.globals.game.event_objects@.len(),
    ensures
        indices(r@) == listed_events(engine, player, start as int, end as int),
        forall|i: int|
            0 <= i < r@.len() ==> (#[trigger] r@[i]) < engine.globals.game.event_objects@.len() && is_listed(
                engine,
                r@[i] as int,
            ),
{
    let mut r: Vec<usize> = Vec::new();
    assert(indices(r@) =~= Seq::<int>::empty());
    let mut i: usize = start;
    while i < end
        invariant
            geometry::central(player),
            end <= engine.globals.game.event_objects@.len(),
            start <= i,
            i <= end || i == start,
            indices(r@) == listed_events(engine, player, start as int, i as int),
            forall|k: int|
                0 <= k < r@.len() ==> (#[trigger] r@[k]) < engine.globals.game.event_objects@.len() && is_listed(
                    engine,
                    r@[k] as int,
                ),
        decreases end - i,
    {
        let o: EventObject = engine.globals.game.event_objects[i];
        if o.state > 0 && o.vanish_time == 0 && o.trigger_script != 0 && o.trigger_mode != 0 {
            let mut k: usize = r.len();
            while k > 0 && !comes_before(engine, player, r[k - 1], i)
                invariant
                    geometry::central(player),
                    i < engine.globals.game.event_objects@.len(),
                    k <= r@.len(),
                    forall|j: int| 0 <= j < r@.len() ==> (#[trigger] r@[j]) < engine.globals.game.event_objects@.len(),
                    forall|j: int| k <= j < r@.len() ==> !listed_before(engine, player, #[trigger] r@[j] as int, i as int),
                decreases k,
            {
                k = k - 1;
            }
            let ghost before = indices(r@);
            proof {
                assert forall|j: int| k <= j < before.len() implies !listed_before(
                    engine,
                    player,
                    #[trigger] before[j],
                    i as int,
                ) by {
                    assert(before[j] == r@[j] as int);
                }
                if k > 0 {
                    assert(before[k - 1] == r@[k - 1] as int);
                }
                lemma_put_event(engine, player, before, i as int, k as int);
            }
            r.insert(k, i);
            assert(indices(r@) =~= before.insert(k as int, i as int));
        }
        i = i + 1;
    }
    r
}

/// The event objects nearby as text.
pub fn build_events_json(
    engine: &Engine,
    player: Pos,
    reach: &Reachability,
    reach_safe: &Reachability,
    scene_exits: &[SceneExit],
) -> (s: String)
    requires
        engine.res.wf(),
        geometry::central(player),
        reach::all_inland(reach@),
        reach::all_inland(reach_safe@),
        zones::exits_placed(scene_exits@),
    ensures
        s@ == events_text(engine, player, reach@, reach_safe@, scene_exits@),
{
    let mut list: Members = Members::new();
    match zones::scene_event_range(engine) {
        Some((start, end)) => {
            let rows: Vec<usize> = collect_events(engine, player, start, end);
            let n: usize = if rows.len() < MAX_EVENTS {
                rows.len()
            } else {
                MAX_EVENTS
            };
            for k in 0..n
                invariant
                    engine.res.wf(),
                    geometry::central(player),
                    reach::all_inland(reach@),
                    reach::all_inland(reach_safe@),
                    zones::exits_placed(scene_exits@),
                    n <= rows@.len(),
                    forall|i: int|
                        0 <= i < rows@.len() ==> (#[trigger] rows@[i]) < engine.globals.game.event_objects@.len()
                            && is_listed(engine, rows@[i] as int),
                    list.wf(),
                    list@ == event_texts(
                        engine,
                        player,
                        reach@,
                        reach_safe@,
                        scene_exits@,
                        indices(rows@),
                        k as int,
                    ),
            {
                let i: usize = rows[k];
                assert(indices(rows@)[k as int] == rows@[k as int] as int);
                let t: String = event_json(engine, player, reach, reach_safe, scene_exits, i);
                list.put(t.as_str());
            }
        },
        None => {},
    }
    list.into_array()
}

/// The nearest spot: one of the spots, with the steps to it, and no spot that
/// can be reached is fewer steps away; of spots that are as near the first
/// counts. There is none exactly if no spot can be reached.
pub proof fn law_nearest_spot_is_nearest(cells: Seq<(Pos, u16)>, spots: Seq<(Pos, u16)>, n: int)
    requires
        0 <= n <= spots.len(),
    ensures
        nearest_spot(cells, spots, n) is None <==> forall|i: int, j: int|
            0 <= i < n && 0 <= j < cells.len() ==> (#[trigger] cells[j]).0 != (#[trigger] spots[i]).0,
        nearest_spot(cells, spots, n) matches Some((p, s)) ==> {
            &&& exists|j: int| 0 <= j < cells.len() && #[trigger] cells[j] == (p, s)
            &&& forall|i: int, j: int|
                0 <= i < n && 0 <= j < cells.len() && (#[trigger] cells[j]).0 == (#[trigger] spots[i]).0 ==> s <= cells[j].1
            &&& exists|i: int|
                {
                    &&& 0 <= i < n
                    &&& (#[trigger] spots[i]).0 == p
                    &&& forall|k: int, j: int|
                        0 <= k < i && 0 <= j < cells.len() && (#[trigger] cells[j]).0 == (#[trigger] spots[k]).0 ==> s < cells[j].1
                }
        },
    decreases n,
{
    if n > 0 {
        law_nearest_spot_is_nearest(cells, spots, n - 1);
        let here = spots[n - 1].0;
        lemma_steps_onto(cells, here);
        let best = nearest_spot(cells, spots, n - 1);
        let steps = reach::steps_near(cells, here, 0);
        let now = nearest_spot(cells, spots, n);
        if steps is Some && (best is None || steps->0 < (best->0).1) {
            let s = steps->0;
            assert(now == Some((here, s)));
            let j = choose|j: int| 0 <= j < cells.len() && #[trigger] cells[j] == (here, s);
            assert(cells[j].0 == spots[n - 1].0);
            assert forall|k: int, j: int|
                0 <= k < n - 1 && 0 <= j < cells.len() && (#[trigger] cells[j]).0 == (#[trigger] spots[k]).0 implies s < cells[j].1 by {}
            assert(spots[n - 1].0 == here);
        } else if best is Some {
            assert(now == best);
            let (p, s) = best->0;
            let i = choose|i: int|
                {
                    &&& 0 <= i < n - 1
                    &&& (#[trigger] spots[i]).0 == p
                    &&& forall|k: int, j: int|
                        0 <= k < i && 0 <= j < cells.len() && (#[trigger] cells[j]).0 == (#[trigger] spots[k]).0 ==> s < cells[j].1
                };
            assert(spots[i].0 == p);
        } else {
            assert(now is None);
        }
    }
}

/// The steps onto a position are those of the cell there that is the fewest
/// steps away.
proof fn lemma_steps_onto(cells: Seq<(Pos, u16)>, p: Pos)
    ensures
        reach::steps_near(cells, p, 0) is None <==> forall|j: int| 0 <= j < cells.len() ==> (#[trigger] cells[j]).0 != p,
        reach::steps_near(cells, p, 0) matches Some(s) ==> {
            &&& exists|j: int| 0 <= j < cells.len() && #[trigger] cells[j] == (p, s)
            &&& forall|j: int| 0 <= j < cells.len() && (#[trigger] cells[j]).0 == p ==> s <= cells[j].1
        },
{
    reach::law_steps_near(cells, p, 0);
    if reach::steps_near(cells, p, 0) is None {
        assert forall|j: int| 0 <= j < cells.len() implies (#[trigger] cells[j]).0 != p by {
            assert(vstd::math::abs(cells[j].0.0 - p.0) + 2 * vstd::math::abs(cells[j].0.1 - p.1) > 0);
        }
    } else {
        let s = reach::steps_near(cells, p, 0)->0;
        let i = choose|i: int|
            {
                &&& 0 <= i < cells.len()
                &&& #[trigger] cells[i] == ((reach::end_near(cells, p, 0)->0).0, s)
                &&& vstd::math::abs(cells[i].0.0 - p.0) + 2 * vstd::math::abs(cells[i].0.1 - p.1) <= 0
                &&& forall|j: int|
                    0 <= j < i && vstd::math::abs((#[trigger] cells[j]).0.0 - p.0) + 2 * vstd::math::abs(cells[j].0.1 - p.1)
                        <= 0 ==> s < cells[j].1
                &&& forall|j: int|
                    0 <= j < cells.len() && vstd::math::abs((#[trigger] cells[j]).0.0 - p.0) + 2 * vstd::math::abs(
                        cells[j].0.1 - p.1,
                    ) <= 0 ==> s <= cells[j].1
            };
        assert(cells[i] == (p, s));
        assert forall|j: int| 0 <= j < cells.len() && (#[trigger] cells[j]).0 == p implies s <= cells[j].1 by {
            assert(vstd::math::abs(cells[j].0.0 - p.0) + 2 * vstd::math::abs(cells[j].0.1 - p.1) <= 0);
        }
    }
}

/// An event object that is searched is acted on from its nearest spot, if it
/// has spots; one that is touched from within its range; others from nearby.
/// Nobody gets there in fewer steps than it takes.
pub proof fn law_target_steps_are_fewest(cells: Seq<(Pos, u16)>, spots: Seq<(Pos, u16)>, pos: Pos, mode: u16, j: int, i: int)
    requires
        0 <= j < cells.len(),
        0 <= i < spots.len() || mode == 0 || mode >= 4 || spots.len() == 0,
        ({
            let far = vstd::math::abs(cells[j].0.0 - pos.0) + 2 * vstd::math::abs(cells[j].0.1 - pos.1);
            ||| mode == 0 && far <= 16
            ||| 1 <= mode < 4 && spots.len() == 0 && far <= 48
            ||| 1 <= mode < 4 && spots.len() > 0 && cells[j].0 == spots[i].0
            ||| mode >= 4 && far < (mode - 4) * 32 + 16
        }),
    ensures
        target_steps(cells, spots, pos, mode) is Some,
        target_steps(cells, spots, pos, mode)->0 <= cells[j].1,
{
    law_nearest_spot_is_nearest(cells, spots, spots.len() as int);
    reach::law_steps_near(cells, pos, search::goal_distance(mode));
}

/// Where there are steps to an event object there is a cell with as many steps
/// from which it can be acted on.
pub proof fn law_target_steps_lead_there(cells: Seq<(Pos, u16)>, spots: Seq<(Pos, u16)>, pos: Pos, mode: u16)
    requires
        target_steps(cells, spots, pos, mode) is Some,
    ensures
        exists|j: int|
            {
                let far = vstd::math::abs(cells[j].0.0 - pos.0) + 2 * vstd::math::abs(cells[j].0.1 - pos.1);
                &&& 0 <= j < cells.len()
                &&& (#[trigger] cells[j]).1 == target_steps(cells, spots, pos, mode)->0
                &&& mode == 0 ==> far <= 16
                &&& 1 <= mode < 4 && spots.len() == 0 ==> far <= 48
                &&& 1 <= mode < 4 && spots.len() > 0 ==> exists|i: int| 0 <= i < spots.len() && (#[trigger] spots[i]).0 == cells[j].0
                &&& mode >= 4 ==> far < (mode - 4) * 32 + 16
            },
{
    law_nearest_spot_is_nearest(cells, spots, spots.len() as int);
    reach::law_steps_near(cells, pos, search::goal_distance(mode));
    let t = target_steps(cells, spots, pos, mode)->0;
    if 1 <= mode < 4 && spots.len() > 0 {
        let (p, s) = nearest_spot(cells, spots, spots.len() as int)->0;
        let j = choose|j: int| 0 <= j < cells.len() && #[trigger] cells[j] == (p, s);
        assert(cells[j].1 == t);
    } else {
        let goal = search::goal_distance(mode);
        let j = choose|j: int|
            {
                &&& 0 <= j < cells.len()
                &&& #[trigger] cells[j] == ((reach::end_near(cells, pos, goal)->0).0, t)
                &&& vstd::math::abs(cells[j].0.0 - pos.0) + 2 * vstd::math::abs(cells[j].0.1 - pos.1) <= goal
                &&& forall|k: int|
                    0 <= k < j && vstd::math::abs((#[trigger] cells[k]).0.0 - pos.0) + 2 * vstd::math::abs(cells[k].0.1 - pos.1)
                        <= goal ==> t < cells[k].1
                &&& forall|k: int|
                    0 <= k < cells.len() && vstd::math::abs((#[trigger] cells[k]).0.0 - pos.0) + 2 * vstd::math::abs(
                        cells[k].0.1 - pos.1,
                    ) <= goal ==> t <= cells[k].1
            };
        assert(cells[j].1 == t);
    }
}

/// The way to an event object ends where it can be acted on, and is as long as
/// the steps to it say. There is one exactly if there are steps.
pub proof fn law_target_way_has_its_steps(cells: Seq<(Pos, u16)>, spots: Seq<(Pos, u16)>, pos: Pos, mode: u16)
    ensures
        target_way(cells, spots, pos, mode) is Some <==> target_steps(cells, spots, pos, mode) is Some,
        target_way(cells, spots, pos, mode) matches Some(way) ==> exists|j: int|
            {
                &&& 0 <= j < cells.len()
                &&& (#[trigger] cells[j]).0 == way.last()
                &&& cells[j].1 == target_steps(cells, spots, pos, mode)->0
                &&& way == reach::way_to(cells, way.last(), cells[j].1 as int)
            },
{
    if search::is_searched(mode) && spots.len() > 0 {
        law_nearest_spot_is_nearest(cells, spots, spots.len() as int);
        if nearest_spot(cells, spots, spots.len() as int) is Some {
            let (p, s) = nearest_spot(cells, spots, spots.len() as int)->0;
            lemma_way_near(cells, p, 0);
            lemma_steps_onto(cells, p);
            let i = choose|i: int| 0 <= i < spots.len() && (#[trigger] spots[i]).0 == p;
            let j = choose|j: int| 0 <= j < cells.len() && #[trigger] cells[j] == (p, s);
            assert(cells[j].0 == spots[i].0);
            let t = reach::steps_near(cells, p, 0)->0;
            let k = choose|k: int| 0 <= k < cells.len() && #[trigger] cells[k] == (p, t);
            assert(cells[k].0 == spots[i].0);
            assert(s == t);
        }
    } else {
        lemma_way_near(cells, pos, search::goal_distance(mode));
    }
}

proof fn lemma_way_near(cells: Seq<(Pos, u16)>, goal: Pos, dist: int)
    ensures
        way_near(cells, goal, dist) is Some <==> reach::steps_near(cells, goal, dist) is Some,
        way_near(cells, goal, dist) matches Some(way) ==> exists|j: int|
            {
                &&& 0 <= j < cells.len()
                &&& (#[trigger] cells[j]).0 == way.last()
                &&& cells[j].1 == reach::steps_near(cells, goal, dist)->0
                &&& way == reach::way_to(cells, way.last(), cells[j].1 as int)
            },
{
    reach::law_nearest_end(cells, goal, dist, cells.len() as int);
    if way_near(cells, goal, dist) is Some {
        let end = reach::end_near(cells, goal, dist)->0;
        let j = choose|j: int| 0 <= j < cells.len() && #[trigger] cells[j] == end;
        assert(reach::way_to(cells, end.0, end.1 as int).last() == end.0);
        assert(cells[j] == end);
    }
}

/// The best spot by a measure is a spot with its facing and its steps, no other
/// is fewer steps away, and there is none exactly if no spot has steps. By the
/// first two measures no spot within an exit counts; by the first, steps that
/// cross an exit do not count either.
pub proof fn law_best_spot_is_best(
    spots: Seq<(Pos, u16)>,
    safe: Seq<(Pos, u16)>,
    cells: Seq<(Pos, u16)>,
    graph: Seq<(Pos, u16)>,
    exits: Seq<SceneExit>,
    n: int,
    which: int,
)
    requires
        0 <= n <= spots.len(),
        which == 0 && graph == safe || (which == 1 || which == 2) && graph == cells,
    ensures
        best_by(spots, safe, cells, exits, n, which) is None <==> forall|i: int, j: int|
            0 <= i < n && 0 <= j < graph.len() && (which == 2 || zones::exit_at(spots[i].0, exits) is None) ==> (
            #[trigger] graph[j]).0 != (#[trigger] spots[i]).0,
        best_by(spots, safe, cells, exits, n, which) matches Some((p, face, s)) ==> {
            &&& which == 2 || zones::exit_at(p, exits) is None
            &&& exists|i: int| 0 <= i < n && #[trigger] spots[i] == (p, face)
            &&& exists|j: int| 0 <= j < graph.len() && #[trigger] graph[j] == (p, s)
            &&& forall|i: int, j: int|
                0 <= i < n && 0 <= j < graph.len() && (which == 2 || zones::exit_at(spots[i].0, exits) is None) && (
                #[trigger] graph[j]).0 == (#[trigger] spots[i]).0 ==> s <= graph[j].1
        },
    decreases n,
{
    if n > 0 {
        law_best_spot_is_best(spots, safe, cells, graph, exits, n - 1, which);
        let here = spots[n - 1].0;
        lemma_steps_onto(graph, here);
        let best = best_by(spots, safe, cells, exits, n - 1, which);
        let steps = spot_measure(spots, safe, cells, exits, n - 1, which);
        let now = best_by(spots, safe, cells, exits, n, which);
        if steps is Some && (best is None || steps->0 < (best->0).2) {
            let s = steps->0;
            assert(spots[n - 1] == (here, spots[n - 1].1));
            let j = choose|j: int| 0 <= j < graph.len() && #[trigger] graph[j] == (here, s);
            assert(graph[j].0 == spots[n - 1].0);
        } else if best is Some {
            let (p, face, s) = best->0;
            let i = choose|i: int| 0 <= i < n - 1 && #[trigger] spots[i] == (p, face);
            assert(spots[i] == (p, face));
            assert(now == best);
        } else {
            assert(now is None);
        }
    }
}

/// The event objects are listed by how far they are from the party, nearest
/// first, and by their numbers among those that are as far. All that are there
/// and have a script and a way to trigger it are listed, once.
pub proof fn law_events_are_listed_in_order(e: &Engine, player: Pos, from: int, to: int)
    requires
        0 <= from,
        to < 0xffff,
    ensures
        ({
            let list = listed_events(e, player, from, to);
            let far = |i: int|
                vstd::math::abs(player.0 - e.globals.game.event_objects@[i].x) + 2 * vstd::math::abs(
                    player.1 - e.globals.game.event_objects@[i].y,
                );
            &&& forall|a: int, b: int|
                0 <= a < b < list.len() ==> far(#[trigger] list[a]) < far(#[trigger] list[b]) || far(list[a]) == far(list[b])
                    && list[a] < list[b]
            &&& forall|a: int| 0 <= a < list.len() ==> from <= #[trigger] list[a] < to && is_listed(e, list[a])
            &&& forall|i: int| from <= i < to && #[trigger] is_listed(e, i) ==> list.contains(i)
        }),
    decreases to - from,
{
    if to > from {
        law_events_are_listed_in_order(e, player, from, to - 1);
        let before = listed_events(e, player, from, to - 1);
        if is_listed(e, to - 1) {
            lemma_put_in_order(e, player, before, to - 1);
            let list = listed_events(e, player, from, to);
            assert forall|i: int| from <= i < to && #[trigger] is_listed(e, i) implies list.contains(i) by {
                if i < to - 1 {
                    assert(before.contains(i));
                }
            }
            assert forall|a: int| 0 <= a < list.len() implies from <= #[trigger] list[a] < to && is_listed(e, list[a]) by {
                assert(list.contains(list[a]));
                if list[a] != to - 1 {
                    assert(before.contains(list[a]));
                }
            }
        }
    }
}

/// How far an event object is from the party.
pub open spec fn event_distance(e: &Engine, player: Pos, i: int) -> nat {
    vstd::math::abs(player.0 - e.globals.game.event_objects@[i].x) + 2 * vstd::math::abs(
        player.1 - e.globals.game.event_objects@[i].y,
    )
}

/// A list is in order, and `i` belongs behind all that are as far.
proof fn lemma_put_in_order(e: &Engine, player: Pos, list: Seq<int>, i: int)
    requires
        0 <= i < 0xffff,
        forall|a: int| 0 <= a < list.len() ==> 0 <= #[trigger] list[a] < i,
        forall|a: int, b: int|
            0 <= a < b < list.len() ==> event_distance(e, player, #[trigger] list[a]) < event_distance(e, player, #[trigger] list[b])
                || event_distance(e, player, list[a]) == event_distance(e, player, list[b]) && list[a] < list[b],
    ensures
        ({
            let r = put_event(e, player, list, i);
            &&& r.len() == list.len() + 1
            &&& forall|a: int, b: int|
                0 <= a < b < r.len() ==> event_distance(e, player, #[trigger] r[a]) < event_distance(e, player, #[trigger] r[b])
                    || event_distance(e, player, r[a]) == event_distance(e, player, r[b]) && r[a] < r[b]
            &&& forall|k: int| #[trigger] r.contains(k) <==> k == i || list.contains(k)
        }),
    decreases list.len(),
{
    let r = put_event(e, player, list, i);
    if list.len() == 0 || listed_before(e, player, list.last(), i) {
        assert(r == list.push(i));
        assert forall|a: int, b: int| 0 <= a < b < r.len() implies event_distance(e, player, #[trigger] r[a]) < event_distance(
            e,
            player,
            #[trigger] r[b],
        ) || event_distance(e, player, r[a]) == event_distance(e, player, r[b]) && r[a] < r[b] by {
            assert(r[a] == list[a]);
            if b == list.len() && a < list.len() - 1 {
                assert(list[a] == list[a] && list[list.len() - 1] == list.last());
            }
        }
        assert forall|k: int| #[trigger] r.contains(k) <==> k == i || list.contains(k) by {
            if r.contains(k) {
                let a = choose|a: int| 0 <= a < r.len() && r[a] == k;
                if a < list.len() {
                    assert(list[a] == k);
                }
            }
            if list.contains(k) {
                let a = choose|a: int| 0 <= a < list.len() && list[a] == k;
                assert(r[a] == k);
            }
            if k == i {
                assert(r[list.len() as int] == i);
            }
        }
    } else {
        let front = list.drop_last();
        let last = list.last();
        assert forall|a: int| 0 <= a < front.len() implies 0 <= #[trigger] front[a] < i by {
            assert(front[a] == list[a]);
        }
        assert forall|a: int, b: int| 0 <= a < b < front.len() implies event_distance(e, player, #[trigger] front[a])
            < event_distance(e, player, #[trigger] front[b]) || event_distance(e, player, front[a]) == event_distance(
            e,
            player,
            front[b],
        ) && front[a] < front[b] by {
            assert(front[a] == list[a] && front[b] == list[b]);
        }
        lemma_put_in_order(e, player, front, i);
        let put = put_event(e, player, front, i);
        assert(r == put.push(last));
        assert(last == list[list.len() - 1]);
        assert(event_distance(e, player, i) < event_distance(e, player, last));
        assert forall|a: int, b: int| 0 <= a < b < r.len() implies event_distance(e, player, #[trigger] r[a]) < event_distance(
            e,
            player,
            #[trigger] r[b],
        ) || event_distance(e, player, r[a]) == event_distance(e, player, r[b]) && r[a] < r[b] by {
            assert(r[a] == put[a]);
            if b == put.len() {
                assert(put.contains(put[a]));
                if put[a] != i {
                    let c = choose|c: int| 0 <= c < front.len() && front[c] == put[a];
                    assert(list[c] == put[a]);
                }
            } else {
                assert(r[b] == put[b]);
            }
        }
        assert forall|k: int| #[trigger] r.contains(k) <==> k == i || list.contains(k) by {
            if r.contains(k) {
                let a = choose|a: int| 0 <= a < r.len() && r[a] == k;
                if a < put.len() {
                    assert(put[a] == k);
                    assert(put.contains(k));
                    if k != i {
                        let c = choose|c: int| 0 <= c < front.len() && front[c] == k;
                        assert(list[c] == k);
                    }
                } else {
                    assert(list[list.len() - 1] == k);
                }
            }
            if list.contains(k) {
                let a = choose|a: int| 0 <= a < list.len() && list[a] == k;
                if a < front.len() {
                    assert(front[a] == k);
                    assert(front.contains(k));
                    assert(put.contains(k));
                    let c = choose|c: int| 0 <= c < put.len() && put[c] == k;
                    assert(r[c] == k);
                } else {
                    assert(r[put.len() as int] == k);
                }
            }
            if k == i {
                assert(put.contains(i));
                let c = choose|c: int| 0 <= c < put.len() && put[c] == i;
                assert(r[c] == i);
            }
        }
    }
}

/// Event objects are listed and can be acted on exactly if they are there (in
/// whatever state above 0), have a script, and a way to trigger it; what leads
/// to another scene is no mechanism of this one.
pub proof fn law_what_is_listed(e: &Engine, i: int)
    ensures
        ({
            let o = e.globals.game.event_objects@[i];
            &&& is_listed(e, i) <==> o.state > 0 && o.vanish_time == 0 && o.trigger_script != 0 && o.trigger_mode != 0
            &&& is_mechanism(e, i) <==> is_listed(e, i) && zones::leads_to(e, o) is None
        }),
{
}

/// What event objects are good for: nothing without a script or a way to
/// trigger it, unless they lead to another scene or have to do with items.
/// Those that are touched and do not show are doors, those that are searched
/// and do not show are triggers, and those that show are characters.
pub proof fn law_roles(mode: u16, sprite_num: u16, script: u16, dest: Option<u16>, progress: Seq<char>)
    ensures
        ({
            let r = role_of(mode, sprite_num, script, dest, progress);
            &&& script == 0 ==> r == EventRole::Decor
            &&& script != 0 && dest is Some ==> r == EventRole::Exit
            &&& r == EventRole::LoadPoint <==> script != 0 && dest is None && progress == "item"@
            &&& script != 0 && dest is None && progress != "item"@ ==> {
                &&& r == EventRole::Decor <==> mode == 0
                &&& r == EventRole::Npc <==> mode != 0 && sprite_num != 0
                &&& r == EventRole::Door <==> mode >= 4 && sprite_num == 0
                &&& r == EventRole::Trigger <==> 1 <= mode < 4 && sprite_num == 0
            }
        }),
{
}

/// The event objects that are told to stand in the way are those that block,
/// in order: each is told on its own, with its number, its place and its state.
pub proof fn law_blockers_are_told(e: &Engine, from: int, i: int, to: int)
    requires
        from <= i < to,
    ensures
        blockers(e, from, to) == blockers(e, from, i) + blockers(e, i, to),
        ({
            let o = e.globals.game.event_objects@[i];
            &&& !(o.vanish_time == 0 && o.state >= 2) ==> blockers(e, i, i + 1).len() == 0
            &&& o.vanish_time == 0 && o.state >= 2 ==> blockers(e, i, i + 1) == seq![
                json::object(
                    seq![json::num("id"@, i + 1), json::pair("pos"@, o.x as int, o.y as int), json::num("state"@, o.state as int)],
                ),
            ]
        }),
    decreases to - i,
{
    if to > i + 1 {
        law_blockers_are_told(e, from, i, to - 1);
        assert(blockers(e, from, to) =~= blockers(e, from, i) + blockers(e, i, to));
    } else {
        reveal_with_fuel(blockers, 2);
        assert(blockers(e, from, to) =~= blockers(e, from, i) + blockers(e, i, to));
        let o = e.globals.game.event_objects@[i];
        let m = Seq::<Seq<char>>::empty()
            .push(json::num("id"@, i + 1))
            .push(json::pair("pos"@, o.x as int, o.y as int))
            .push(json::num("state"@, o.state as int));
        assert(m =~= seq![json::num("id"@, i + 1), json::pair("pos"@, o.x as int, o.y as int), json::num("state"@, o.state as int)]);
    }
}

/// How to walk to an event object is told by the steps that cross no exit; only
/// if there are none, those that do are told, as such.
pub proof fn law_walking_is_told(
    m: Seq<Seq<char>>,
    e: &Engine,
    cells: Seq<(Pos, u16)>,
    safe: Seq<(Pos, u16)>,
    exits: Seq<SceneExit>,
    spots: Seq<(Pos, u16)>,
    o: EventObject,
)
    ensures
        ({
            let told = walk_members(m, e, cells, safe, exits, spots, o);
            let at = m.len() as int;
            let p = (o.x as i64, o.y as i64);
            let s = target_steps(safe, spots, p, o.trigger_mode);
            let a = target_steps(cells, spots, p, o.trigger_mode);
            &&& told[at] == json::flag("walk_reachable"@, s is Some)
            &&& s is Some ==> told.len() == at + 2 && told[at + 1] == json::num("walk_steps"@, s->0 as int)
            &&& s is None && a is None ==> told.len() == at + 1
            &&& s is None && a is Some ==> told.len() >= at + 3 && told[at + 1] == json::flag("path_crosses_exit"@, true) && told[at
                + 2] == json::num("walk_steps_any"@, a->0 as int)
        }),
{
    let p = (o.x as i64, o.y as i64);
    law_target_way_has_its_steps(cells, spots, p, o.trigger_mode);
}

/// The best spot is one that can be reached without crossing an exit, and is
/// then told as safe; else one in no exit, with an unsafe way; else any.
pub proof fn law_best_spot_is_told(
    m: Seq<Seq<char>>,
    player: Pos,
    spots: Seq<(Pos, u16)>,
    safe: Seq<(Pos, u16)>,
    cells: Seq<(Pos, u16)>,
    exits: Seq<SceneExit>,
)
    ensures
        ({
            let n = spots.len() as int;
            let told = best_spot_members(m, player, spots, safe, cells, exits);
            let b0 = best_by(spots, safe, cells, exits, n, 0);
            let b1 = best_by(spots, safe, cells, exits, n, 1);
            let b2 = best_by(spots, safe, cells, exits, n, 2);
            &&& b0 matches Some(b) ==> told == m.push(json::member("best_spot"@, best_spot_text(player, exits, b, true, true)))
            &&& b0 is None && b1 is Some ==> told == m.push(
                json::member("best_spot"@, best_spot_text(player, exits, b1->0, false, true)),
            )
            &&& b0 is None && b1 is None && b2 is Some ==> told == m.push(
                json::member("best_spot"@, best_spot_text(player, exits, b2->0, false, false)),
            )
            &&& b0 is None && b1 is None && b2 is None ==> told == m
        }),
{
}

/// What searching tells: whether it finds the event object now, in some
/// direction, and only after a turn.
pub proof fn law_searching_is_told(
    m: Seq<Seq<char>>,
    player: Pos,
    info: SearchInfo,
    spots: Seq<(Pos, u16)>,
    safe: Seq<(Pos, u16)>,
    cells: Seq<(Pos, u16)>,
    exits: Seq<SceneExit>,
)
    ensures
        ({
            let told = search_members(m, player, info, spots, safe, cells, exits);
            let at = m.len() as int;
            &&& told[at] == json::flag("can_search_now"@, info.can_now)
            &&& told[at + 1] == json::flag("in_search_range"@, info.in_range)
            &&& told[at + 2] == json::flag("facing_ok"@, info.can_now)
            &&& told[at + 3] == json::flag("need_face"@, info.in_range && !info.can_now)
            &&& told[at + 4] == json::string("approach_dir"@, search::walk_key(info.approach as int))
            &&& info.face matches Some(f) ==> told[at + 6] == json::string("face"@, search::facing_key(f as int))
        }),
{
}

/// An exit of the map is told with its number and place, seen from the corner
/// of the view and from the party, and where it leads.
pub proof fn law_map_exits_are_told(
    e: &Engine,
    player: Pos,
    cells: Seq<(Pos, u16)>,
    i: int,
)
    requires
        0 <= i < 0xffff,
        zones::leads_to(e, e.globals.game.event_objects@[i]) is Some,
    ensures
        exists|m: Seq<Seq<char>>|
            {
                let o = e.globals.game.event_objects@[i];
                &&& map_exit(e, player, cells, i) == #[trigger] json::object(m)
                &&& m[0] == json::num("id"@, i + 1)
                &&& m[2] == json::pair("pos"@, o.x as int, o.y as int)
                &&& m[3] == json::pair("screen"@, o.x - e.globals.viewport.0, o.y - e.globals.viewport.1)
                &&& m[4] == json::pair("delta"@, o.x - player.0, o.y - player.1)
                &&& m[5] == json::num("dist"@, (vstd::math::abs(o.x - player.0) + 2 * vstd::math::abs(o.y - player.1)) as int)
                &&& m[6] == json::num("dest_scene"@, zones::leads_to(e, o)->0 as int)
                &&& m[7] == json::num("trigger_mode"@, o.trigger_mode as int)
            },
{
    let g = e.globals;
    let o = g.game.event_objects@[i];
    let id = (i + 1) as u16;
    let pos = zones::place_of(o);
    let dest = zones::leads_to(e, o)->0;
    let steps = reach::steps_near(cells, pos, search::goal_distance(o.trigger_mode));
    let m = Seq::<Seq<char>>::empty()
        .push(json::num("id"@, id as int))
        .push(json::string("kind"@, if o.trigger_mode >= 4 { "touch"@ } else if o.trigger_mode == 0 { "scenery"@ } else { "search"@ }))
        .push(json::pair("pos"@, pos.0 as int, pos.1 as int))
        .push(json::pair("screen"@, pos.0 - g.viewport.0, pos.1 - g.viewport.1))
        .push(json::pair("delta"@, pos.0 - player.0, pos.1 - player.1))
        .push(json::num("dist"@, geometry::distance(player, pos)))
        .push(json::num("dest_scene"@, dest as int))
        .push(json::num("trigger_mode"@, o.trigger_mode as int));
    let m = if zones::touch_radius(o.trigger_mode) > 0 {
        m.push(json::num("touch_radius"@, zones::touch_radius(o.trigger_mode))).push(
            json::flag("in_touch_range"@, zones::touches(player, pos, zones::touch_radius(o.trigger_mode))),
        )
    } else {
        m
    };
    let m = m
        .push(json::string("how"@, if o.trigger_mode >= 4 { "walk_into"@ } else { "face_and_confirm"@ }))
        .push(json::flag("walk_reachable"@, steps is Some));
    let m = match steps {
        Some(n) => m.push(json::num("walk_steps"@, n as int)),
        None => m,
    };
    let m = m.push(zones::return_exits(e, dest, g.num_scene));
    assert(map_exit(e, player, cells, i) == json::object(m));
}

/// The exits of the map are the event objects that are there and lead to
/// another scene, in order; the mechanisms those that can be acted on and do
/// not.
pub proof fn law_exits_and_mechanisms_are_told_apart(
    e: &Engine,
    player: Pos,
    cells: Seq<(Pos, u16)>,
    safe: Seq<(Pos, u16)>,
    exits: Seq<SceneExit>,
    from: int,
    i: int,
)
    requires
        from <= i,
    ensures
        ({
            let o = e.globals.game.event_objects@[i];
            let active = o.state > 0 && o.vanish_time == 0 && o.trigger_script != 0;
            let away = script::destination(e.globals.game.script_entries@, o.trigger_script) is Some;
            &&& active && away ==> map_exits(e, player, cells, from, i + 1) == map_exits(e, player, cells, from, i).push(
                map_exit(e, player, cells, i),
            )
            &&& !(active && away) ==> map_exits(e, player, cells, from, i + 1) == map_exits(e, player, cells, from, i)
            &&& active && !away && o.trigger_mode != 0 ==> mechanisms(e, player, cells, safe, exits, from, i + 1) == mechanisms(
                e,
                player,
                cells,
                safe,
                exits,
                from,
                i,
            ).push(mechanism(e, player, cells, safe, exits, i))
            &&& !(active && !away && o.trigger_mode != 0) ==> mechanisms(e, player, cells, safe, exits, from, i + 1) == mechanisms(
                e,
                player,
                cells,
                safe,
                exits,
                from,
                i,
            )
        }),
{
}

/// The use of a held item counts before all else; a change of scene counts
/// before what ranks lower; and only what neither changes the scene nor takes an
/// item, and has nothing but talk, is told as a loop.
pub proof fn law_progress_has_an_order(e: &Engine, i: int)
    ensures
        ({
            let o = e.globals.game.event_objects@[i];
            let item = script::story_item(e, (i + 1) as u16, 256) is Some;
            let away = script::destination(e.globals.game.script_entries@, o.trigger_script) is Some;
            let rank = script::script_rank(e.globals.game.script_entries@, o.trigger_script, 0);
            &&& item ==> event_progress(e, i) == "item"@ && mechanism_progress(e, i) == "item"@ && !event_looping(e, i)
            &&& !item && away && rank.rank >= 4 ==> event_progress(e, i) == "scene"@
            &&& !item && !(away && rank.rank >= 4) ==> event_progress(e, i) == rank.label
            &&& !item ==> mechanism_progress(e, i) == rank.label
            &&& event_looping(e, i) <==> !item && !away && rank.rank >= 5
        }),
{
}

/// At most 32 event objects are told, the first of the list.
pub proof fn law_events_are_told_in_order(
    e: &Engine,
    player: Pos,
    cells: Seq<(Pos, u16)>,
    safe: Seq<(Pos, u16)>,
    exits: Seq<SceneExit>,
    list: Seq<int>,
    n: int,
)
    requires
        0 <= n < list.len(),
    ensures
        event_texts(e, player, cells, safe, exits, list, 0).len() == 0,
        event_texts(e, player, cells, safe, exits, list, n + 1) == event_texts(e, player, cells, safe, exits, list, n).push(
            event_text(e, player, cells, safe, exits, list[n]),
        ),
        MAX_EVENTS == 32,
{
}

/// A listed event object is told with its number, what it is good for, its place
/// seen from the corner of the view and from the party, how far it is, and its
/// state.
#[verifier::spinoff_prover]
#[verifier::rlimit(100)]
pub proof fn law_events_are_told(e: &Engine, player: Pos, cells: Seq<(Pos, u16)>, safe: Seq<(Pos, u16)>, exits: Seq<SceneExit>, i: int)
    requires
        0 <= i < 0xffff,
    ensures
        exists|m: Seq<Seq<char>>|
            {
                let o = e.globals.game.event_objects@[i];
                let role = role_of(o.trigger_mode, o.sprite_num, o.trigger_script, zones::leads_to(e, o), event_progress(e, i));
                let k: int = if speaker_label(e, role, o) is Some { 4 } else { 3 };
                &&& event_text(e, player, cells, safe, exits, i) == #[trigger] json::object(m)
                &&& m[0] == json::num("id"@, i + 1)
                &&& m[2] == json::string("role"@, role_of(o.trigger_mode, o.sprite_num, o.trigger_script, zones::leads_to(e, o), event_progress(e, i)).text())
                &&& m[k] == json::pair("pos"@, o.x as int, o.y as int)
                &&& m[k + 1] == json::pair("screen"@, o.x - e.globals.viewport.0, o.y - e.globals.viewport.1)
                &&& m[k + 2] == json::pair("delta"@, o.x - player.0, o.y - player.1)
                &&& m[k + 3] == json::num("dist"@, event_distance(e, player, i) as int)
                &&& m[k + 5] == json::string("progress"@, event_progress(e, i))
                &&& m[k + 6] == json::num("event_state"@, o.state as int)
            },
{
    let g = e.globals;
    let o = g.game.event_objects@[i];
    let id = (i + 1) as u16;
    let pos = zones::place_of(o);
    let dest = zones::leads_to(e, o);
    let item_use = script::story_item(e, id, 256);
    let progress = event_progress(e, i);
    let role = role_of(o.trigger_mode, o.sprite_num, o.trigger_script, dest, progress);
    let label = speaker_label(e, role, o);
    let spots = search::search_spots(e, pos, o.trigger_mode);
    let m = Seq::<Seq<char>>::empty()
        .push(json::num("id"@, id as int))
        .push(json::string("kind"@, if o.trigger_mode >= 4 { "touch"@ } else if o.trigger_mode == 0 { "scenery"@ } else { "search"@ }))
        .push(json::string("role"@, role.text()));
    let m = match label {
        Some(name) => {
            let m = m
                .push(json::string("label"@, name));
            m
        },
        None => m,
    };
    let m = m
        .push(json::pair("pos"@, pos.0 as int, pos.1 as int))
        .push(json::pair("screen"@, pos.0 - g.viewport.0, pos.1 - g.viewport.1))
        .push(json::pair("delta"@, pos.0 - player.0, pos.1 - player.1))
        .push(json::num("dist"@, geometry::distance(player, pos)))
        .push(json::string("how"@, if o.trigger_mode >= 4 { "walk_into"@ } else { "face_and_confirm"@ }))
        .push(json::string("progress"@, progress))
        .push(json::num("event_state"@, o.state as int));
    let m = if search::is_searched(o.trigger_mode) {
        let m = search_members(m, player, search::search_facts(player, pos, o.trigger_mode, g.party_direction), spots, safe, cells, exits);
        m
    } else {
        m
    };
    let m = if o.trigger_mode >= 4 {
        let m = m
            .push(json::num("trigger_mode"@, o.trigger_mode as int))
            .push(json::num("touch_radius"@, zones::touch_radius(o.trigger_mode)))
            .push(json::flag("in_touch_range"@, zones::touches(player, pos, zones::touch_radius(o.trigger_mode))));
        m
    } else {
        m
    };
    let m = if dest is Some {
        let exit_steps = reach::steps_near(cells, pos, search::goal_distance(o.trigger_mode));
        let m = m
            .push(json::flag("walk_reachable"@, exit_steps is Some));
        let m = match exit_steps {
            Some(n) => {
                let m = m
                    .push(json::num("walk_steps"@, n as int));
                m
            },
            None => m,
        };
        m
    } else {
        walk_members(m, e, cells, safe, exits, spots, o)
    };
    let m = if o.state >= 2 {
        let m = m
            .push(json::flag("solid"@, true));
        m
    } else {
        m
    };
    let m = if event_looping(e, i) {
        let m = m
            .push(json::flag("loop"@, true));
        m
    } else {
        m
    };
    let m = match item_use {
        Some(item) => {
            let m = m
                .push(json::num("item_use"@, item as int));
            m
        },
        None => m,
    };
    let m = match dest {
        Some(scene) => {
            let m = m
                .push(json::num("dest_scene"@, scene as int));
            m
        },
        None => m,
    };
    assert(event_text(e, player, cells, safe, exits, i) == json::object(m));
}

/// A mechanism is told with its number, what it is good for, its place seen from
/// the corner of the view and from the party, how far it is, and its state.
#[verifier::spinoff_prover]
#[verifier::rlimit(100)]
pub proof fn law_mechanisms_are_told(e: &Engine, player: Pos, cells: Seq<(Pos, u16)>, safe: Seq<(Pos, u16)>, exits: Seq<SceneExit>, i: int)
    requires
        0 <= i < 0xffff,
    ensures
        exists|m: Seq<Seq<char>>|
            {
                let o = e.globals.game.event_objects@[i];
                let role = role_of(o.trigger_mode, o.sprite_num, o.trigger_script, None, mechanism_progress(e, i));
                let k: int = if speaker_label(e, role, o) is Some { 4 } else { 3 };
                &&& mechanism(e, player, cells, safe, exits, i) == #[trigger] json::object(m)
                &&& m[0] == json::num("id"@, i + 1)
                &&& m[2] == json::string("role"@, role.text())
                &&& m[k] == json::pair("pos"@, o.x as int, o.y as int)
                &&& m[k + 1] == json::pair("screen"@, o.x - e.globals.viewport.0, o.y - e.globals.viewport.1)
                &&& m[k + 2] == json::pair("delta"@, o.x - player.0, o.y - player.1)
                &&& m[k + 3] == json::num("dist"@, event_distance(e, player, i) as int)
                &&& m[k + 4] == json::string("progress"@, mechanism_progress(e, i))
                &&& m[k + 5] == json::num("event_state"@, o.state as int)
                &&& o.state >= 2 ==> m[k + 6] == json::flag("solid"@, true)
                &&& o.state < 2 ==> m[k + 6] == json::string("how"@, if o.trigger_mode >= 4 { "walk_into"@ } else { "face_and_confirm"@ })
            },
{
    let g = e.globals;
    let o = g.game.event_objects@[i];
    let id = (i + 1) as u16;
    let pos = zones::place_of(o);
    let rank = script::script_rank(g.game.script_entries@, o.trigger_script, 0);
    let item_use = script::story_item(e, id, 256);
    let progress = mechanism_progress(e, i);
    let role = role_of(o.trigger_mode, o.sprite_num, o.trigger_script, None, progress);
    let label = speaker_label(e, role, o);
    let spots = search::search_spots(e, pos, o.trigger_mode);
    let m = Seq::<Seq<char>>::empty()
        .push(json::num("id"@, id as int))
        .push(json::string("kind"@, if o.trigger_mode >= 4 { "touch"@ } else if o.trigger_mode == 0 { "scenery"@ } else { "search"@ }))
        .push(json::string("role"@, role.text()));
    let m = match label {
        Some(name) => {
            let m = m
                .push(json::string("label"@, name));
            m
        },
        None => m,
    };
    let m = m
        .push(json::pair("pos"@, pos.0 as int, pos.1 as int))
        .push(json::pair("screen"@, pos.0 - g.viewport.0, pos.1 - g.viewport.1))
        .push(json::pair("delta"@, pos.0 - player.0, pos.1 - player.1))
        .push(json::num("dist"@, geometry::distance(player, pos)))
        .push(json::string("progress"@, progress))
        .push(json::num("event_state"@, o.state as int));
    let m = if o.state >= 2 {
        let m = m
            .push(json::flag("solid"@, true));
        m
    } else {
        m
    };
    let m = m
        .push(json::string("how"@, if o.trigger_mode >= 4 { "walk_into"@ } else { "face_and_confirm"@ }));
    let m = if search::is_searched(o.trigger_mode) {
        let m = search_members(m, player, search::search_facts(player, pos, o.trigger_mode, g.party_direction), spots, safe, cells, exits);
        m
    } else {
        m
    };
    let m = if o.trigger_mode >= 4 {
        let m = m
            .push(json::num("trigger_mode"@, o.trigger_mode as int))
            .push(json::num("touch_radius"@, zones::touch_radius(o.trigger_mode)))
            .push(json::flag("in_touch_range"@, zones::touches(player, pos, zones::touch_radius(o.trigger_mode))));
        m
    } else {
        m
    };
    let m = walk_members(m, e, cells, safe, exits, spots, o);
    let m = match item_use {
        Some(item) => {
            let m = m
                .push(json::num("item_use"@, item as int));
            m
        },
        None => m,
    };
    let m = if rank.rank >= 5 {
        let m = m
            .push(json::flag("loop"@, true));
        m
    } else {
        m
    };
    assert(mechanism(e, player, cells, safe, exits, i) == json::object(m));
}

/// The best spot is told with its place, where to face, and its steps; it is safe
/// if both the way and the place are.
pub proof fn law_best_spot_is_safe_with_its_way(player: Pos, exits: Seq<SceneExit>, best: (Pos, u16, u16), path_safe: bool, stand_safe: bool)
    ensures
        exists|m: Seq<Seq<char>>|
            {
                &&& best_spot_text(player, exits, best, path_safe, stand_safe) == #[trigger] json::object(m)
                &&& m[0] == json::pair("pos"@, (best.0).0 as int, (best.0).1 as int)
                &&& m[1] == json::string("face"@, search::facing_key(best.1 as int))
                &&& m[2] == json::num("walk_steps"@, best.2 as int)
                &&& m[3] == json::flag("path_safe"@, path_safe)
                &&& m[4] == json::flag("safe"@, path_safe && stand_safe)
                &&& m[5] == json::flag("in_exit_touch"@, zones::exit_at(best.0, exits) is Some)
            },
{
    let (sp, face, steps) = best;
    let hit = zones::exit_at(sp, exits);
    let m = Seq::<Seq<char>>::empty()
        .push(json::pair("pos"@, sp.0 as int, sp.1 as int))
        .push(json::string("face"@, search::facing_key(face as int)))
        .push(json::num("walk_steps"@, steps as int))
        .push(json::flag("path_safe"@, path_safe))
        .push(json::flag("safe"@, stand_safe && path_safe))
        .push(json::flag("in_exit_touch"@, hit is Some));
    let m = match hit {
        Some(x) => {
            let m = m
                .push(json::num("exit_id"@, x.id as int));
            m
        },
        None => m,
    };
    let m = m
        .push(json::string("approach_dir"@, search::walk_key(search::toward(player, sp))));
    assert(best_spot_text(player, exits, best, path_safe, stand_safe) == json::object(m));
}

/// A spot is told with its place and where to face; the steps that cross no exit
/// are told only of a spot in no exit.
pub proof fn law_spots_are_told(spots: Seq<(Pos, u16)>, safe: Seq<(Pos, u16)>, cells: Seq<(Pos, u16)>, exits: Seq<SceneExit>, i: int)
    ensures
        exists|m: Seq<Seq<char>>|
            {
                &&& spot_text(spots, safe, cells, exits, i) == #[trigger] json::object(m)
                &&& m[0] == json::pair("pos"@, (spots[i].0).0 as int, (spots[i].0).1 as int)
                &&& m[1] == json::string("face"@, search::facing_key(spots[i].1 as int))
                &&& m[2] == json::flag("in_exit_touch"@, zones::exit_at(spots[i].0, exits) is Some)
                &&& zones::exit_at(spots[i].0, exits) matches Some(x) ==> m[3] == json::num("exit_id"@, x.id as int) && m[4] == json::num("exit_dest"@, x.dest_scene as int)
                &&& zones::exit_at(spots[i].0, exits) is None && reach::steps_near(safe, spots[i].0, 0) is Some ==> m[3] == json::num("walk_steps"@, reach::steps_near(safe, spots[i].0, 0)->0 as int)
                &&& zones::exit_at(spots[i].0, exits) is None && reach::steps_near(safe, spots[i].0, 0) is None && reach::steps_near(cells, spots[i].0, 0) is Some ==> m[3] == json::num("walk_steps_any"@, reach::steps_near(cells, spots[i].0, 0)->0 as int)
            },
{
    let (sp, face) = spots[i];
    let hit = zones::exit_at(sp, exits);
    let m = Seq::<Seq<char>>::empty()
        .push(json::pair("pos"@, sp.0 as int, sp.1 as int))
        .push(json::string("face"@, search::facing_key(face as int)))
        .push(json::flag("in_exit_touch"@, hit is Some));
    let m = match hit {
        Some(x) => {
            let m = m
                .push(json::num("exit_id"@, x.id as int))
                .push(json::num("exit_dest"@, x.dest_scene as int));
            m
        },
        None => m,
    };
    let m = match spot_measure(spots, safe, cells, exits, i, 0) {
        Some(n) => {
            let m = m
                .push(json::num("walk_steps"@, n as int));
            m
        },
        None => m,
    };
    let m = match spot_measure(spots, safe, cells, exits, i, 2) {
        Some(n) => {
            let m = m
                .push(json::num("walk_steps_any"@, n as int));
            m
        },
        None => m,
    };
    assert(spot_text(spots, safe, cells, exits, i) == json::object(m));
}

} // verus!
