//! The whole game as JSON text, for a program that plays it.

use vstd::prelude::*;

use crate::agent_battle;
use crate::agent_map;
use crate::agent_party;
use crate::battle::{Battle, BattleUiState};
use crate::engine::Engine;
use crate::geometry;
use crate::geometry::Pos;
use crate::global::Globals;
use crate::json;
use crate::json::Members;
use crate::map::TileMap;
use crate::reach;
use crate::reach::Reachability;
use crate::records::{Scene, Trail};
use crate::search;
use crate::text;
use crate::ui::{AgentMenuItem, UiState};
use crate::zones;
use crate::zones::{SceneExit, SceneExitTransit, TouchZone};

verus! {

/// What whoever drives the game knows about its clock.
#[derive(Clone, Copy, Debug, PartialEq, Eq, Structural)]
pub struct DriverFacts {
    pub frame_id: u64,
    pub step_mode: bool,
    pub step_configured: bool,
    pub ticks: u64,
    pub playtime_secs: u64,
}

/// What the game is doing.
#[derive(Clone, Copy, Debug, PartialEq, Eq, Structural)]
pub enum Phase {
    TitleMenu,
    Boot,
    Battle,
    Dialog,
    Menu,
    SceneTransition,
    Overworld,
}

impl Phase {
    pub open spec fn text(self) -> Seq<char> {
        match self {
            Phase::TitleMenu => "title_menu"@,
            Phase::Boot => "boot"@,
            Phase::Battle => "battle"@,
            Phase::Dialog => "dialog"@,
            Phase::Menu => "menu"@,
            Phase::SceneTransition => "scene_transition"@,
            Phase::Overworld => "overworld"@,
        }
    }

    pub fn name(self) -> (s: &'static str)
        ensures
            s@ == self.text(),
    {
        match self {
            Phase::TitleMenu => "title_menu",
            Phase::Boot => "boot",
            Phase::Battle => "battle",
            Phase::Dialog => "dialog",
            Phase::Menu => "menu",
            Phase::SceneTransition => "scene_transition",
            Phase::Overworld => "overworld",
        }
    }
}

/// A dialog is open.
pub open spec fn talks(ui: &UiState) -> bool {
    ui.in_dialog || ui.current_dialog_line > 0 || ui.agent_dialog_lines@.len() > 0 || ui.agent_dialog_speaker@.len() > 0
}

/// A battle is being fought.
pub open spec fn fights(e: &Engine) -> bool {
    e.globals.in_battle || e.battle is Some
}

/// A menu is open.
pub open spec fn chooses(e: &Engine) -> bool {
    e.ui.agent_menu is Some || (e.battle matches Some(b) && b.ui.state == BattleUiState::SelectMove)
}

/// What the game is doing.
pub open spec fn phase_of(e: &Engine) -> Phase {
    if !e.globals.in_main_game && chooses(e) {
        Phase::TitleMenu
    } else if !e.globals.in_main_game {
        Phase::Boot
    } else if fights(e) {
        Phase::Battle
    } else if talks(&e.ui) {
        Phase::Dialog
    } else if chooses(e) {
        Phase::Menu
    } else if e.globals.entering_scene {
        Phase::SceneTransition
    } else {
        Phase::Overworld
    }
}

/// The game waits for a key.
pub open spec fn awaits_input(e: &Engine) -> bool {
    chooses(e) || talks(&e.ui) || !e.globals.in_main_game
}

/// How far the game has come before it starts.
pub open spec fn boot_stage(e: &Engine) -> Option<Seq<char>> {
    if e.globals.in_main_game {
        None
    } else if chooses(e) {
        Some("title_menu"@)
    } else {
        Some("intro"@)
    }
}

/// Before the game starts it always waits for a key, and says how far it has
/// come.
pub proof fn law_boot_awaits_input(e: &Engine)
    requires
        !e.globals.in_main_game,
    ensures
        awaits_input(e),
        boot_stage(e) is Some,
        phase_of(e) == Phase::TitleMenu || phase_of(e) == Phase::Boot,
{
}

fn has_dialog(ui: &UiState) -> (b: bool)
    ensures
        b == talks(ui),
{
    ui.in_dialog || ui.current_dialog_line > 0 || ui.agent_dialog_lines.len() > 0 || !json::is_empty(
        ui.agent_dialog_speaker.as_str(),
    )
}

fn has_menu(engine: &Engine) -> (b: bool)
    ensures
        b == chooses(engine),
{
    if engine.ui.agent_menu.is_some() {
        return true;
    }
    match &engine.battle {
        Some(b) => b.ui.state == BattleUiState::SelectMove,
        None => false,
    }
}

/// What the game is doing.
pub fn current_phase(engine: &Engine) -> (p: Phase)
    ensures
        p == phase_of(engine),
{
    let in_menu: bool = has_menu(engine);
    if !engine.globals.in_main_game && in_menu {
        Phase::TitleMenu
    } else if !engine.globals.in_main_game {
        Phase::Boot
    } else if engine.globals.in_battle || engine.battle.is_some() {
        Phase::Battle
    } else if has_dialog(&engine.ui) {
        Phase::Dialog
    } else if in_menu {
        Phase::Menu
    } else if engine.globals.entering_scene {
        Phase::SceneTransition
    } else {
        Phase::Overworld
    }
}

/// The first `n` lines of a dialog, each on a line of its own.
pub open spec fn lines_text(lines: Seq<String>, n: int) -> Seq<char>
    decreases n,
{
    if n <= 0 {
        Seq::empty()
    } else if n == 1 {
        lines[0]@
    } else {
        lines_text(lines, n - 1).push('\n') + lines[n - 1]@
    }
}

/// The open dialog: who speaks, and what.
pub open spec fn dialog_text(ui: &UiState) -> Seq<char> {
    let speaker = ui.agent_dialog_speaker@;
    let lines = lines_text(ui.agent_dialog_lines@, ui.agent_dialog_lines@.len() as int);
    if speaker.len() == 0 && ui.agent_dialog_lines@.len() == 0 {
        "null"@
    } else if speaker.len() == 0 {
        json::quoted(lines)
    } else {
        json::quoted(speaker.push('\u{ff1a}') + lines)
    }
}

fn null() -> (s: String)
    ensures
        s@ == "null"@,
{
    let mut s: String = String::new();
    s.push_str("null");
    assert(s@ =~= "null"@);
    s
}

/// The open dialog: who speaks, and what.
pub fn dialog_json(ui: &UiState) -> (s: String)
    ensures
        s@ == dialog_text(ui),
{
    let silent: bool = json::is_empty(ui.agent_dialog_speaker.as_str());
    if silent && ui.agent_dialog_lines.len() == 0 {
        return null();
    }
    let mut full: String = String::new();
    if !silent {
        full.push_str(ui.agent_dialog_speaker.as_str());
        full.push('\u{ff1a}');
    }
    let ghost head = full@;
    assert(head =~= if silent { Seq::<char>::empty() } else { ui.agent_dialog_speaker@.push('\u{ff1a}') });
    assert(full@ =~= head + lines_text(ui.agent_dialog_lines@, 0));
    for i in 0..ui.agent_dialog_lines.len()
        invariant
            full@ == head + lines_text(ui.agent_dialog_lines@, i as int),
    {
        if i > 0 {
            full.push('\n');
        }
        full.push_str(ui.agent_dialog_lines[i].as_str());
        assert(full@ =~= head + lines_text(ui.agent_dialog_lines@, i + 1));
    }
    let mut s: String = String::new();
    proof {
        let lines = lines_text(ui.agent_dialog_lines@, ui.agent_dialog_lines@.len() as int);
        if silent {
            assert(full@ =~= lines);
        }
    }
    json::push_json_string(&mut s, full.as_str());
    assert(s@ =~= json::quoted(full@));
    s
}

/// The open menu, or that of a battle.
pub open spec fn open_menu_text(e: &Engine) -> Seq<char> {
    match e.ui.agent_menu {
        Some(menu) => agent_battle::menu_text(menu.kind@, menu.index as int, agent_battle::entries(menu.items@)),
        None => match e.battle {
            Some(b) => if b.ui.state == BattleUiState::SelectMove {
                agent_battle::menu_text(
                    agent_battle::battle_menu_kind(b.ui.menu_state),
                    agent_battle::battle_menu_index(&b),
                    agent_battle::battle_menu_entries(e, b.ui.menu_state),
                )
            } else {
                "null"@
            },
            None => "null"@,
        },
    }
}

/// The open menu, or that of a battle.
pub fn open_menu_json(engine: &Engine) -> (s: String)
    ensures
        s@ == open_menu_text(engine),
{
    match &engine.ui.agent_menu {
        Some(menu) => agent_battle::menu_json(menu.kind.as_str(), menu.index, menu.items.as_slice()),
        None => match &engine.battle {
            Some(b) => if b.ui.state == BattleUiState::SelectMove {
                let (kind, index, items): (&'static str, usize, Vec<AgentMenuItem>) = agent_battle::battle_menu_snapshot(
                    engine,
                    b,
                );
                agent_battle::menu_json(kind, index, items.as_slice())
            } else {
                null()
            },
            None => null(),
        },
    }
}

/// The number of event objects of a scene.
pub open spec fn event_count_of(e: &Engine, scene: u16) -> int {
    let scenes = e.globals.game.scenes@;
    let start = scenes[scene - 1].event_object_index as int;
    let end = if scene < scenes.len() {
        scenes[scene as int].event_object_index as int
    } else {
        e.globals.game.event_objects@.len() as int
    };
    if end >= start {
        end - start
    } else {
        0
    }
}

/// The current scene's entry in the table.
pub open spec fn scene_info_text(e: &Engine) -> Seq<char> {
    let scene = e.globals.num_scene;
    if scene == 0 || scene > e.globals.game.scenes@.len() {
        "null"@
    } else {
        let sc = e.globals.game.scenes@[scene - 1];
        let event_count = event_count_of(e, scene);
        let m = Seq::<Seq<char>>::empty()
            .push(json::num("map_num"@, sc.map_num as int))
            .push(json::num("script_on_enter"@, sc.script_on_enter as int))
            .push(json::num("script_on_teleport"@, sc.script_on_teleport as int))
            .push(json::num("event_object_index"@, sc.event_object_index as int))
            .push(json::num("event_count"@, event_count));
        json::object(m)
    }
}

/// The current scene's entry in the table.
pub fn scene_info_json(engine: &Engine) -> (s: String)
    ensures
        s@ == scene_info_text(engine),
{
    let scene: usize = engine.globals.num_scene as usize;
    if scene == 0 || scene > engine.globals.game.scenes.len() {
        return null();
    }
    let sc: Scene = engine.globals.game.scenes[scene - 1];
    let start: usize = sc.event_object_index as usize;
    let end: usize = if scene < engine.globals.game.scenes.len() {
        engine.globals.game.scenes[scene].event_object_index as usize
    } else {
        engine.globals.game.event_objects.len()
    };
    let event_count: usize = if end >= start {
        end - start
    } else {
        0
    };
    let mut m: Members = Members::new();
    m.num("map_num", sc.map_num as u64);
    m.num("script_on_enter", sc.script_on_enter as u64);
    m.num("script_on_teleport", sc.script_on_teleport as u64);
    m.num("event_object_index", sc.event_object_index as u64);
    m.num("event_count", event_count as u64);
    m.into_object()
}

/// In which directions the party could step from a position.
pub open spec fn walk_facts(e: &Engine, p: Pos) -> Seq<bool> {
    seq![e.can_step(p, 0), e.can_step(p, 1), e.can_step(p, 2), e.can_step(p, 3)]
}

/// In which directions the party could step from a position, as text.
pub open spec fn walk_text(e: &Engine, p: Pos) -> Seq<char> {
    json::object(
        Seq::<Seq<char>>::empty()
            .push(json::flag("up"@, e.can_step(p, 0)))
            .push(json::flag("right"@, e.can_step(p, 1)))
            .push(json::flag("down"@, e.can_step(p, 2)))
            .push(json::flag("left"@, e.can_step(p, 3))),
    )
}

fn walk_json(walk: &[bool; 4]) -> (s: String)
    ensures
        s@ == json::object(
            Seq::<Seq<char>>::empty()
                .push(json::flag("up"@, walk@[0]))
                .push(json::flag("right"@, walk@[1]))
                .push(json::flag("down"@, walk@[2]))
                .push(json::flag("left"@, walk@[3])),
        ),
{
    let mut m: Members = Members::new();
    m.flag("up", walk[0]);
    m.flag("right", walk[1]);
    m.flag("down", walk[2]);
    m.flag("left", walk[3]);
    m.into_object()
}

/// What was found along the trail: its positions, each once, and the first
/// from which the party could step in two directions, or in one.
pub struct TrailScan {
    pub seen: Seq<Pos>,
    pub safe: Option<Pos>,
    pub fallback: Option<Pos>,
}

/// What was found along the first `n` entries of the trail.
pub open spec fn trail_scan(e: &Engine, player: Pos, n: int) -> TrailScan
    decreases n,
{
    if n <= 0 {
        TrailScan { seen: Seq::empty(), safe: None, fallback: None }
    } else {
        let before = trail_scan(e, player, n - 1);
        let t = e.globals.trail@[n - 1];
        let p = (t.x as i64, t.y as i64);
        if t.x == 0 && t.y == 0 || before.seen.contains(p) {
            before
        } else if p != player && reach::on_grid(p) && e.free_steps(p) >= 2 && before.safe is None {
            TrailScan { seen: before.seen.push(p), safe: Some(p), ..before }
        } else if p != player && reach::on_grid(p) && e.free_steps(p) >= 1 && before.fallback is None {
            TrailScan { seen: before.seen.push(p), fallback: Some(p), ..before }
        } else {
            TrailScan { seen: before.seen.push(p), ..before }
        }
    }
}

/// The first `n` positions as texts.
pub open spec fn trail_texts(seen: Seq<Pos>, n: int) -> Seq<Seq<char>>
    decreases n,
{
    if n <= 0 {
        Seq::empty()
    } else {
        trail_texts(seen, n - 1).push(json::point(seen[n - 1].0 as int, seen[n - 1].1 as int))
    }
}

/// Why the party cannot walk as it likes, if so.
pub open spec fn walk_reason(phase: Phase, entering_scene: bool, any: bool, on_grid: bool) -> Option<Seq<char>> {
    if phase == Phase::Boot || phase == Phase::TitleMenu || phase == Phase::Dialog || phase == Phase::Menu || phase
        == Phase::Battle {
        Some(phase.text())
    } else if phase == Phase::SceneTransition || entering_scene {
        Some("scene_transition"@)
    } else if !on_grid {
        Some("off_grid"@)
    } else if !any {
        Some("cornered"@)
    } else {
        None
    }
}

/// Whether the party could step at all.
pub open spec fn any_step(e: &Engine, p: Pos) -> bool {
    e.can_step(p, 0) || e.can_step(p, 1) || e.can_step(p, 2) || e.can_step(p, 3)
}

/// A cell from which the party could walk on: along the trail, else near, else
/// the nearest on the grid.
pub open spec fn last_safe(e: &Engine, player: Pos, snap: Pos, cells: Seq<(Pos, u16)>) -> Option<Pos> {
    let scan = trail_scan(e, player, 5);
    match scan.safe {
        Some(p) => Some(p),
        None => match scan.fallback {
            Some(p) => Some(p),
            None => match reach::safe_cell(e, if reach::on_grid(player) { player } else { snap }, cells) {
                Some(p) => Some(p),
                None => if any_step(e, if reach::on_grid(player) { player } else { snap }) {
                    Some(snap)
                } else {
                    None
                },
            },
        },
    }
}

/// The members that tell whether the party is stuck, and where it could walk
/// on.
pub open spec fn stuck_members(m: Seq<Seq<char>>, e: &Engine, player: Pos, cells: Seq<(Pos, u16)>) -> Seq<Seq<char>> {
    let snap = reach::grid_snap(player);
    let on_grid = reach::on_grid(player);
    let any = any_step(e, player);
    let snap_any = any_step(e, if on_grid { player } else { snap });
    let phase = phase_of(e);
    let scan = trail_scan(e, player, 5);
    let m = m
        .push(json::flag("walk_blocked"@, !any && (on_grid || !snap_any)));
    let m = match walk_reason(phase, e.globals.entering_scene, any, on_grid) {
        Some(r) => {
            let m = m
                .push(json::string("walk_reason"@, r));
            m
        },
        None => m,
    };
    let m = m
        .push(json::member("trail"@, json::array(trail_texts(scan.seen, scan.seen.len() as int))));
    let m = match last_safe(e, player, snap, cells) {
        Some(p) => {
            let m = m
                .push(json::pair("last_safe"@, p.0 as int, p.1 as int));
            let m = match reach::steps_near(cells, p, 0) {
                Some(n) => {
                    let m = m
                        .push(json::num("last_safe_steps"@, n as int));
                    m
                },
                None => m,
            };
            let m = m
                .push(json::pair("last_safe_delta"@, p.0 - player.0, p.1 - player.1))
                .push(json::string("last_safe_dir"@, search::walk_key(search::toward(player, p))));
            m
        },
        None => m,
    };
    let m = if !on_grid {
        let m = m
            .push(json::pair("grid_snap_delta"@, snap.0 - player.0, snap.1 - player.1))
            .push(json::string("grid_snap_dir"@, search::walk_key(search::toward(player, snap))))
            .push(json::string("walk_hint"@, "off_grid: prefer walk_from_snap / grid_snap_dir; last_safe is an on-grid free cell when known."@));
        m
    } else {
        m
    };
    let m = if on_grid && !any {
        let m = m
            .push(json::string("walk_hint"@, "No legal step from here. Use last_safe / last_safe_dir; open menu if still stuck."@));
        m
    } else {
        m
    };
    m
}

fn trail_json(seen: &Vec<Pos>) -> (s: String)
    ensures
        s@ == json::array(trail_texts(seen@, seen@.len() as int)),
{
    let mut list: Members = Members::new();
    for i in 0..seen.len()
        invariant
            list.wf(),
            list@ == trail_texts(seen@, i as int),
    {
        let p: Pos = seen[i];
        let t: String = json::point_text(p.0, p.1);
        list.put(t.as_str());
    }
    list.into_array()
}

/// Look along the trail.
fn scan_trail(engine: &Engine, player: Pos) -> (r: (Vec<Pos>, Option<Pos>, Option<Pos>))
    requires
        engine.res.wf(),
    ensures
        r.0@ == trail_scan(engine, player, 5).seen,
        r.1 == trail_scan(engine, player, 5).safe,
        r.2 == trail_scan(engine, player, 5).fallback,
        r.1 matches Some(p) ==> geometry::central(p),
        r.2 matches Some(p) ==> geometry::central(p),
{
    let mut seen: Vec<Pos> = Vec::new();
    let mut safe: Option<Pos> = None;
    let mut fallback: Option<Pos> = None;
    assert(seen@ =~= Seq::<Pos>::empty());
    for i in 0..5usize
        invariant
            engine.res.wf(),
            seen@ == trail_scan(engine, player, i as int).seen,
            safe == trail_scan(engine, player, i as int).safe,
            fallback == trail_scan(engine, player, i as int).fallback,
            safe matches Some(p) ==> geometry::central(p),
            fallback matches Some(p) ==> geometry::central(p),
    {
        let t: Trail = engine.globals.trail[i];
        let p: Pos = (t.x as i64, t.y as i64);
        if !(t.x == 0 && t.y == 0) && !reach::contains_pos(&seen, p) {
            seen.push(p);
            if !(p.0 == player.0 && p.1 == player.1) && reach::is_iso_grid(p) {
                let free: usize = reach::count_free(engine, p);
                if free >= 2 && safe.is_none() {
                    safe = Some(p);
                } else if fallback.is_none() && free >= 1 {
                    fallback = Some(p);
                }
            }
        }
    }
    (seen, safe, fallback)
}

fn reason_name(phase: Phase, entering_scene: bool, any: bool, on_grid: bool) -> (r: Option<&'static str>)
    ensures
        match walk_reason(phase, entering_scene, any, on_grid) {
            Some(t) => r matches Some(s) && s@ == t,
            None => r is None,
        },
{
    if phase == Phase::Boot || phase == Phase::TitleMenu || phase == Phase::Dialog || phase == Phase::Menu || phase
        == Phase::Battle {
        Some(phase.name())
    } else if phase == Phase::SceneTransition || entering_scene {
        Some("scene_transition")
    } else if !on_grid {
        Some("off_grid")
    } else if !any {
        Some("cornered")
    } else {
        None
    }
}

/// Append whether the party is stuck, and where it could walk on.
pub fn append_walk_stuck(
    out: &mut Members,
    engine: &Engine,
    player: Pos,
    walk: &[bool; 4],
    walk_snap: &[bool; 4],
    snap: Pos,
    phase: Phase,
    reach: &Reachability,
)
    requires
        old(out).wf(),
        engine.res.wf(),
        geometry::central(player),
        geometry::central(snap),
        snap == reach::grid_snap(player),
        forall|d: int| 0 <= d < 4 ==> #[trigger] walk@[d] == engine.can_step(player, d),
        forall|d: int|
            0 <= d < 4 ==> #[trigger] walk_snap@[d] == engine.can_step(
                if reach::on_grid(player) { player } else { snap },
                d,
            ),
        phase == phase_of(engine),
        reach.wf(),
        reach::all_inland(reach@),
    ensures
        final(out).wf(),
        final(out)@ == stuck_members(old(out)@, engine, player, reach@),
{
    let on_grid: bool = reach::is_iso_grid(player);
    let any: bool = walk[0] || walk[1] || walk[2] || walk[3];
    let snap_any: bool = walk_snap[0] || walk_snap[1] || walk_snap[2] || walk_snap[3];
    let reason: Option<&'static str> = reason_name(phase, engine.globals.entering_scene, any, on_grid);
    let (seen, trail_safe, fallback): (Vec<Pos>, Option<Pos>, Option<Pos>) = scan_trail(engine, player);
    let trail: String = trail_json(&seen);
    let safe: Option<Pos> = if trail_safe.is_some() {
        trail_safe
    } else if fallback.is_some() {
        fallback
    } else {
        let near: Option<Pos> = reach::find_safe_cell(
            engine,
            if on_grid {
                player
            } else {
                snap
            },
            reach,
        );
        if near.is_some() {
            near
        } else if snap_any {
            Some(snap)
        } else {
            None
        }
    };
    out.flag("walk_blocked", !any && (on_grid || !snap_any));
    match reason {
        Some(r) => {
            out.string("walk_reason", r);
        },
        None => {},
    }
    out.member("trail", trail.as_str());
    match safe {
        Some(p) => {
            out.pair("last_safe", p.0, p.1);
            match reach.steps_to(p, 0) {
                Some(n) => {
                    out.num("last_safe_steps", n as u64);
                },
                None => {},
            }
            out.pair("last_safe_delta", p.0 - player.0, p.1 - player.1);
            out.string("last_safe_dir", search::approach_face(player, p));
        },
        None => {},
    }
    if !on_grid {
        out.pair("grid_snap_delta", snap.0 - player.0, snap.1 - player.1);
        out.string("grid_snap_dir", search::approach_face(player, snap));
        out.string("walk_hint", "off_grid: prefer walk_from_snap / grid_snap_dir; last_safe is an on-grid free cell when known.");
    }
    if on_grid && !any {
        out.string("walk_hint", "No legal step from here. Use last_safe / last_safe_dir; open menu if still stuck.");
    }
}

/// Where the party stands.
pub open spec fn player_of(e: &Engine) -> Pos {
    (
        (e.globals.viewport.0 + e.globals.partyoffset.0) as i64,
        (e.globals.viewport.1 + e.globals.partyoffset.1) as i64,
    )
}

/// From where reachable cells are searched.
pub open spec fn reach_start(e: &Engine) -> Pos {
    if reach::on_grid(player_of(e)) {
        player_of(e)
    } else {
        reach::grid_snap(player_of(e))
    }
}

/// Everything within reach.
pub open spec fn cells_of(e: &Engine) -> Seq<(Pos, u16)> {
    reach::reached(e, Set::empty(), reach_start(e), reach::REACH_MAX_NODES as int)
}

/// Everything within reach without crossing an exit.
pub open spec fn safe_cells_of(e: &Engine) -> Seq<(Pos, u16)> {
    reach::reached(
        e,
        zones::hazards(zones::exits_in(e, e.globals.num_scene)),
        reach_start(e),
        reach::REACH_MAX_NODES as int,
    )
}

/// The running battle as text.
pub open spec fn battle_or_null(e: &Engine) -> Seq<char> {
    match e.battle {
        Some(b) => agent_battle::battle_text(e, &b),
        None => "null"@,
    }
}

/// What comes first: the clock, what the game is doing, and the party.
pub open spec fn state_head(e: &Engine, facts: DriverFacts) -> Seq<Seq<char>> {
    let g = e.globals;
    let player = player_of(e);
    let snap = reach::grid_snap(player);
    let m = agent_party::answer_head(facts.frame_id)
        .push(json::flag("step_mode"@, facts.step_mode))
        .push(json::flag("step_gating"@, facts.step_mode))
        .push(json::flag("step_configured"@, facts.step_configured))
        .push(json::num("ticks"@, facts.ticks as int))
        .push(json::num("frame_num"@, g.frame_num as int))
        .push(json::string("phase"@, phase_of(e).text()))
        .push(json::flag("awaiting_input"@, awaits_input(e)));
    let m = match boot_stage(e) {
        Some(s) => {
            let m = m
                .push(json::string("boot_stage"@, s));
            m
        },
        None => m,
    };
    let m = m
        .push(json::num("scene"@, g.num_scene as int))
        .push(json::pair("viewport"@, g.viewport.0 as int, g.viewport.1 as int))
        .push(json::pair("player"@, player.0 as int, player.1 as int))
        .push(json::flag("on_grid"@, reach::on_grid(player)));
    let m = if !reach::on_grid(player) {
        let m = m
            .push(json::pair("grid_snap"@, snap.0 as int, snap.1 as int));
        m
    } else {
        m
    };
    let m = m
        .push(json::num("party_direction"@, g.party_direction as int))
        .push(json::string("facing"@, search::facing_key(g.party_direction as int)))
        .push(json::flag("in_main_game"@, g.in_main_game))
        .push(json::flag("entering_scene"@, g.entering_scene))
        .push(json::flag("need_to_fade_in"@, g.need_to_fade_in))
        .push(json::flag("in_battle"@, fights(e)))
        .push(json::flag("auto_battle"@, g.auto_battle));
    m
}

/// What comes next: dialog, menu, and what the game keeps.
pub open spec fn state_game(m: Seq<Seq<char>>, e: &Engine, facts: DriverFacts) -> Seq<Seq<char>> {
    let g = e.globals;
    let m = m
        .push(json::member("dialog"@, dialog_text(&e.ui)))
        .push(json::member("menu"@, open_menu_text(e)))
        .push(json::flag("quit_requested"@, e.quit_requested))
        .push(json::num("cash"@, g.cash as int))
        .push(json::num("collect_value"@, g.collect_value as int))
        .push(json::num("current_save_slot"@, g.current_save_slot as int))
        .push(json::num("playtime_secs"@, facts.playtime_secs as int))
        .push(json::num("palette"@, g.num_palette as int))
        .push(json::flag("night_palette"@, g.night_palette))
        .push(json::num("music"@, g.num_music as int))
        .push(json::num("battle_music"@, g.num_battle_music as int))
        .push(json::num("battle_field"@, g.num_battle_field as int))
        .push(json::num("cur_main_menu_item"@, g.cur_main_menu_item as int))
        .push(json::num("cur_system_menu_item"@, g.cur_system_menu_item as int))
        .push(json::num("cur_inv_menu_item"@, g.cur_inv_menu_item as int))
        .push(json::num("max_party_member_index"@, g.max_party_member_index as int))
        .push(json::member("scene_info"@, scene_info_text(e)));
    m
}

/// What comes next: where the party can walk.
pub open spec fn state_walk(m: Seq<Seq<char>>, e: &Engine, noted: Option<SceneExitTransit>) -> Seq<Seq<char>> {
    let g = e.globals;
    let player = player_of(e);
    let snap = reach::grid_snap(player);
    let cells = cells_of(e);
    let zones = zones::zones_in(e);
    let m = m
        .push(json::member("walk"@, walk_text(e, player)));
    let m = if !reach::on_grid(player) {
        let m = m
            .push(json::member("walk_from_snap"@, walk_text(e, snap)));
        m
    } else {
        m
    };
    let m = m
        .push(json::string("facing_note"@, "A walk dir that is false still changes facing if pressed; true both faces and steps. Use face / need_face only when in_search_range; otherwise use best_spot / search_spots (not approach_dir alone — that only points at the body)."@))
        .push(json::num("walk_span"@, cells.len() as int));
    let m = m.push(zones::step_touch(player, walk_facts(e, player), zones));
    let m = m.push(json::member("in_touch_now"@, json::array(zones::zones_around(player, zones, zones.len() as int))));
    let m = zones::transit_members(m, noted, g.num_scene, g.entering_scene);
    let m = stuck_members(m, e, player, cells);
    m
}

/// What comes last: the scene, a battle, and what can be asked and done.
pub open spec fn state_tail(m: Seq<Seq<char>>, e: &Engine) -> Seq<Seq<char>> {
    let player = player_of(e);
    let cells = cells_of(e);
    let safe = safe_cells_of(e);
    let exits = zones::exits_in(e, e.globals.num_scene);
    let m = m
        .push(json::member("map"@, agent_map::map_text(e, player, cells, safe, exits)))
        .push(json::member("events"@, agent_map::events_text(e, player, cells, safe, exits)))
        .push(json::member("battle"@, battle_or_null(e)));
    let m = m.push("\"resources\":{\"party\":\"/v1/party\",\"inventory\":\"/v1/inventory\",\"obstacles\":\"/v1/obstacles\"}"@);
    let m = m.push("\"actions\":[\"up\",\"down\",\"left\",\"right\",\"confirm\",\"space\",\"menu\",\"force\",\"auto\",\"defend\",\"use_item\",\"throw_item\",\"flee\",\"status\",\"repeat\",\"page_up\",\"page_down\",\"home\",\"end\"]"@);
    m
}

/// The exit that is remembered once the state has been told.
pub open spec fn exit_noted(e: &Engine, last: Option<SceneExitTransit>) -> Option<SceneExitTransit> {
    zones::noted_exit(
        last,
        e.globals.num_scene,
        e.globals.entering_scene,
        player_of(e),
        zones::exits_in(e, e.globals.num_scene),
    )
}

/// The whole game as text.
pub open spec fn state_text(e: &Engine, facts: DriverFacts, last: Option<SceneExitTransit>) -> Seq<char> {
    agent_party::answer(
        state_tail(state_walk(state_game(state_head(e, facts), e, facts), e, exit_noted(e, last)), e),
    )
}

fn push_head(engine: &Engine, facts: &DriverFacts, player: Pos, snap: Pos) -> (m: Members)
    requires
        player == player_of(engine),
        snap == reach::grid_snap(player),
    ensures
        m.wf(),
        m@ == state_head(engine, *facts),
{
    let g: &Globals = &engine.globals;
    let on_grid: bool = reach::is_iso_grid(player);
    let phase: Phase = current_phase(engine);
    let in_menu: bool = has_menu(engine);
    let awaiting: bool = in_menu || has_dialog(&engine.ui) || !g.in_main_game;
    let stage: Option<&'static str> = if g.in_main_game {
        None
    } else if in_menu {
        Some("title_menu")
    } else {
        Some("intro")
    };
    let in_battle: bool = g.in_battle || engine.battle.is_some();
    let mut m: Members = agent_party::start_answer(facts.frame_id);
    m.flag("step_mode", facts.step_mode);
    m.flag("step_gating", facts.step_mode);
    m.flag("step_configured", facts.step_configured);
    m.num("ticks", facts.ticks);
    m.num("frame_num", g.frame_num as u64);
    m.string("phase", phase.name());
    m.flag("awaiting_input", awaiting);
    match stage {
        Some(s) => {
            m.string("boot_stage", s);
        },
        None => {},
    }
    m.num("scene", g.num_scene as u64);
    m.pair("viewport", g.viewport.0 as i64, g.viewport.1 as i64);
    m.pair("player", player.0, player.1);
    m.flag("on_grid", on_grid);
    if !on_grid {
        m.pair("grid_snap", snap.0, snap.1);
    }
    m.num("party_direction", g.party_direction as u64);
    m.string("facing", search::dir_to_key(g.party_direction));
    m.flag("in_main_game", g.in_main_game);
    m.flag("entering_scene", g.entering_scene);
    m.flag("need_to_fade_in", g.need_to_fade_in);
    m.flag("in_battle", in_battle);
    m.flag("auto_battle", g.auto_battle);
    m
}

fn push_game(m: &mut Members, engine: &Engine, facts: &DriverFacts)
    requires
        old(m).wf(),
    ensures
        final(m).wf(),
        final(m)@ == state_game(old(m)@, engine, *facts),
{
    let g: &Globals = &engine.globals;
    let dialog: String = dialog_json(&engine.ui);
    let menu: String = open_menu_json(engine);
    let info: String = scene_info_json(engine);
    m.member("dialog", dialog.as_str());
    m.member("menu", menu.as_str());
    m.flag("quit_requested", engine.quit_requested);
    m.num("cash", g.cash as u64);
    m.num("collect_value", g.collect_value as u64);
    m.num("current_save_slot", g.current_save_slot as u64);
    m.num("playtime_secs", facts.playtime_secs);
    m.num("palette", g.num_palette as u64);
    m.flag("night_palette", g.night_palette);
    m.num("music", g.num_music as u64);
    m.num("battle_music", g.num_battle_music as u64);
    m.num("battle_field", g.num_battle_field as u64);
    m.signed("cur_main_menu_item", g.cur_main_menu_item as i64);
    m.signed("cur_system_menu_item", g.cur_system_menu_item as i64);
    m.signed("cur_inv_menu_item", g.cur_inv_menu_item as i64);
    m.num("max_party_member_index", g.max_party_member_index as u64);
    m.member("scene_info", info.as_str());
}

fn push_walk(
    m: &mut Members,
    engine: &Engine,
    player: Pos,
    snap: Pos,
    reach: &Reachability,
    last_exit: Option<SceneExitTransit>,
)
    requires
        old(m).wf(),
        engine.res.wf(),
        player == player_of(engine),
        snap == reach::grid_snap(player),
        geometry::central(player),
        geometry::central(snap),
        reach@ == cells_of(engine),
        reach.wf(),
        reach::all_inland(reach@),
    ensures
        final(m).wf(),
        final(m)@ == state_walk(old(m)@, engine, last_exit),
{
    let g: &Globals = &engine.globals;
    let on_grid: bool = reach::is_iso_grid(player);
    let phase: Phase = current_phase(engine);
    let walk: [bool; 4] = reach::compute_walk(engine, player);
    let walk_snap: [bool; 4] = if on_grid {
        walk
    } else {
        reach::compute_walk(engine, snap)
    };
    let zones: Vec<TouchZone> = zones::collect_touch_zones(engine);
    let here: String = walk_json(&walk);
    let there: String = walk_json(&walk_snap);
    assert(walk@ =~= walk_facts(engine, player));
    assert(walk@[0] == engine.can_step(player, 0) && walk@[1] == engine.can_step(player, 1));
    assert(walk@[2] == engine.can_step(player, 2) && walk@[3] == engine.can_step(player, 3));
    assert(!on_grid ==> walk_snap@[0] == engine.can_step(snap, 0) && walk_snap@[1] == engine.can_step(snap, 1));
    assert(!on_grid ==> walk_snap@[2] == engine.can_step(snap, 2) && walk_snap@[3] == engine.can_step(snap, 3));
    m.member("walk", here.as_str());
    if !on_grid {
        m.member("walk_from_snap", there.as_str());
    }
    m.string("facing_note", "A walk dir that is false still changes facing if pressed; true both faces and steps. Use face / need_face only when in_search_range; otherwise use best_spot / search_spots (not approach_dir alone — that only points at the body).");
    m.num("walk_span", reach.steps.len() as u64);
    zones::append_step_touch(m, player, &walk, zones.as_slice());
    zones::append_in_touch_now(m, player, zones.as_slice());
    zones::append_scene_exit_transit(m, last_exit, g.num_scene, g.entering_scene);
    append_walk_stuck(m, engine, player, &walk, &walk_snap, snap, phase, reach);
}

fn push_tail(
    m: &mut Members,
    engine: &Engine,
    player: Pos,
    reach: &Reachability,
    reach_safe: &Reachability,
    scene_exits: &Vec<SceneExit>,
)
    requires
        old(m).wf(),
        engine.res.wf(),
        player == player_of(engine),
        geometry::central(player),
        reach@ == cells_of(engine),
        reach_safe@ == safe_cells_of(engine),
        reach::all_inland(reach@),
        reach::all_inland(reach_safe@),
        scene_exits@ == zones::exits_in(engine, engine.globals.num_scene),
        zones::exits_placed(scene_exits@),
        engine.battle is Some ==> agent_battle::fighters_known(engine),
    ensures
        final(m).wf(),
        final(m)@ == state_tail(old(m)@, engine),
{
    let map: String = agent_map::map_json(engine, player, reach, reach_safe, scene_exits.as_slice());
    let events: String = agent_map::build_events_json(engine, player, reach, reach_safe, scene_exits.as_slice());
    let battle: String = match &engine.battle {
        Some(b) => agent_battle::battle_json(engine, b),
        None => null(),
    };
    m.member("map", map.as_str());
    m.member("events", events.as_str());
    m.member("battle", battle.as_str());
    m.put("\"resources\":{\"party\":\"/v1/party\",\"inventory\":\"/v1/inventory\",\"obstacles\":\"/v1/obstacles\"}");
    m.put("\"actions\":[\"up\",\"down\",\"left\",\"right\",\"confirm\",\"space\",\"menu\",\"force\",\"auto\",\"defend\",\"use_item\",\"throw_item\",\"flee\",\"status\",\"repeat\",\"page_up\",\"page_down\",\"home\",\"end\"]");
}

/// Tell the whole game, and remember the exit that the party stands in.
pub fn build_state_json(engine: &Engine, facts: &DriverFacts, last_exit: &mut Option<SceneExitTransit>) -> (s: String)
    requires
        engine.wf(),
        engine.battle is Some ==> agent_battle::fighters_known(engine),
    ensures
        s@ == state_text(engine, *facts, *old(last_exit)),
        *final(last_exit) == exit_noted(engine, *old(last_exit)),
{
    let g: &Globals = &engine.globals;
    let player: Pos = (
        g.viewport.0 as i64 + g.partyoffset.0 as i64,
        g.viewport.1 as i64 + g.partyoffset.1 as i64,
    );
    let snap: Pos = reach::nearest_iso_grid(player);
    proof {
        reach::law_grid_snap_is_near(player);
    }
    let start: Pos = if reach::is_iso_grid(player) {
        player
    } else {
        snap
    };
    let reach: Reachability = reach::compute_reachable(engine, start, reach::REACH_MAX_NODES, None);
    let scene_exits: Vec<SceneExit> = zones::collect_scene_exits(engine);
    let exit_hazards: Vec<Pos> = zones::scene_exit_hazard_cells(scene_exits.as_slice());
    let reach_safe: Reachability = reach::compute_reachable(
        engine,
        start,
        reach::REACH_MAX_NODES,
        Some(&exit_hazards),
    );
    zones::note_scene_exit_touch(last_exit, g.num_scene, g.entering_scene, player, scene_exits.as_slice());
    let mut m: Members = push_head(engine, facts, player, snap);
    push_game(&mut m, engine, facts);
    push_walk(&mut m, engine, player, snap, &reach, *last_exit);
    push_tail(&mut m, engine, player, &reach, &reach_safe, &scene_exits);
    agent_party::finish_answer(m)
}

/// Half-tile number `n` of a map, row by row.
pub open spec fn half_tile(n: int) -> (int, int, int) {
    ((n / 2) % 64, n / 128, n % 2)
}

/// The first 8000 of the first `n` half-tiles that block the way.
pub open spec fn blocked_tiles(m: &TileMap, n: int) -> Seq<Seq<char>>
    decreases n,
{
    if n <= 0 {
        Seq::empty()
    } else {
        let before = blocked_tiles(m, n - 1);
        let (x, y, h) = half_tile(n - 1);
        if m.blocked(x, y, h) && before.len() < 8000 {
            before.push(
                json::array(
                    Seq::<Seq<char>>::empty()
                        .push(text::signed_decimal(x))
                        .push(text::signed_decimal(y))
                        .push(text::signed_decimal(h)),
                ),
            )
        } else {
            before
        }
    }
}

/// The half-tiles of the map that block the way.
pub open spec fn tiles_text(e: &Engine) -> Seq<char> {
    json::array(
        match e.res.map {
            Some(m) => blocked_tiles(&m, 16384),
            None => Seq::empty(),
        },
    )
}

/// The half-tiles of the map that block the way.
pub fn sparse_blocked_tiles_json(engine: &Engine) -> (s: String)
    requires
        engine.res.wf(),
    ensures
        s@ == tiles_text(engine),
{
    let mut list: Members = Members::new();
    match &engine.res.map {
        Some(map) => {
            let mut count: usize = 0;
            for n in 0..16384usize
                invariant
                    map.wf(),
                    list.wf(),
                    list@ == blocked_tiles(map, n as int),
                    count == list@.len(),
                    count <= 8000,
            {
                let x: u8 = ((n / 2) % 64) as u8;
                let y: u8 = (n / 128) as u8;
                let h: u8 = (n % 2) as u8;
                if map.tile_is_blocked(x, y, h) && count < 8000 {
                    let mut t: Members = Members::new();
                    t.value(x as i64);
                    t.value(y as i64);
                    t.value(h as i64);
                    let t: String = t.into_array();
                    list.put(t.as_str());
                    count = count + 1;
                }
            }
        },
        None => {},
    }
    list.into_array()
}

/// The members of the answer that lists the obstacles.
pub open spec fn obstacle_members(e: &Engine, frame_id: u64) -> Seq<Seq<char>> {
    let m = agent_party::answer_head(frame_id)
        .push(json::num("width"@, 64))
        .push(json::num("height"@, 128))
        .push(json::num("half"@, 2))
        .push(json::string("format"@, "sparse_tiles"@))
        .push(json::member("tiles"@, tiles_text(e)))
        .push(json::member("event_blockers"@, agent_map::blockers_text(e)))
        .push(json::string("tile_note"@, "tiles are blocked half-cells [x,y,h] (x:0..63 y:0..127 h:0|1). world≈(x*32+h*16, y*16+h*8) is approximate. Prefer walk_reachable on /v1/state (engine collision)."@));
    m
}

/// The answer that lists the obstacles.
pub fn build_obstacles_json(engine: &Engine, frame_id: u64) -> (s: String)
    requires
        engine.res.wf(),
    ensures
        s@ == agent_party::answer(obstacle_members(engine, frame_id)),
{
    let tiles: String = sparse_blocked_tiles_json(engine);
    let blockers: String = agent_map::event_blockers_json(engine);
    let mut m: Members = agent_party::start_answer(frame_id);
    m.num("width", 64);
    m.num("height", 128);
    m.num("half", 2);
    m.string("format", "sparse_tiles");
    m.member("tiles", tiles.as_str());
    m.member("event_blockers", blockers.as_str());
    m.string("tile_note", "tiles are blocked half-cells [x,y,h] (x:0..63 y:0..127 h:0|1). world≈(x*32+h*16, y*16+h*8) is approximate. Prefer walk_reachable on /v1/state (engine collision).");
    agent_party::finish_answer(m)
}

/// What the game is doing: before it starts, the title menu or the way there;
/// then a battle counts before talk, talk before menus, menus before the change
/// of scene, and else the party walks.
pub proof fn law_phases_have_an_order(e: &Engine)
    ensures
        ({
            let battle = e.globals.in_battle || e.battle is Some;
            let talk = e.ui.in_dialog || e.ui.current_dialog_line > 0 || e.ui.agent_dialog_lines@.len() > 0
                || e.ui.agent_dialog_speaker@.len() > 0;
            let menu = e.ui.agent_menu is Some || (e.battle is Some && (e.battle->0).ui.state == BattleUiState::SelectMove);
            let main = e.globals.in_main_game;
            &&& phase_of(e) == Phase::TitleMenu <==> !main && menu
            &&& phase_of(e) == Phase::Boot <==> !main && !menu
            &&& phase_of(e) == Phase::Battle <==> main && battle
            &&& phase_of(e) == Phase::Dialog <==> main && !battle && talk
            &&& phase_of(e) == Phase::Menu <==> main && !battle && !talk && menu
            &&& phase_of(e) == Phase::SceneTransition <==> main && !battle && !talk && !menu && e.globals.entering_scene
            &&& phase_of(e) == Phase::Overworld <==> main && !battle && !talk && !menu && !e.globals.entering_scene
            &&& awaits_input(e) <==> menu || talk || !main
        }),
{
}

/// The phases have names.
pub proof fn law_phases_have_names()
    ensures
        Phase::TitleMenu.text() == "title_menu"@,
        Phase::Boot.text() == "boot"@,
        Phase::Battle.text() == "battle"@,
        Phase::Dialog.text() == "dialog"@,
        Phase::Menu.text() == "menu"@,
        Phase::SceneTransition.text() == "scene_transition"@,
        Phase::Overworld.text() == "overworld"@,
{
}

/// Why the party cannot walk: because of what the game is doing, because it
/// stands beside the grid, or because there is no way; there is no reason
/// exactly if it can.
pub proof fn law_walking_needs_a_way(phase: Phase, entering: bool, any: bool, on_grid: bool)
    ensures
        walk_reason(phase, entering, any, on_grid) is None <==> phase == Phase::Overworld && !entering && any && on_grid,
        phase == Phase::Battle || phase == Phase::Dialog || phase == Phase::Menu || phase == Phase::Boot || phase
            == Phase::TitleMenu ==> walk_reason(phase, entering, any, on_grid) == Some(phase.text()),
        phase == Phase::SceneTransition ==> walk_reason(phase, entering, any, on_grid) == Some("scene_transition"@),
        phase == Phase::Overworld && !entering && !on_grid ==> walk_reason(phase, entering, any, on_grid) == Some("off_grid"@),
        phase == Phase::Overworld && !entering && on_grid && !any ==> walk_reason(phase, entering, any, on_grid) == Some(
            "cornered"@,
        ),
{
}

/// The number of event objects of a scene is how many stand between its start
/// and that of the next scene, or the end of the table.
pub proof fn law_events_are_counted(e: &Engine, scene: u16)
    requires
        1 <= scene <= e.globals.game.scenes@.len(),
    ensures
        ({
            let s = e.globals.game.scenes@;
            let start = s[scene - 1].event_object_index as int;
            &&& scene < s.len() && start <= s[scene as int].event_object_index ==> start + event_count_of(e, scene)
                == s[scene as int].event_object_index
            &&& scene == s.len() && start <= e.globals.game.event_objects@.len() ==> start + event_count_of(e, scene)
                == e.globals.game.event_objects@.len()
            &&& event_count_of(e, scene) >= 0
        }),
{
}

/// The lines of a dialog stand one below the other.
pub proof fn law_lines_stand_below_each_other(lines: Seq<String>, n: int)
    requires
        0 < n < lines.len(),
    ensures
        lines_text(lines, 0).len() == 0,
        lines_text(lines, 1) == lines[0]@,
        lines_text(lines, n + 1) == lines_text(lines, n) + "\n"@ + lines[n]@,
{
    reveal_strlit("\n");
    assert(lines_text(lines, n + 1) =~= lines_text(lines, n) + "\n"@ + lines[n]@);
}

/// Every place of the trail is noted once. A place to go back to is on the grid,
/// not where the party stands, and leaves two ways, or one as a makeshift; there
/// is none only if no place that was noted is such.
pub proof fn law_trail_scan(e: &Engine, player: Pos, n: int)
    requires
        0 <= n <= 5,
    ensures
        ({
            let scan = trail_scan(e, player, n);
            &&& forall|i: int, j: int| 0 <= i < j < scan.seen.len() ==> scan.seen[i] != scan.seen[j]
            &&& forall|k: int|
                0 <= k < n && !((#[trigger] e.globals.trail@[k]).x == 0 && e.globals.trail@[k].y == 0) ==> scan.seen.contains(
                    (e.globals.trail@[k].x as i64, e.globals.trail@[k].y as i64),
                )
            &&& scan.safe matches Some(p) ==> p != player && p.0 % 16 == 0 && p.1 % 8 == 0 && e.free_steps(p) >= 2
            &&& scan.fallback matches Some(p) ==> p != player && p.0 % 16 == 0 && p.1 % 8 == 0 && e.free_steps(p) >= 1
            &&& scan.safe is None ==> forall|k: int|
                0 <= k < scan.seen.len() ==> !((#[trigger] scan.seen[k]) != player && scan.seen[k].0 % 16 == 0 && scan.seen[k].1 % 8
                    == 0 && e.free_steps(scan.seen[k]) >= 2)
        }),
    decreases n,
{
    if n > 0 {
        law_trail_scan(e, player, n - 1);
        let before = trail_scan(e, player, n - 1);
        let scan = trail_scan(e, player, n);
        let t = e.globals.trail@[n - 1];
        let p = (t.x as i64, t.y as i64);
        if !(t.x == 0 && t.y == 0 || before.seen.contains(p)) {
            assert(scan.seen == before.seen.push(p));
            assert forall|k: int|
                0 <= k < n && !((#[trigger] e.globals.trail@[k]).x == 0 && e.globals.trail@[k].y == 0) implies scan.seen.contains(
                (e.globals.trail@[k].x as i64, e.globals.trail@[k].y as i64),
            ) by {
                if k < n - 1 {
                    let q = (e.globals.trail@[k].x as i64, e.globals.trail@[k].y as i64);
                    assert(before.seen.contains(q));
                    let m = choose|m: int| 0 <= m < before.seen.len() && before.seen[m] == q;
                    assert(scan.seen[m] == q);
                } else {
                    assert(scan.seen[before.seen.len() as int] == p);
                }
            }
            assert forall|i: int, j: int| 0 <= i < j < scan.seen.len() implies scan.seen[i] != scan.seen[j] by {
                assert(scan.seen[i] == before.seen[i]);
                if j < before.seen.len() {
                    assert(scan.seen[j] == before.seen[j]);
                }
            }
        }
    }
}

/// Where the party could walk on: a place of the trail that leaves two ways,
/// else one that leaves one, else a cell nearby.
pub proof fn law_last_safe_prefers_the_trail(e: &Engine, player: Pos, snap: Pos, cells: Seq<(Pos, u16)>)
    ensures
        ({
            let scan = trail_scan(e, player, 5);
            &&& scan.safe is Some ==> last_safe(e, player, snap, cells) == scan.safe
            &&& scan.safe is None && scan.fallback is Some ==> last_safe(e, player, snap, cells) == scan.fallback
            &&& any_step(e, player) <==> e.free_steps(player) > 0
        }),
{
}

/// Where the party stands: where it is on the screen, seen from the corner of
/// the view. The search for reachable cells starts there, or beside it on the
/// grid.
pub proof fn law_player_stands_on_the_screen(e: &Engine)
    ensures
        player_of(e).0 - e.globals.viewport.0 == e.globals.partyoffset.0,
        player_of(e).1 - e.globals.viewport.1 == e.globals.partyoffset.1,
        player_of(e).0 % 16 == 0 && player_of(e).1 % 8 == 0 ==> reach_start(e) == player_of(e),
        reach_start(e).0 % 16 == 0 && reach_start(e).1 % 8 == 0,
        vstd::math::abs(reach_start(e).0 - player_of(e).0) <= 8,
        vstd::math::abs(reach_start(e).1 - player_of(e).1) <= 4,
{
    reach::law_grid_snap_is_near(player_of(e));
}

/// In which directions the party could step is told for each of them.
pub proof fn law_steps_are_told(e: &Engine, p: Pos)
    ensures
        walk_text(e, p) == json::object(
            seq![
                json::flag("up"@, e.can_step(p, 0)),
                json::flag("right"@, e.can_step(p, 1)),
                json::flag("down"@, e.can_step(p, 2)),
                json::flag("left"@, e.can_step(p, 3)),
            ],
        ),
        forall|d: int| 0 <= d < 4 ==> #[trigger] walk_facts(e, p)[d] == e.can_step(p, d),
{
    let m = Seq::<Seq<char>>::empty()
        .push(json::flag("up"@, e.can_step(p, 0)))
        .push(json::flag("right"@, e.can_step(p, 1)))
        .push(json::flag("down"@, e.can_step(p, 2)))
        .push(json::flag("left"@, e.can_step(p, 3)));
    assert(m =~= seq![
        json::flag("up"@, e.can_step(p, 0)),
        json::flag("right"@, e.can_step(p, 1)),
        json::flag("down"@, e.can_step(p, 2)),
        json::flag("left"@, e.can_step(p, 3)),
    ]);
}

} // verus!
