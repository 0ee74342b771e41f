//! Battles and menus as JSON text.

use vstd::prelude::*;

use crate::agent_party;
use crate::battle::{
    Battle, BattleEnemy, BattleMenuState, BattlePhase, BattlePlayer, BattleResult, BattleUiState, FighterState,
};
use crate::engine::Engine;
use crate::json;
use crate::json::Members;
use crate::roles::PlayerRoles;
use crate::script;
use crate::ui::AgentMenuItem;

verus! {

/// The name of a phase of a battle.
pub open spec fn battle_phase_text(v: BattlePhase) -> Seq<char> {
    match v {
        BattlePhase::SelectAction => "select_action"@,
        BattlePhase::PerformAction => "perform_action"@,
    }
}

/// The name of a phase of a battle.
pub fn battle_phase_name(v: BattlePhase) -> (s: &'static str)
    ensures
        s@ == battle_phase_text(v),
{
    match v {
        BattlePhase::SelectAction => "select_action",
        BattlePhase::PerformAction => "perform_action",
    }
}

/// The name of what a battle asks for.
pub open spec fn battle_ui_state_text(v: BattleUiState) -> Seq<char> {
    match v {
        BattleUiState::Wait => "wait"@,
        BattleUiState::SelectMove => "select_move"@,
        BattleUiState::SelectTargetEnemy => "select_target_enemy"@,
        BattleUiState::SelectTargetPlayer => "select_target_player"@,
        BattleUiState::SelectTargetEnemyAll => "select_target_enemy_all"@,
        BattleUiState::SelectTargetPlayerAll => "select_target_player_all"@,
    }
}

/// The name of what a battle asks for.
pub fn battle_ui_state_name(v: BattleUiState) -> (s: &'static str)
    ensures
        s@ == battle_ui_state_text(v),
{
    match v {
        BattleUiState::Wait => "wait",
        BattleUiState::SelectMove => "select_move",
        BattleUiState::SelectTargetEnemy => "select_target_enemy",
        BattleUiState::SelectTargetPlayer => "select_target_player",
        BattleUiState::SelectTargetEnemyAll => "select_target_enemy_all",
        BattleUiState::SelectTargetPlayerAll => "select_target_player_all",
    }
}

/// The name of a battle menu.
pub open spec fn battle_menu_state_text(v: BattleMenuState) -> Seq<char> {
    match v {
        BattleMenuState::Main => "main"@,
        BattleMenuState::MagicSelect => "magic_select"@,
        BattleMenuState::UseItemSelect => "use_item_select"@,
        BattleMenuState::ThrowItemSelect => "throw_item_select"@,
        BattleMenuState::Misc => "misc"@,
        BattleMenuState::MiscItemSubMenu => "misc_item_sub"@,
    }
}

/// The name of a battle menu.
pub fn battle_menu_state_name(v: BattleMenuState) -> (s: &'static str)
    ensures
        s@ == battle_menu_state_text(v),
{
    match v {
        BattleMenuState::Main => "main",
        BattleMenuState::MagicSelect => "magic_select",
        BattleMenuState::UseItemSelect => "use_item_select",
        BattleMenuState::ThrowItemSelect => "throw_item_select",
        BattleMenuState::Misc => "misc",
        BattleMenuState::MiscItemSubMenu => "misc_item_sub",
    }
}

/// The name of the outcome of a battle.
pub open spec fn battle_result_text(v: BattleResult) -> Seq<char> {
    match v {
        BattleResult::Won => "won"@,
        BattleResult::Lost => "lost"@,
        BattleResult::Fleed => "fleed"@,
        BattleResult::Terminated => "terminated"@,
        BattleResult::OnGoing => "ongoing"@,
        BattleResult::PreBattle => "pre_battle"@,
        BattleResult::Pause => "pause"@,
    }
}

/// The name of the outcome of a battle.
pub fn battle_result_name(v: BattleResult) -> (s: &'static str)
    ensures
        s@ == battle_result_text(v),
{
    match v {
        BattleResult::Won => "won",
        BattleResult::Lost => "lost",
        BattleResult::Fleed => "fleed",
        BattleResult::Terminated => "terminated",
        BattleResult::OnGoing => "ongoing",
        BattleResult::PreBattle => "pre_battle",
        BattleResult::Pause => "pause",
    }
}

/// The name of what a fighter is doing.
pub open spec fn fighter_state_text(v: FighterState) -> Seq<char> {
    match v {
        FighterState::Wait => "wait"@,
        FighterState::Com => "com"@,
        FighterState::Act => "act"@,
    }
}

/// The name of what a fighter is doing.
pub fn fighter_state_name(v: FighterState) -> (s: &'static str)
    ensures
        s@ == fighter_state_text(v),
{
    match v {
        FighterState::Wait => "wait",
        FighterState::Com => "com",
        FighterState::Act => "act",
    }
}

/// An enemy is to be chosen.
pub open spec fn selects_enemy(s: BattleUiState) -> bool {
    s == BattleUiState::SelectTargetEnemy || s == BattleUiState::SelectTargetEnemyAll
}

/// A party member is to be chosen.
pub open spec fn selects_player(s: BattleUiState) -> bool {
    s == BattleUiState::SelectTargetPlayer || s == BattleUiState::SelectTargetPlayerAll
}

/// The target that is being chosen.
pub open spec fn target_text(b: &Battle) -> Seq<char> {
    let m = Seq::<Seq<char>>::empty()
        .push(json::string("side"@, if selects_enemy(b.ui.state) { "enemy"@ } else { "player"@ }))
        .push(json::num("index"@, b.ui.selected_index as int))
        .push(json::flag("all"@, b.ui.state == BattleUiState::SelectTargetEnemyAll || b.ui.state == BattleUiState::SelectTargetPlayerAll));
    json::object(m)
}

pub open spec fn larger(a: u16, b: u16) -> u16 {
    if a >= b {
        a
    } else {
        b
    }
}

/// The most health that an enemy is known to have had.
pub open spec fn enemy_max_hp(e: &Engine, f: BattleEnemy) -> int {
    let objects = e.globals.game.objects@;
    let enemies = e.globals.game.enemies@;
    let id = if f.object_id < objects.len() { objects[f.object_id as int].data@[0] as int } else { 0 };
    let usual = if id < enemies.len() { enemies[id].health } else { f.e.health };
    larger(larger(usual, f.e.health), f.prev_hp) as int
}

/// Enemy `i` as text.
pub open spec fn enemy_text(e: &Engine, b: &Battle, i: int) -> Seq<char> {
    let f = b.enemy@[i];
    let m = Seq::<Seq<char>>::empty()
        .push(json::num("index"@, i))
        .push(json::num("object_id"@, f.object_id as int))
        .push(json::string("name"@, script::named(&e.texts, f.object_id as int)))
        .push(json::num("hp"@, f.e.health as int))
        .push(json::num("max_hp"@, enemy_max_hp(e, f)))
        .push(json::num("level"@, f.e.level as int))
        .push(json::num("attack"@, f.e.attack_strength as int))
        .push(json::num("defense"@, f.e.defense as int))
        .push(json::string("state"@, fighter_state_text(f.state)))
        .push(json::member("time_meter"@, f.time_meter@))
        .push(json::pair("pos"@, f.pos.0 as int, f.pos.1 as int));
    let m = if selects_enemy(b.ui.state) && b.ui.selected_index == i {
        let m = m
            .push(json::flag("selected"@, true));
        m
    } else {
        m
    };
    let m = agent_party::status_members(m, f.status@);
    json::object(m)
}

/// The enemies among the first `n` that are there.
pub open spec fn enemy_list(e: &Engine, b: &Battle, n: int) -> Seq<Seq<char>>
    decreases n,
{
    if n <= 0 {
        Seq::empty()
    } else if b.enemy@[n - 1].object_id == 0 {
        enemy_list(e, b, n - 1)
    } else {
        enemy_list(e, b, n - 1).push(enemy_text(e, b, n - 1))
    }
}

/// The number of places for enemies.
pub open spec fn enemy_count(b: &Battle) -> int {
    if b.max_enemy_index < 5 {
        b.max_enemy_index + 1
    } else {
        5
    }
}

/// Party member `i` in a battle, as text.
pub open spec fn player_text(e: &Engine, b: &Battle, i: int) -> Seq<char> {
    let p = b.player@[i];
    let roles = e.globals.game.player_roles;
    let role = e.globals.party@[i].player_role as int;
    let m = Seq::<Seq<char>>::empty()
        .push(json::num("slot"@, i))
        .push(json::num("role"@, role))
        .push(json::string("name"@, script::named(&e.texts, roles.name@[role] as int)))
        .push(json::num("hp"@, roles.hp@[role] as int))
        .push(json::num("max_hp"@, roles.max_hp@[role] as int))
        .push(json::num("mp"@, roles.mp@[role] as int))
        .push(json::num("max_mp"@, roles.max_mp@[role] as int))
        .push(json::string("state"@, fighter_state_text(p.state)))
        .push(json::member("time_meter"@, p.time_meter@))
        .push(json::flag("defending"@, p.defending));
    let m = if selects_player(b.ui.state) && b.ui.selected_index == i {
        let m = m
            .push(json::flag("selected"@, true));
        m
    } else {
        m
    };
    let m = if b.ui.cur_player_index == i && b.phase == BattlePhase::SelectAction {
        let m = m
            .push(json::flag("acting"@, true));
        m
    } else {
        m
    };
    let m = agent_party::status_members(m, e.globals.player_status@[role]@);
    json::object(m)
}

/// The first `n` party members in a battle.
pub open spec fn player_list(e: &Engine, b: &Battle, n: int) -> Seq<Seq<char>>
    decreases n,
{
    if n <= 0 {
        Seq::empty()
    } else {
        player_list(e, b, n - 1).push(player_text(e, b, n - 1))
    }
}

/// The number of party members that fight.
pub open spec fn player_count(e: &Engine) -> int {
    if e.globals.max_party_member_index < 3 {
        e.globals.max_party_member_index + 1
    } else {
        3
    }
}

/// Those who fight play known roles.
pub open spec fn fighters_known(e: &Engine) -> bool {
    forall|i: int| 0 <= i < player_count(e) ==> (#[trigger] e.globals.party@[i]).player_role < 6
}

/// A battle as text.
pub open spec fn battle_text(e: &Engine, b: &Battle) -> Seq<char> {
    let m = Seq::<Seq<char>>::empty()
        .push(json::string("phase"@, battle_phase_text(b.phase)))
        .push(json::string("ui_state"@, battle_ui_state_text(b.ui.state)))
        .push(json::string("menu_state"@, battle_menu_state_text(b.ui.menu_state)))
        .push(json::num("cur_player_index"@, b.ui.cur_player_index as int))
        .push(json::num("selected_action"@, b.ui.selected_action as int))
        .push(json::num("selected_index"@, b.ui.selected_index as int))
        .push(json::flag("auto_attack"@, b.ui.auto_attack))
        .push(json::flag("force"@, b.force))
        .push(json::flag("flee"@, b.flee))
        .push(json::flag("is_boss"@, b.is_boss))
        .push(json::flag("enemy_cleared"@, b.enemy_cleared))
        .push(json::string("result"@, battle_result_text(b.battle_result)))
        .push(json::num("exp_gained"@, b.exp_gained as int))
        .push(json::num("cash_gained"@, b.cash_gained as int))
        .push(json::num("max_enemy_index"@, b.max_enemy_index as int))
        .push(json::string("msg"@, b.ui.msg@));
    let m = if selects_enemy(b.ui.state) || selects_player(b.ui.state) {
        let m = m
            .push(json::member("target"@, target_text(b)));
        m
    } else {
        m
    };
    let m = m
        .push(json::member("enemies"@, json::array(enemy_list(e, b, enemy_count(b)))))
        .push(json::member("players"@, json::array(player_list(e, b, player_count(e)))));
    json::object(m)
}

fn enemy_json(engine: &Engine, b: &Battle, i: usize) -> (s: String)
    requires
        i < 5,
    ensures
        s@ == enemy_text(engine, b, i as int),
{
    let f: &BattleEnemy = &b.enemy[i];
    let id: usize = if (f.object_id as usize) < engine.globals.game.objects.len() {
        engine.globals.game.objects[f.object_id as usize].enemy_id() as usize
    } else {
        0
    };
    let usual: u16 = if id < engine.globals.game.enemies.len() {
        engine.globals.game.enemies[id].health
    } else {
        f.e.health
    };
    let most: u16 = if usual >= f.e.health {
        usual
    } else {
        f.e.health
    };
    let max_hp: u16 = if most >= f.prev_hp {
        most
    } else {
        f.prev_hp
    };
    let target_enemy: bool = b.ui.state == BattleUiState::SelectTargetEnemy || b.ui.state
        == BattleUiState::SelectTargetEnemyAll;
    let selected: bool = target_enemy && b.ui.selected_index == i as i32;
    let name: String = script::word_utf8(engine, f.object_id as usize);
    let mut m: Members = Members::new();
    m.num("index", i as u64);
    m.num("object_id", f.object_id as u64);
    m.string("name", name.as_str());
    m.num("hp", f.e.health as u64);
    m.num("max_hp", max_hp as u64);
    m.num("level", f.e.level as u64);
    m.num("attack", f.e.attack_strength as u64);
    m.num("defense", f.e.defense as u64);
    m.string("state", fighter_state_name(f.state));
    m.member("time_meter", f.time_meter.as_str());
    m.pair("pos", f.pos.0 as i64, f.pos.1 as i64);
    if selected {
        m.flag("selected", true);
    }
    agent_party::append_status(&mut m, &f.status);
    m.into_object()
}

fn player_json(engine: &Engine, b: &Battle, i: usize) -> (s: String)
    requires
        i < 3,
        engine.globals.party@[i as int].player_role < 6,
    ensures
        s@ == player_text(engine, b, i as int),
{
    let p: &BattlePlayer = &b.player[i];
    let roles: &PlayerRoles = &engine.globals.game.player_roles;
    let role: usize = engine.globals.party[i].player_role as usize;
    let target_player: bool = b.ui.state == BattleUiState::SelectTargetPlayer || b.ui.state
        == BattleUiState::SelectTargetPlayerAll;
    let selected: bool = target_player && b.ui.selected_index == i as i32;
    let acting: bool = b.ui.cur_player_index as usize == i && b.phase == BattlePhase::SelectAction;
    let name: String = script::word_utf8(engine, roles.name[role] as usize);
    let mut m: Members = Members::new();
    m.num("slot", i as u64);
    m.num("role", role as u64);
    m.string("name", name.as_str());
    m.num("hp", roles.hp[role] as u64);
    m.num("max_hp", roles.max_hp[role] as u64);
    m.num("mp", roles.mp[role] as u64);
    m.num("max_mp", roles.max_mp[role] as u64);
    m.string("state", fighter_state_name(p.state));
    m.member("time_meter", p.time_meter.as_str());
    m.flag("defending", p.defending);
    if selected {
        m.flag("selected", true);
    }
    if acting {
        m.flag("acting", true);
    }
    agent_party::append_status(&mut m, &engine.globals.player_status[role]);
    m.into_object()
}

fn target_json(b: &Battle) -> (s: String)
    ensures
        s@ == target_text(b),
{
    let target_enemy: bool = b.ui.state == BattleUiState::SelectTargetEnemy || b.ui.state
        == BattleUiState::SelectTargetEnemyAll;
    let all: bool = b.ui.state == BattleUiState::SelectTargetEnemyAll || b.ui.state
        == BattleUiState::SelectTargetPlayerAll;
    let mut m: Members = Members::new();
    m.string("side", if target_enemy { "enemy" } else { "player" });
    m.signed("index", b.ui.selected_index as i64);
    m.flag("all", all);
    m.into_object()
}

fn enemies_json(engine: &Engine, b: &Battle) -> (s: String)
    ensures
        s@ == json::array(enemy_list(engine, b, enemy_count(b))),
{
    let n: usize = if b.max_enemy_index < 5 {
        b.max_enemy_index as usize + 1
    } else {
        5
    };
    let mut list: Members = Members::new();
    for i in 0..n
        invariant
            n <= 5,
            list.wf(),
            list@ == enemy_list(engine, b, i as int),
    {
        if b.enemy[i].object_id != 0 {
            let t: String = enemy_json(engine, b, i);
            list.put(t.as_str());
        }
    }
    list.into_array()
}

fn players_json(engine: &Engine, b: &Battle) -> (s: String)
    requires
        fighters_known(engine),
    ensures
        s@ == json::array(player_list(engine, b, player_count(engine))),
{
    let n: usize = if engine.globals.max_party_member_index < 3 {
        engine.globals.max_party_member_index as usize + 1
    } else {
        3
    };
    let mut list: Members = Members::new();
    for i in 0..n
        invariant
            n == player_count(engine),
            n <= 3,
            fighters_known(engine),
            list.wf(),
            list@ == player_list(engine, b, i as int),
    {
        assert(engine.globals.party@[i as int].player_role < 6);
        let t: String = player_json(engine, b, i);
        list.put(t.as_str());
    }
    list.into_array()
}

/// A battle as text.
pub fn battle_json(engine: &Engine, b: &Battle) -> (s: String)
    requires
        fighters_known(engine),
    ensures
        s@ == battle_text(engine, b),
{
    let target_enemy: bool = b.ui.state == BattleUiState::SelectTargetEnemy || b.ui.state
        == BattleUiState::SelectTargetEnemyAll;
    let target_player: bool = b.ui.state == BattleUiState::SelectTargetPlayer || b.ui.state
        == BattleUiState::SelectTargetPlayerAll;
    let target: String = target_json(b);
    let enemies: String = enemies_json(engine, b);
    let players: String = players_json(engine, b);
    let mut m: Members = Members::new();
    m.string("phase", battle_phase_name(b.phase));
    m.string("ui_state", battle_ui_state_name(b.ui.state));
    m.string("menu_state", battle_menu_state_name(b.ui.menu_state));
    m.num("cur_player_index", b.ui.cur_player_index as u64);
    m.num("selected_action", b.ui.selected_action as u64);
    m.signed("selected_index", b.ui.selected_index as i64);
    m.flag("auto_attack", b.ui.auto_attack);
    m.flag("force", b.force);
    m.flag("flee", b.flee);
    m.flag("is_boss", b.is_boss);
    m.flag("enemy_cleared", b.enemy_cleared);
    m.string("result", battle_result_name(b.battle_result));
    m.signed("exp_gained", b.exp_gained as i64);
    m.signed("cash_gained", b.cash_gained as i64);
    m.num("max_enemy_index", b.max_enemy_index as u64);
    m.string("msg", b.ui.msg.as_str());
    if target_enemy || target_player {
        m.member("target", target.as_str());
    }
    m.member("enemies", enemies.as_str());
    m.member("players", players.as_str());
    m.into_object()
}

/// What an entry of a menu stands for.
pub struct MenuEntry {
    pub value: int,
    pub label: Seq<char>,
    pub enabled: bool,
}

impl View for AgentMenuItem {
    type V = MenuEntry;

    open spec fn view(&self) -> MenuEntry {
        MenuEntry { value: self.value as int, label: self.label@, enabled: self.enabled }
    }
}

/// What a list of entries stands for.
pub open spec fn entries(items: Seq<AgentMenuItem>) -> Seq<MenuEntry> {
    Seq::new(items.len(), |i: int| items[i]@)
}

/// An entry of a menu as text.
pub open spec fn menu_item(it: MenuEntry) -> Seq<char> {
    let m = Seq::<Seq<char>>::empty()
        .push(json::num("value"@, it.value))
        .push(json::string("label"@, it.label));
    let m = if !it.enabled {
        let m = m
            .push(json::flag("enabled"@, false));
        m
    } else {
        m
    };
    json::object(m)
}

/// The first `n` entries of a menu.
pub open spec fn menu_items(items: Seq<MenuEntry>, n: int) -> Seq<Seq<char>>
    decreases n,
{
    if n <= 0 {
        Seq::empty()
    } else {
        menu_items(items, n - 1).push(menu_item(items[n - 1]))
    }
}

/// A menu as text.
pub open spec fn menu_text(kind: Seq<char>, index: int, items: Seq<MenuEntry>) -> Seq<char> {
    let m = Seq::<Seq<char>>::empty()
        .push(json::string("kind"@, kind))
        .push(json::num("index"@, index))
        .push(json::member("items"@, json::array(menu_items(items, items.len() as int))));
    json::object(m)
}

/// A menu as text.
pub fn menu_json(kind: &str, index: usize, items: &[AgentMenuItem]) -> (s: String)
    ensures
        s@ == menu_text(kind@, index as int, entries(items@)),
{
    let mut list: Members = Members::new();
    for i in 0..items.len()
        invariant
            list.wf(),
            list@ == menu_items(entries(items@), i as int),
    {
        let it: &AgentMenuItem = &items[i];
        assert(entries(items@)[i as int] == it@);
        let mut m: Members = Members::new();
        m.num("value", it.value as u64);
        m.string("label", it.label.as_str());
        if !it.enabled {
            m.flag("enabled", false);
        }
        let t: String = m.into_object();
        list.put(t.as_str());
    }
    let list: String = list.into_array();
    let mut m: Members = Members::new();
    m.string("kind", kind);
    m.num("index", index as u64);
    m.member("items", list.as_str());
    m.into_object()
}

/// A word, or what stands for it where there is none.
pub open spec fn label(e: &Engine, id: int, otherwise: Seq<char>) -> Seq<char> {
    if e.texts.word_text(id).len() == 0 {
        otherwise
    } else {
        e.texts.word_text(id)
    }
}

fn label_or(engine: &Engine, id: usize, otherwise: &str) -> (s: String)
    ensures
        s@ == label(engine, id as int, otherwise@),
{
    let word: String = engine.texts.word(id);
    if json::is_empty(word.as_str()) {
        owned(otherwise)
    } else {
        word
    }
}

fn owned(t: &str) -> (s: String)
    ensures
        s@ == t@,
{
    let mut s: String = String::new();
    s.push_str(t);
    assert(s@ =~= t@);
    s
}

pub open spec fn clamped(n: int, most: int) -> int {
    if n < 0 {
        0
    } else if n > most {
        most
    } else {
        n
    }
}

fn clamp_index(n: i32, most: usize) -> (r: usize)
    requires
        most <= 10,
    ensures
        r == clamped(n as int, most as int),
{
    if n < 0 {
        0
    } else if n > most as i32 {
        most
    } else {
        n as usize
    }
}

/// The kind of menu that a battle shows.
pub open spec fn battle_menu_kind(s: BattleMenuState) -> Seq<char> {
    match s {
        BattleMenuState::Main => "battle_main"@,
        BattleMenuState::Misc => "battle_misc"@,
        BattleMenuState::MiscItemSubMenu => "battle_item_sub"@,
        _ => "battle"@,
    }
}

/// The chosen entry of a battle menu.
pub open spec fn battle_menu_index(b: &Battle) -> int {
    match b.ui.menu_state {
        BattleMenuState::Main => b.ui.selected_action as int % 4,
        BattleMenuState::Misc => clamped(b.ui.selected_index as int, 4),
        BattleMenuState::MiscItemSubMenu => clamped(b.ui.selected_index as int, 1),
        _ => 0,
    }
}

/// The entries of a battle menu.
pub open spec fn battle_menu_entries(e: &Engine, s: BattleMenuState) -> Seq<MenuEntry> {
    match s {
        BattleMenuState::Main => Seq::empty()
            .push(MenuEntry { value: 0, label: "攻擊"@, enabled: true })
            .push(MenuEntry { value: 1, label: label(e, 14, "法術"@), enabled: true })
            .push(MenuEntry { value: 2, label: "協力"@, enabled: true })
            .push(MenuEntry { value: 3, label: "其它"@, enabled: true }),
        BattleMenuState::Misc => Seq::empty()
            .push(MenuEntry { value: 0, label: label(e, 56, "自動"@), enabled: true })
            .push(MenuEntry { value: 1, label: label(e, 57, "道具"@), enabled: true })
            .push(MenuEntry { value: 2, label: label(e, 58, "防禦"@), enabled: true })
            .push(MenuEntry { value: 3, label: label(e, 59, "逃跑"@), enabled: true })
            .push(MenuEntry { value: 4, label: label(e, 60, "狀態"@), enabled: true }),
        BattleMenuState::MiscItemSubMenu => Seq::empty()
            .push(MenuEntry { value: 0, label: label(e, 23, "使用"@), enabled: true })
            .push(MenuEntry { value: 1, label: label(e, 24, "投擲"@), enabled: true }),
        _ => Seq::empty(),
    }
}

/// The menu that a battle shows: its kind, the chosen entry and the entries.
pub fn battle_menu_snapshot(engine: &Engine, b: &Battle) -> (r: (&'static str, usize, Vec<AgentMenuItem>))
    ensures
        r.0@ == battle_menu_kind(b.ui.menu_state),
        r.1 == battle_menu_index(b),
        entries(r.2@) == battle_menu_entries(engine, b.ui.menu_state),
{
    let mut items: Vec<AgentMenuItem> = Vec::new();
    match b.ui.menu_state {
        BattleMenuState::Main => {
            items.push(AgentMenuItem { value: 0, label: owned("攻擊"), enabled: true });
            items.push(AgentMenuItem { value: 1, label: label_or(engine, 14, "法術"), enabled: true });
            items.push(AgentMenuItem { value: 2, label: owned("協力"), enabled: true });
            items.push(AgentMenuItem { value: 3, label: owned("其它"), enabled: true });
            assert(entries(items@) =~= battle_menu_entries(engine, b.ui.menu_state));
            ("battle_main", b.ui.selected_action as usize % 4, items)
        },
        BattleMenuState::Misc => {
            items.push(AgentMenuItem { value: 0, label: label_or(engine, 56, "自動"), enabled: true });
            items.push(AgentMenuItem { value: 1, label: label_or(engine, 57, "道具"), enabled: true });
            items.push(AgentMenuItem { value: 2, label: label_or(engine, 58, "防禦"), enabled: true });
            items.push(AgentMenuItem { value: 3, label: label_or(engine, 59, "逃跑"), enabled: true });
            items.push(AgentMenuItem { value: 4, label: label_or(engine, 60, "狀態"), enabled: true });
            assert(entries(items@) =~= battle_menu_entries(engine, b.ui.menu_state));
            ("battle_misc", clamp_index(b.ui.selected_index, 4), items)
        },
        BattleMenuState::MiscItemSubMenu => {
            items.push(AgentMenuItem { value: 0, label: label_or(engine, 23, "使用"), enabled: true });
            items.push(AgentMenuItem { value: 1, label: label_or(engine, 24, "投擲"), enabled: true });
            assert(entries(items@) =~= battle_menu_entries(engine, b.ui.menu_state));
            ("battle_item_sub", clamp_index(b.ui.selected_index, 1), items)
        },
        BattleMenuState::MagicSelect | BattleMenuState::UseItemSelect | BattleMenuState::ThrowItemSelect => {
            assert(entries(items@) =~= battle_menu_entries(engine, b.ui.menu_state));
            ("battle", 0, items)
        },
    }
}

/// The chosen entry of a battle menu that has entries is one of them.
pub proof fn law_battle_menu_index_is_an_entry(e: &Engine, b: &Battle)
    ensures
        battle_menu_entries(e, b.ui.menu_state).len() > 0 ==> 0 <= battle_menu_index(b) < battle_menu_entries(
            e,
            b.ui.menu_state,
        ).len(),
{
}

/// The most health that an enemy is known to have had is at least what it has,
/// had, and usually has, and one of these.
pub proof fn law_enemy_health(e: &Engine, f: BattleEnemy)
    ensures
        enemy_max_hp(e, f) >= f.e.health,
        enemy_max_hp(e, f) >= f.prev_hp,
        ({
            let objects = e.globals.game.objects@;
            let id = objects[f.object_id as int].data@[0];
            let known = f.object_id < objects.len() && id < e.globals.game.enemies@.len();
            &&& known ==> enemy_max_hp(e, f) >= e.globals.game.enemies@[id as int].health
            &&& known ==> enemy_max_hp(e, f) == f.e.health || enemy_max_hp(e, f) == f.prev_hp || enemy_max_hp(e, f)
                == e.globals.game.enemies@[id as int].health
        }),
{
}

/// Enemies that are there are listed place by place, five at most; of the party
/// three at most fight.
pub proof fn law_fighters_are_listed(e: &Engine, b: &Battle, n: int)
    requires
        0 <= n,
    ensures
        enemy_list(e, b, 0).len() == 0,
        b.enemy@[n].object_id == 0 ==> enemy_list(e, b, n + 1) == enemy_list(e, b, n),
        b.enemy@[n].object_id != 0 ==> enemy_list(e, b, n + 1) == enemy_list(e, b, n).push(enemy_text(e, b, n)),
        player_list(e, b, n + 1) == player_list(e, b, n).push(player_text(e, b, n)),
        1 <= enemy_count(b) <= 5,
        b.max_enemy_index < 5 ==> enemy_count(b) == b.max_enemy_index + 1,
        1 <= player_count(e) <= 3,
        e.globals.max_party_member_index < 3 ==> player_count(e) == e.globals.max_party_member_index + 1,
{
}

/// The target is chosen among the enemies or the party, one or all, as the
/// state of the battle says.
pub proof fn law_targets_go_by_the_state(s: BattleUiState)
    ensures
        selects_enemy(s) <==> s == BattleUiState::SelectTargetEnemy || s == BattleUiState::SelectTargetEnemyAll,
        selects_player(s) <==> s == BattleUiState::SelectTargetPlayer || s == BattleUiState::SelectTargetPlayerAll,
        !(selects_enemy(s) && selects_player(s)),
{
}

/// The entries of battle menus are numbered from 0 on, and all can be chosen.
pub proof fn law_battle_menus_are_numbered(e: &Engine, s: BattleMenuState, i: int)
    requires
        0 <= i < battle_menu_entries(e, s).len(),
    ensures
        battle_menu_entries(e, s)[i].value == i,
        battle_menu_entries(e, s)[i].enabled,
        s == BattleMenuState::Main ==> battle_menu_entries(e, s).len() == 4,
        s == BattleMenuState::Misc ==> battle_menu_entries(e, s).len() == 5,
        s == BattleMenuState::MiscItemSubMenu ==> battle_menu_entries(e, s).len() == 2,
        s == BattleMenuState::Misc && e.texts.word_text(56 + i).len() > 0 ==> battle_menu_entries(e, s)[i].label
            == e.texts.word_text(56 + i),
        s == BattleMenuState::MiscItemSubMenu && e.texts.word_text(23 + i).len() > 0 ==> battle_menu_entries(e, s)[i].label
            == e.texts.word_text(23 + i),
{
}

/// The entries of a menu are told in order, with what they stand for and what
/// they say; that one cannot be chosen is told of those alone.
pub proof fn law_menu_entries_are_told(items: Seq<MenuEntry>, n: int)
    requires
        0 <= n,
    ensures
        menu_items(items, n + 1) == menu_items(items, n).push(menu_item(items[n])),
        ({
            let it = items[n];
            &&& it.enabled ==> menu_item(it) == json::object(seq![json::num("value"@, it.value), json::string("label"@, it.label)])
            &&& !it.enabled ==> menu_item(it) == json::object(
                seq![json::num("value"@, it.value), json::string("label"@, it.label), json::flag("enabled"@, false)],
            )
        }),
{
    let it = items[n];
    let m = Seq::<Seq<char>>::empty().push(json::num("value"@, it.value)).push(json::string("label"@, it.label));
    assert(m =~= seq![json::num("value"@, it.value), json::string("label"@, it.label)]);
    assert(m.push(json::flag("enabled"@, false)) =~= seq![
        json::num("value"@, it.value),
        json::string("label"@, it.label),
        json::flag("enabled"@, false),
    ]);
}

/// An enemy is told with its name, its health and its strengths.
pub proof fn law_enemies_are_told(e: &Engine, b: &Battle, i: int)
    ensures
        exists|m: Seq<Seq<char>>|
            {
                &&& enemy_text(e, b, i) == #[trigger] json::object(m)
                &&& m[0] == json::num("index"@, i)
                &&& m[1] == json::num("object_id"@, b.enemy@[i].object_id as int)
                &&& m[3] == json::num("hp"@, b.enemy@[i].e.health as int)
                &&& m[4] == json::num("max_hp"@, enemy_max_hp(e, b.enemy@[i]))
                &&& m[5] == json::num("level"@, b.enemy@[i].e.level as int)
                &&& m[6] == json::num("attack"@, b.enemy@[i].e.attack_strength as int)
                &&& m[7] == json::num("defense"@, b.enemy@[i].e.defense as int)
                &&& m[10] == json::pair("pos"@, b.enemy@[i].pos.0 as int, b.enemy@[i].pos.1 as int)
            },
{
    let f = b.enemy@[i];
    let m = Seq::<Seq<char>>::empty()
        .push(json::num("index"@, i))
        .push(json::num("object_id"@, f.object_id as int))
        .push(json::string("name"@, script::named(&e.texts, f.object_id as int)))
        .push(json::num("hp"@, f.e.health as int))
        .push(json::num("max_hp"@, enemy_max_hp(e, f)))
        .push(json::num("level"@, f.e.level as int))
        .push(json::num("attack"@, f.e.attack_strength as int))
        .push(json::num("defense"@, f.e.defense as int))
        .push(json::string("state"@, fighter_state_text(f.state)))
        .push(json::member("time_meter"@, f.time_meter@))
        .push(json::pair("pos"@, f.pos.0 as int, f.pos.1 as int));
    let m = if selects_enemy(b.ui.state) && b.ui.selected_index == i {
        let m = m
            .push(json::flag("selected"@, true));
        m
    } else {
        m
    };
    let m = agent_party::status_members(m, f.status@);
    assert(enemy_text(e, b, i) == json::object(m));
}

/// A member that fights is told with its points, and whether it defends itself.
pub proof fn law_players_are_told(e: &Engine, b: &Battle, i: int)
    ensures
        exists|m: Seq<Seq<char>>|
            {
                let t = e.globals.game.player_roles;
                let r = e.globals.party@[i].player_role as int;
                &&& player_text(e, b, i) == #[trigger] json::object(m)
                &&& m[0] == json::num("slot"@, i)
                &&& m[1] == json::num("role"@, r)
                &&& m[3] == json::num("hp"@, t.hp@[r] as int)
                &&& m[4] == json::num("max_hp"@, t.max_hp@[r] as int)
                &&& m[5] == json::num("mp"@, t.mp@[r] as int)
                &&& m[6] == json::num("max_mp"@, t.max_mp@[r] as int)
                &&& m[9] == json::flag("defending"@, b.player@[i].defending)
            },
{
    let p = b.player@[i];
    let roles = e.globals.game.player_roles;
    let role = e.globals.party@[i].player_role as int;
    let m = Seq::<Seq<char>>::empty()
        .push(json::num("slot"@, i))
        .push(json::num("role"@, role))
        .push(json::string("name"@, script::named(&e.texts, roles.name@[role] as int)))
        .push(json::num("hp"@, roles.hp@[role] as int))
        .push(json::num("max_hp"@, roles.max_hp@[role] as int))
        .push(json::num("mp"@, roles.mp@[role] as int))
        .push(json::num("max_mp"@, roles.max_mp@[role] as int))
        .push(json::string("state"@, fighter_state_text(p.state)))
        .push(json::member("time_meter"@, p.time_meter@))
        .push(json::flag("defending"@, p.defending));
    let m = if selects_player(b.ui.state) && b.ui.selected_index == i {
        let m = m
            .push(json::flag("selected"@, true));
        m
    } else {
        m
    };
    let m = if b.ui.cur_player_index == i && b.phase == BattlePhase::SelectAction {
        let m = m
            .push(json::flag("acting"@, true));
        m
    } else {
        m
    };
    let m = agent_party::status_members(m, e.globals.player_status@[role]@);
    assert(player_text(e, b, i) == json::object(m));
}

/// A battle is told with what it is doing and asks for, who is to act, and how it
/// goes.
pub proof fn law_battles_are_told(e: &Engine, b: &Battle)
    ensures
        exists|m: Seq<Seq<char>>|
            {
                &&& battle_text(e, b) == #[trigger] json::object(m)
                &&& m[0] == json::string("phase"@, battle_phase_text(b.phase))
                &&& m[1] == json::string("ui_state"@, battle_ui_state_text(b.ui.state))
                &&& m[2] == json::string("menu_state"@, battle_menu_state_text(b.ui.menu_state))
                &&& m[3] == json::num("cur_player_index"@, b.ui.cur_player_index as int)
                &&& m[4] == json::num("selected_action"@, b.ui.selected_action as int)
                &&& m[5] == json::num("selected_index"@, b.ui.selected_index as int)
                &&& m[6] == json::flag("auto_attack"@, b.ui.auto_attack)
                &&& m[7] == json::flag("force"@, b.force)
                &&& m[8] == json::flag("flee"@, b.flee)
                &&& m[9] == json::flag("is_boss"@, b.is_boss)
                &&& m[10] == json::flag("enemy_cleared"@, b.enemy_cleared)
                &&& m[11] == json::string("result"@, battle_result_text(b.battle_result))
                &&& m[12] == json::num("exp_gained"@, b.exp_gained as int)
                &&& m[13] == json::num("cash_gained"@, b.cash_gained as int)
            },
{
    let m = Seq::<Seq<char>>::empty()
        .push(json::string("phase"@, battle_phase_text(b.phase)))
        .push(json::string("ui_state"@, battle_ui_state_text(b.ui.state)))
        .push(json::string("menu_state"@, battle_menu_state_text(b.ui.menu_state)))
        .push(json::num("cur_player_index"@, b.ui.cur_player_index as int))
        .push(json::num("selected_action"@, b.ui.selected_action as int))
        .push(json::num("selected_index"@, b.ui.selected_index as int))
        .push(json::flag("auto_attack"@, b.ui.auto_attack))
        .push(json::flag("force"@, b.force))
        .push(json::flag("flee"@, b.flee))
        .push(json::flag("is_boss"@, b.is_boss))
        .push(json::flag("enemy_cleared"@, b.enemy_cleared))
        .push(json::string("result"@, battle_result_text(b.battle_result)))
        .push(json::num("exp_gained"@, b.exp_gained as int))
        .push(json::num("cash_gained"@, b.cash_gained as int))
        .push(json::num("max_enemy_index"@, b.max_enemy_index as int))
        .push(json::string("msg"@, b.ui.msg@));
    let m = if selects_enemy(b.ui.state) || selects_player(b.ui.state) {
        let m = m
            .push(json::member("target"@, target_text(b)));
        m
    } else {
        m
    };
    let m = m
        .push(json::member("enemies"@, json::array(enemy_list(e, b, enemy_count(b)))))
        .push(json::member("players"@, json::array(player_list(e, b, player_count(e)))));
    assert(battle_text(e, b) == json::object(m));
}

} // verus!
