//! A small made-up world, and what the engine does in it.

use rustpal::agent_battle::{battle_json, battle_menu_snapshot};
use rustpal::agent_map::classify_event_role;
use rustpal::agent_party::{build_inventory_json, build_party_json};
use rustpal::agent_state::{build_obstacles_json, build_state_json, DriverFacts};
use rustpal::battle::{
    Battle, BattleEnemy, BattleMenuState, BattlePhase, BattlePlayer, BattleResult, BattleUi, BattleUiState,
    FighterState,
};
use rustpal::data::{DataDir, DataError, GameFiles, Mkf};
use rustpal::draw::{Draw, MenuStep, NO_CHOICE};
use rustpal::engine::Engine;
use rustpal::geometry::{metric, step_from};
use rustpal::global::{
    Globals, BODYPART_HAND, BODYPART_WEAR, DIR_EAST, DIR_NORTH, DIR_SOUTH, DIR_WEST, ITEMFLAG_CONSUMING, ITEMFLAG_USABLE,
    LOAD_GLOBAL_DATA, LOAD_PLAYER_SPRITE, LOAD_SCENE, OBJSTATE_BLOCKER, STATUS_BRAVERY, STATUS_DUALATTACK, STATUS_PUPPET, STATUS_SLEEP,
};
use rustpal::input::{DIR_UNKNOWN, KEY_MENU, KEY_RIGHT, KEY_SEARCH};
use rustpal::json::Members;
use rustpal::keys::{KeyCode, KeyEvent};
use rustpal::launch::VideoBackend;
use rustpal::play::{AfterLoad, FrameCommand, ItemUse};
use rustpal::random::{lcg_step, lrand_at, random_long, scale_draw, seed_random, Rng};
use rustpal::reach::{compute_reachable, is_iso_grid, nearest_iso_grid, Reachability};
use rustpal::records::{Enemy, EventObject, GameObject, Inventory, MagicData, PoisonStatus, Trail, MAX_OBJECTS};
use rustpal::res::Resources;
use rustpal::roles::PlayerRoles;
use rustpal::script::{
    analyze_script_progress, is_party_or_playable_name, script_destination_scene, script_dialog_label,
    story_item_for_event, word_utf8,
};
use rustpal::search::{approach_face, compute_search_spots, search_info};
use rustpal::surface::{rle_height, rle_width, sprite_frame, sprite_frame_count, sprite_num_frames};
use rustpal::ui::Texts;
use rustpal::update::{UpdateAction, UpdateStage};
use rustpal::wordio::{WordReader, WordWriter};
use rustpal::zones::{
    append_scene_exit_transit, collect_scene_exits, exits_covering_path, in_touch_at, note_scene_exit_touch,
    scene_exit_hazard_cells, touch_radius_of, SceneExit, SceneExitTransit,
};

const WALK_DELTA: [((i64, i64), &str); 4] =
    [((16, -8), "up"), ((16, 8), "right"), ((-16, 8), "down"), ((-16, -8), "left")];

fn words(list: &[u16]) -> Vec<u8> {
    let mut bytes = Vec::new();
    for w in list {
        bytes.push((w & 0xff) as u8);
        bytes.push((w >> 8) as u8);
    }
    bytes
}

fn put_word(bytes: &mut Vec<u8>, at: usize, w: u16) {
    bytes[at] = (w & 0xff) as u8;
    bytes[at + 1] = (w >> 8) as u8;
}

fn archive(chunks: Vec<Vec<u8>>) -> Mkf {
    let unpacked = chunks.iter().map(|c| if c.is_empty() { None } else { Some(c.clone()) }).collect();
    Mkf { chunks, unpacked }
}

/// A sprite of three frames and an end marker.
fn sprite() -> Vec<u8> {
    let mut bytes = words(&[4, 7, 10, 13]);
    for frame in 0..3u16 {
        bytes.extend(words(&[16, 24, 0x0100 + frame]));
    }
    bytes
}

/// The record of an event object: vanish, x, y, layer, trigger and automatic
/// script, state, trigger mode, sprite, frames, direction, and the rest.
fn object(x: u16, y: u16, script: u16, state: i16, mode: u16, sprite: u16) -> Vec<u8> {
    words(&[0, x, y, 0, script, 0, state as u16, mode, sprite, 0, 0, 0, 0, 0, 0, 0])
}

fn sss() -> Mkf {
    let mut events = Vec::new();
    // Scene 1: somebody to talk to, a way out, a thing that stands in the way,
    // and one without an image.
    events.extend(object(640, 800, 4981, 1, 2, 2));
    events.extend(object(800, 960, 30, 1, 5, 0));
    events.extend(object(416, 656, 0, 2, 0, 2));
    events.extend(object(480, 720, 40, 1, 5, 0));
    // Scene 2: a way back.
    events.extend(object(320, 480, 31, 1, 4, 2));
    // Scene 3: a way to scene 2, and somebody to talk to.
    events.extend(object(1264, 1464, 30, 1, 5, 0));
    events.extend(object(1280, 1480, 4981, 1, 2, 2));
    while events.len() < 1200 * 32 {
        events.extend(object(0, 0, 0, 0, 0, 0));
    }
    let mut scenes = vec![0u8; 300 * 8];
    for scene in 0..70usize {
        put_word(&mut scenes, 8 * scene, 1);
        put_word(&mut scenes, 8 * scene + 2, 50);
        let first: u16 = match scene {
            0 => 0,
            1 => 4,
            2 => 5,
            _ => 7,
        };
        put_word(&mut scenes, 8 * scene + 6, first);
    }
    let mut objects = vec![0u8; 600 * 12];
    // Object 92 can be used, object 272 on event object 63.
    put_word(&mut objects, 12 * 92 + 10, ITEMFLAG_USABLE);
    put_word(&mut objects, 12 * 272 + 4, 5000);
    put_word(&mut objects, 12 * 272 + 10, ITEMFLAG_USABLE);
    // Object 300 is magic number 5, usable anywhere.
    put_word(&mut objects, 12 * 300, 5);
    put_word(&mut objects, 12 * 300 + 10, 3);
    let mut scripts = vec![0u8; 10100 * 8];
    let mut entry = |at: usize, op: u16, a: u16| {
        put_word(&mut scripts, 8 * at, op);
        put_word(&mut scripts, 8 * at + 2, a);
    };
    entry(30, 0x59, 2);
    entry(31, 0x59, 1);
    entry(40, 0x24, 0);
    entry(4885, 0x1f, 272);
    entry(4981, 0x3c, 0);
    entry(4982, 0xffff, 1);
    entry(4983, 0xffff, 2);
    entry(5000, 0x81, 63);
    archive(vec![events, scenes, objects, Vec::new(), scripts])
}

fn roles() -> PlayerRoles {
    let mut roles = PlayerRoles::default();
    roles.level[0] = 1;
    roles.max_hp[0] = 120;
    roles.hp[0] = 120;
    roles.max_mp[0] = 40;
    roles.mp[0] = 40;
    roles.name[0] = 36;
    roles.sprite_num[0] = 2;
    roles.walk_frames[0] = 3;
    roles
}

fn data() -> Mkf {
    let mut role_bytes = WordWriter::new();
    roles().write(&mut role_bytes);
    let mut exp = Vec::new();
    for level in 0..100u16 {
        exp.extend(words(&[level * 15]));
    }
    let mut magics = vec![0u8; 120 * 32];
    // Magic 5 costs 8 points.
    put_word(&mut magics, 32 * 5 + 24, 8);
    let mut chunks = vec![
        vec![0; 20 * 18],
        vec![0; 120 * 70],
        vec![0; 120 * 10],
        role_bytes.buf,
        magics,
        vec![0; 30 * 12],
        vec![0; 25 * 20],
    ];
    while chunks.len() < 11 {
        chunks.push(Vec::new());
    }
    chunks.push(vec![0; 40]);
    chunks.push(Vec::new());
    chunks.push(vec![0; 100]);
    chunks.push(exp);
    archive(chunks)
}

fn files() -> GameFiles {
    let none = || archive(Vec::new());
    GameFiles {
        fbp: none(),
        mgo: archive(vec![Vec::new(), Vec::new(), sprite()]),
        ball: none(),
        data: data(),
        f: none(),
        fire: none(),
        rgm: none(),
        sss: sss(),
    }
}

fn data_dir() -> DataDir {
    let mut tiles = vec![0u8; 65536];
    // Cell (3, 5) is blocked, in its first half.
    tiles[(5 * 64 + 3) * 8 + 1] = 0x20;
    DataDir {
        root: "saves".to_string(),
        map: archive(vec![Vec::new(), tiles]),
        gop: archive(vec![Vec::new(), sprite()]),
    }
}

fn globals() -> Globals {
    Globals::init(data_dir(), files()).expect("init globals")
}

fn texts() -> Texts {
    let mut table: Vec<String> = (0..620).map(|_| String::new()).collect();
    table[36] = "李逍遙".to_string();
    table[92] = "水果".to_string();
    table[272] = "桂花酒".to_string();
    Texts {
        words: table,
        msgs: vec![String::new(), "李大娘：".to_string(), "吃飯了".to_string()],
    }
}

fn engine() -> Engine {
    Engine::new(globals(), texts(), true, 1)
}

fn game() -> Engine {
    let mut e = engine();
    e.globals.load_default_game().expect("default game");
    e.globals.max_party_member_index = 0;
    e.globals.party[0].player_role = 0;
    e
}

fn scene(num: u16) -> Engine {
    let mut e = game();
    e.globals.num_scene = num;
    e.globals.in_main_game = true;
    e.globals.entering_scene = false;
    e.globals.load_flags = LOAD_SCENE | LOAD_PLAYER_SPRITE;
    assert_eq!(e.load_resources(None, None), vec![]);
    assert!(e.res.map.is_some());
    e
}

fn facts() -> DriverFacts {
    DriverFacts { frame_id: 7, step_mode: false, step_configured: false, ticks: 1000, playtime_secs: 5 }
}

fn state(e: &Engine) -> String {
    let mut last = None;
    build_state_json(e, &facts(), &mut last)
}

/// Run an update to its end; scripts go back to where they started.
fn run_update(e: &mut Engine, trigger: bool) -> usize {
    let mut stage = UpdateStage::Start;
    let mut result = 0;
    let mut scripts = 0;
    for _ in 0..100_000 {
        match e.game_update(trigger, stage, result) {
            UpdateAction::Continue { next } => stage = next,
            UpdateAction::RunTriggerScript { script, next, .. } => {
                scripts += 1;
                result = script;
                stage = next;
            }
            UpdateAction::RunAutoScript { script, next, .. } => {
                scripts += 1;
                result = script;
                stage = next;
            }
            UpdateAction::MakeScene { next } => stage = next,
            UpdateAction::ShowScene { next } => stage = next,
            UpdateAction::Over => return scripts,
        }
    }
    panic!("the update does not end");
}

// --- random numbers -------------------------------------------------------

#[test]
fn lcg_step_matches_c_constants() {
    assert_eq!(lcg_step(0), 1_013_904_223);
    assert_eq!(lcg_step(12345), 12345i32.wrapping_mul(1664525).wrapping_add(1013904223));
    assert_eq!(lcg_step(i32::MAX), i32::MAX.wrapping_mul(1664525).wrapping_add(1013904223));
    let t = 1_600_000_000;
    let cold_seed = lcg_step(lcg_step(t));
    assert_ne!(cold_seed, lcg_step(t));
}

#[test]
fn cold_generator_takes_two_steps_from_the_clock() {
    let mut rng = Rng::default();
    let draw = lrand_at(&mut rng, 1_600_000_000);
    assert_eq!(rng.seed, lcg_step(lcg_step(1_600_000_000)));
    assert_eq!(draw, (rng.seed >> 1) + 1073741824);
    let mut warm = Rng { seed: 12345 };
    lrand_at(&mut warm, 1_600_000_000);
    assert_eq!(warm.seed, lcg_step(12345));
}

#[test]
fn random_numbers_stay_in_their_range_and_repeat_by_seed() {
    let mut a = Rng::default();
    let mut b = Rng::default();
    seed_random(&mut a, 99);
    seed_random(&mut b, 99);
    for _ in 0..50 {
        let x = random_long(&mut a, 3, 9);
        assert_eq!(x, random_long(&mut b, 3, 9));
        assert!(x >= 3 && x <= 9);
    }
    seed_random(&mut a, 1);
    assert_eq!(random_long(&mut a, 0, 7), 5);
    // The largest draw there is.
    seed_random(&mut a, -1493846240);
    assert_eq!(random_long(&mut a, 0, 7), 7);
    assert_eq!(a.seed, i32::MAX);
    assert_eq!(scale_draw(i32::MAX - 1, i32::MAX, i32::MAX), i32::MAX);
    assert_eq!(scale_draw(i32::MAX - 1, i32::MAX, 0), i32::MAX - 1);
    assert_eq!(random_long(&mut a, 5, 5), 5);
    assert_eq!(random_long(&mut a, 5, 2), 5);
    let mut cold = Rng::default();
    random_long(&mut cold, 0, 100);
    assert_ne!(cold.seed, 0);
}

// --- game data, saves, party ----------------------------------------------

#[test]
fn loads_real_game_data() {
    let g = globals();
    assert!(g.game.event_objects.len() > 1000, "too few event objects");
    assert!(g.game.script_entries.len() > 10000, "too few script entries");
    assert!(g.game.enemies.len() > 100, "too few enemies");
    assert!(g.game.enemy_teams.len() > 100, "too few enemy teams");
    assert!(g.game.magics.len() > 100, "too few magics");
    assert!(!g.game.stores.is_empty());
    assert!(!g.game.battle_fields.is_empty());
    assert!(!g.game.level_up_magics.is_empty());
    assert!(g.game.scenes[0].map_num > 0);
    assert!(g.game.level_up_exp[1] > 0);
    assert!(g.game.level_up_exp[50] >= g.game.level_up_exp[10]);
}

#[test]
fn missing_chunks_are_told() {
    let mut f = files();
    f.sss.chunks.truncate(4);
    assert_eq!(Globals::init(data_dir(), f).err(), Some(DataError::ChunkMissing(4)));
    let mut f = files();
    f.data.chunks.truncate(14);
    assert_eq!(Globals::init(data_dir(), f).err(), Some(DataError::ChunkMissing(14)));
}

#[test]
fn default_game_state() {
    let mut g = globals();
    g.load_default_game().unwrap();
    assert_eq!(g.num_scene, 1);
    assert_eq!(g.cash, 0);
    assert!(g.entering_scene);
    assert!(g.game.player_roles.level[0] >= 1);
    assert!(g.game.player_roles.max_hp[0] > 0);
    assert_eq!(g.exp.primary_exp[0].level, g.game.player_roles.level[0]);
}

#[test]
fn save_load_roundtrip() {
    let mut g = globals();
    g.load_default_game().unwrap();
    g.cash = 12345;
    g.num_scene = 42;
    g.max_party_member_index = 1;
    g.party[0].player_role = 0;
    g.party[0].x = 100;
    g.party[0].y = -3;
    g.add_item_to_inventory(0x100, 5);
    g.game.player_roles.hp[0] = 77;

    let bytes = g.save_game_to_bytes(9);
    assert_eq!(bytes.len(), 12864 + g.game.event_objects.len() * 32);

    let mut g2 = globals();
    g2.load_game_from_bytes(&bytes).unwrap();
    assert_eq!(g2.cash, 12345);
    assert_eq!(g2.num_scene, 42);
    assert_eq!(g2.max_party_member_index, 1);
    assert_eq!(g2.party[0].x, 100);
    assert_eq!(g2.party[0].y, -3);
    assert_eq!(g2.get_item_amount(0x100), 5);
    assert_eq!(g2.game.player_roles.hp[0], 77);
    assert!(!g2.entering_scene);
}

#[test]
fn short_saves_are_refused() {
    let mut g = globals();
    assert_eq!(g.load_game_from_bytes(&[0; 100]).err(), Some(DataError::SaveTooShort));
    assert_eq!(g.load_game(None).err(), Some(DataError::SaveUnreadable));
}

#[test]
fn inventory_operations() {
    let mut g = globals();
    g.load_default_game().unwrap();
    assert_eq!(g.add_item_to_inventory(10, 3), 1);
    assert_eq!(g.get_item_amount(10), 3);
    assert_eq!(g.add_item_to_inventory(10, 200), 1);
    assert_eq!(g.get_item_amount(10), 99);
    assert_eq!(g.add_item_to_inventory(10, -99), 1);
    assert_eq!(g.get_item_amount(10), 0);
    assert_eq!(g.add_item_to_inventory(11, 2), 1);
    assert_eq!(g.add_item_to_inventory(11, -5), -3);
    assert_eq!(g.add_item_to_inventory(999, -1), 0);
    g.compress_inventory();
    assert_eq!(g.inventory[0].item, 0);
}

#[test]
fn status_and_magic() {
    let mut g = globals();
    g.load_default_game().unwrap();
    g.game.player_roles.hp[0] = 50;
    assert!(g.set_player_status(0, STATUS_BRAVERY, 3));
    assert_eq!(g.player_status[0][STATUS_BRAVERY], 3);
    assert!(g.set_player_status(0, STATUS_SLEEP, 4));
    assert!(g.set_player_status(0, STATUS_SLEEP, 9));
    assert_eq!(g.player_status[0][STATUS_SLEEP], 4);
    assert!(!g.set_player_status(0, STATUS_PUPPET, 2));
    g.remove_player_status(0, STATUS_SLEEP);
    assert_eq!(g.player_status[0][STATUS_SLEEP], 0);
    g.player_status[0][STATUS_DUALATTACK] = 1000;
    g.clear_all_player_status();
    assert_eq!(g.player_status[0][STATUS_DUALATTACK], 1000);

    assert!(g.add_magic(0, 0x123));
    assert!(!g.add_magic(0, 0x123));
    g.remove_magic(0, 0x123);
    assert!(g.add_magic(0, 0x123));
}

#[test]
fn level_up_caps_stats() {
    let mut rng = Rng::default();
    seed_random(&mut rng, 42);
    let mut g = globals();
    g.load_default_game().unwrap();
    let lvl = g.game.player_roles.level[0];
    g.player_level_up(&mut rng, 0, 5);
    assert_eq!(g.game.player_roles.level[0], (lvl + 5).min(99));
    g.player_level_up(&mut rng, 0, 200);
    assert_eq!(g.game.player_roles.level[0], 99);
    assert!(g.game.player_roles.max_hp[0] <= 999);
    assert_eq!(g.exp.primary_exp[0].exp, 0);
}

#[test]
fn hp_mp_changes() {
    let mut g = globals();
    g.load_default_game().unwrap();
    let role = 0;
    g.game.player_roles.max_hp[role] = 100;
    g.game.player_roles.max_mp[role] = 50;
    g.game.player_roles.hp[role] = 60;
    g.game.player_roles.mp[role] = 20;
    assert!(g.increase_hp_mp(role, 100, 0));
    assert_eq!(g.game.player_roles.hp[role], 100);
    assert!(g.increase_hp_mp(role, -200, 0));
    assert_eq!(g.game.player_roles.hp[role], 0);
    assert!(!g.increase_hp_mp(role, 10, 10));
}

// --- resources ------------------------------------------------------------

#[test]
fn loads_scene_one_resources() {
    let mut g = globals();
    g.load_default_game().unwrap();
    g.max_party_member_index = 0;
    g.party[0].player_role = 0;
    g.load_flags = LOAD_SCENE | LOAD_PLAYER_SPRITE;

    let mut res = Resources::new();
    let done = res.load_resources(&mut g, None, None).unwrap();
    assert!(done.scene);
    assert!(done.player_sprite);
    assert!(!done.global_data);
    assert_eq!(g.load_flags, 0);

    let map = res.map.as_ref().expect("map loaded");
    assert_eq!(map.num, g.game.scenes[0].map_num as usize);

    assert!(!res.event_object_sprites.is_empty());
    let base = res.event_object_base;
    let mut with_sprite = 0;
    for (k, spr) in res.event_object_sprites.iter().enumerate() {
        let eo = &g.game.event_objects[base + k];
        if eo.sprite_num != 0 {
            assert!(spr.is_some(), "event object {k} missing sprite");
            assert!(eo.sprite_frames_auto > 0);
            with_sprite += 1;
        } else {
            assert!(spr.is_none());
        }
    }
    assert!(with_sprite > 0, "no event object sprites in scene 1");

    let ps = res.player_sprite(0).expect("player sprite");
    assert!(sprite_frame_count(ps) > 0);

    let id = base + 1;
    let via_id = res.event_object_sprite(id);
    assert_eq!(via_id.is_some(), res.event_object_sprites[0].is_some());
}

#[test]
fn auto_frames_leave_out_the_end_marker() {
    let e = scene(1);
    let sprite = e.res.event_object_sprite(1).expect("sprite");
    assert_eq!(e.globals.game.event_objects[0].sprite_frames_auto, 3);
    assert_eq!(sprite_num_frames(sprite), 3);
    for f in 0..3 {
        let frame = sprite_frame(sprite, f).expect("frame");
        assert_eq!((rle_width(frame), rle_height(frame)), (16, 24));
    }
    assert!(sprite_frame(sprite, 3).is_none());
    assert!(sprite_frame(sprite, 4).is_none());
}

#[test]
fn all_scenes_load() {
    const MAX_SCENES_TO_TEST: usize = 80;
    let mut g = globals();
    g.load_default_game().unwrap();
    let mut res = Resources::new();
    let scene_count = g
        .game
        .scenes
        .iter()
        .take_while(|s| s.map_num != 0 || s.event_object_index != 0)
        .count();
    assert!(scene_count > 50, "unexpectedly few scenes: {scene_count}");
    for scene in 1..=(scene_count - 1).min(MAX_SCENES_TO_TEST) {
        g.num_scene = scene as u16;
        g.load_flags = LOAD_SCENE;
        if g.game.scenes[scene - 1].map_num == 0 {
            continue;
        }
        assert!(res.load_resources(&mut g, None, None).is_ok(), "scene {scene}");
    }
}

#[test]
fn scenes_without_objects_load_wherever_they_start() {
    let mut g = globals();
    g.load_default_game().unwrap();
    let mut res = Resources::new();
    g.num_scene = 5;
    g.load_flags = LOAD_SCENE;
    g.game.scenes[4].event_object_index = 0xfff0;
    g.game.scenes[5].event_object_index = 0xfff0;
    assert!(res.load_resources(&mut g, None, None).is_ok());
    assert!(res.event_object_sprites.is_empty());
    // An object past the table is told of behind the map.
    g.game.scenes[5].event_object_index = 0xfff1;
    assert_eq!(res.load_scene(&mut g).err(), Some(DataError::BadScene));
    g.game.scenes[4].map_num = 9;
    assert_eq!(res.load_scene(&mut g).err(), Some(DataError::ChunkCorrupt(9)));
}

#[test]
fn the_first_missing_sprite_is_told() {
    let mut g = globals();
    g.load_default_game().unwrap();
    let mut res = Resources::new();
    g.game.event_objects[1].sprite_num = 70;
    g.game.event_objects[2].sprite_num = 80;
    g.load_flags = LOAD_SCENE | LOAD_PLAYER_SPRITE;
    g.cash = 77;
    g.partyoffset = (1, 2);
    g.game.event_objects[0].sprite_frames_auto = 0;
    assert_eq!(res.load_resources(&mut g, None, None).err(), Some(DataError::ChunkCorrupt(70)));
    // What comes before it is loaded, and all else is as it was.
    assert!(res.map.is_some());
    assert_eq!(res.event_object_sprites.len(), 1);
    assert_eq!(g.game.event_objects[0].sprite_frames_auto, 3);
    assert_eq!((g.cash, g.partyoffset, g.load_flags), (77, (1, 2), LOAD_SCENE | LOAD_PLAYER_SPRITE));
    g.max_party_member_index = 2;
    g.game.player_roles.sprite_num[1] = 90;
    g.party[1].player_role = 1;
    g.party[2].player_role = 6;
    assert_eq!(res.load_player_sprites(&g).err(), Some(DataError::ChunkCorrupt(90)));
    assert!(res.player_sprites[0].is_some() && res.player_sprites[1].is_none());
}

#[test]
fn scenes_that_cannot_be_loaded_are_told() {
    let mut g = globals();
    g.load_default_game().unwrap();
    let mut res = Resources::new();
    g.num_scene = 0;
    g.load_flags = LOAD_SCENE;
    assert_eq!(res.load_resources(&mut g, None, None).err(), Some(DataError::BadScene));
    g.num_scene = 1;
    g.game.scenes[0].map_num = 9;
    assert_eq!(res.load_scene(&mut g).err(), Some(DataError::ChunkCorrupt(9)));
    g.max_party_member_index = 6;
    assert_eq!(res.load_player_sprites(&g).err(), Some(DataError::BadParty));
}

#[test]
fn a_new_game_is_loaded_before_its_first_frame() {
    let mut e = engine();
    e.game_main(0);
    assert!(e.globals.in_main_game && e.globals.entering_scene && e.globals.need_to_fade_in);
    assert_eq!(e.globals.load_flags, LOAD_GLOBAL_DATA | LOAD_SCENE | LOAD_PLAYER_SPRITE);
    assert_eq!(
        e.load_for_frame(None, None),
        Ok(vec![AfterLoad::UpdateEquipments, AfterLoad::Music { song: 0, fade_secs: 1 }])
    );
    assert_eq!(e.globals.load_flags, 0);
    assert!(e.res.map.is_some());
    assert_eq!(e.load_for_frame(None, None), Ok(vec![]));
    e.game_main(3);
    assert_eq!(e.globals.current_save_slot, 3);
    assert_eq!(
        e.load_resources(None, None),
        vec![AfterLoad::Music { song: 0, fade_secs: 0 }, AfterLoad::UpdateEquipments]
    );
}

#[test]
fn a_load_that_fails_ends_the_game() {
    let mut e = game();
    e.globals.num_scene = 0;
    e.globals.load_flags = LOAD_SCENE;
    assert_eq!(e.load_for_frame(None, None), Err(DataError::BadScene));
    assert_eq!(e.load_resources(None, None), vec![]);
}

// --- obstacles and walking -------------------------------------------------

#[test]
fn check_obstacle_matches_map_tile_lookup() {
    let mut eng = scene(1);
    eng.globals.viewport = (0, 0);
    let map = eng.res.map.as_ref().expect("map loaded");
    let mut blocked_tile = None;
    let mut open_tile = None;
    for y in 0..128u8 {
        for x in 0..64u8 {
            let b = map.tile_is_blocked(x, y, 0);
            if b && blocked_tile.is_none() {
                blocked_tile = Some((x, y));
            }
            if !b && open_tile.is_none() {
                open_tile = Some((x, y));
            }
        }
    }
    let (bx, by) = blocked_tile.expect("map has a blocked tile");
    let (ox, oy) = open_tile.expect("map has an open tile");
    assert_eq!((bx, by), (3, 5));
    assert!(eng.check_obstacle((bx as i32 * 32, by as i32 * 16), false, 0));
    assert!(!eng.check_obstacle((ox as i32 * 32, oy as i32 * 16), false, 0));
}

#[test]
fn check_obstacle_event_object_blocks_and_self_skip_works() {
    let mut eng = scene(1);
    eng.globals.viewport = (0, 0);
    let pos = (10 * 32, 10 * 16);
    assert!(!eng.check_obstacle(pos, true, 0));

    let scene_idx = eng.globals.num_scene as usize - 1;
    let obj_index = eng.globals.game.scenes[scene_idx].event_object_index as usize;
    assert!(obj_index < eng.globals.game.scenes[scene_idx + 1].event_object_index as usize);
    eng.globals.game.event_objects[obj_index] =
        EventObject { state: OBJSTATE_BLOCKER, x: pos.0 as u16, y: pos.1 as u16, ..Default::default() };

    assert!(eng.check_obstacle(pos, true, 0));
    assert!(!eng.check_obstacle(pos, true, (obj_index + 1) as u16));
    assert!(!eng.check_obstacle(pos, false, 0));
}

#[test]
fn update_party_gestures_standing_uses_walk_frames_table() {
    let mut eng = game();
    eng.globals.party_direction = DIR_EAST;
    eng.globals.game.player_roles.walk_frames[0] = 3;
    eng.update_party_gestures(false);
    assert_eq!(eng.globals.party[0].frame, DIR_EAST * 3);
    eng.globals.game.player_roles.walk_frames[0] = 0;
    eng.update_party_gestures(false);
    assert_eq!(eng.globals.party[0].frame, DIR_EAST * 3);
}

#[test]
fn update_party_gestures_walking_cycles_this_step_frame() {
    let mut eng = game();
    eng.globals.party_direction = DIR_EAST;
    eng.globals.partyoffset = (160, 112);
    eng.globals.game.player_roles.walk_frames[0] = 3;

    eng.update_party_gestures(true);
    assert_eq!(eng.scene.this_step_frame, 1);
    assert_eq!(eng.globals.party[0].frame, DIR_EAST * 3 + 1);
    assert_eq!(eng.globals.party[0].x, 160);
    assert_eq!(eng.globals.party[0].y, 112);

    eng.update_party_gestures(true);
    assert_eq!(eng.scene.this_step_frame, 2);
    assert_eq!(eng.globals.party[0].frame, DIR_EAST * 3);

    eng.update_party_gestures(true);
    assert_eq!(eng.scene.this_step_frame, 3);
    assert_eq!(eng.globals.party[0].frame, DIR_EAST * 3 + 2);

    eng.update_party_gestures(true);
    assert_eq!(eng.scene.this_step_frame, 0);
    assert_eq!(eng.globals.party[0].frame, DIR_EAST * 3);

    eng.update_party_gestures(false);
    assert_eq!(eng.scene.this_step_frame, 2);
    eng.update_party_gestures(false);
    assert_eq!(eng.scene.this_step_frame, 0);
}

#[test]
fn update_party_gestures_walking_four_frame_table() {
    let mut eng = game();
    eng.globals.party_direction = DIR_NORTH;
    eng.globals.partyoffset = (160, 112);
    eng.globals.game.player_roles.walk_frames[0] = 4;
    eng.update_party_gestures(true);
    assert_eq!(eng.globals.party[0].frame, DIR_NORTH * 4 + 1);
}

#[test]
fn update_party_gestures_second_member_reverts_without_map() {
    let mut eng = game();
    eng.globals.max_party_member_index = 1;
    eng.globals.party[0].player_role = 0;
    eng.globals.party[1].player_role = 0;
    eng.globals.viewport = (0, 0);
    eng.globals.partyoffset = (160, 112);
    eng.globals.trail[1] = Trail { x: 200, y: 150, direction: DIR_EAST };
    eng.globals.trail[2] = Trail { x: 200, y: 150, direction: DIR_SOUTH };

    assert!(eng.res.map.is_none());
    eng.update_party_gestures(true);

    assert_eq!(eng.globals.party[1].x, 200);
    assert_eq!(eng.globals.party[1].y, 150);
}

#[test]
fn update_party_no_input_does_not_move() {
    let mut eng = game();
    eng.globals.party_direction = DIR_NORTH;
    let viewport_before = eng.globals.viewport;
    eng.input.dir = DIR_UNKNOWN;
    eng.update_party(0);
    assert_eq!(eng.globals.viewport, viewport_before);
    assert_eq!(eng.globals.party_direction, DIR_NORTH);
}

#[test]
fn update_party_without_map_never_moves() {
    let mut eng = game();
    eng.globals.party[0].x = eng.globals.partyoffset.0 as i16;
    eng.globals.party[0].y = eng.globals.partyoffset.1 as i16;
    let viewport_before = eng.globals.viewport;
    eng.input.handle_key_event(KeyCode::ArrowRight, true);
    eng.input.update_keyboard_state(0);
    eng.update_party(0);
    assert_eq!(eng.globals.party_direction, DIR_EAST);
    assert_eq!(eng.globals.viewport, viewport_before);
}

#[test]
fn update_party_moves_or_stays_consistently_with_obstacle_check() {
    let mut eng = scene(1);
    eng.globals.viewport = (384, 672);
    eng.globals.party[0].x = eng.globals.partyoffset.0 as i16;
    eng.globals.party[0].y = eng.globals.partyoffset.1 as i16;

    eng.input.handle_key_event(KeyCode::ArrowRight, true);
    eng.input.update_keyboard_state(0);
    let x_source = eng.globals.viewport.0 + eng.globals.partyoffset.0;
    let y_source = eng.globals.viewport.1 + eng.globals.partyoffset.1;
    let target = (x_source + 16, y_source + 8);
    let blocked = eng.check_obstacle_with_range(target, true, 0, true);
    let viewport_before = eng.globals.viewport;

    eng.update_party(0);

    assert_eq!(eng.globals.party_direction, DIR_EAST);
    if blocked {
        assert_eq!(eng.globals.viewport, viewport_before);
    } else {
        assert_eq!(eng.globals.viewport, (viewport_before.0 + 16, viewport_before.1 + 8));
        assert_eq!(eng.globals.trail[0].x, x_source as u16);
        assert_eq!(eng.globals.trail[0].y, y_source as u16);
        assert_eq!(eng.globals.trail[0].direction, DIR_EAST);
    }
}

#[test]
fn update_party_consumes_a_terminal_tap_for_exactly_one_frame() {
    let mut eng = scene(1);
    eng.globals.viewport = (384, 672);
    eng.globals.party[0].x = eng.globals.partyoffset.0 as i16;
    eng.globals.party[0].y = eng.globals.partyoffset.1 as i16;

    let source =
        (eng.globals.viewport.0 + eng.globals.partyoffset.0, eng.globals.viewport.1 + eng.globals.partyoffset.1);
    let candidates = [
        (KeyCode::ArrowDown, (-16, 8)),
        (KeyCode::ArrowLeft, (-16, -8)),
        (KeyCode::ArrowUp, (16, -8)),
        (KeyCode::ArrowRight, (16, 8)),
    ];
    let (key, offset) = candidates
        .into_iter()
        .find(|(_, (dx, dy))| !eng.check_obstacle_with_range((source.0 + dx, source.1 + dy), true, 0, true))
        .expect("the initial party position should have an open adjacent step");

    let before = eng.globals.viewport;
    eng.input.handle_key_tap(key);
    eng.update_party(0);
    assert_eq!(eng.globals.viewport, (before.0 + offset.0, before.1 + offset.1));

    let after_one_step = eng.globals.viewport;
    eng.update_party(0);
    assert_eq!(eng.globals.viewport, after_one_step);
}

#[test]
fn npc_walk_one_step_moves_and_cycles_frames() {
    let mut eng = game();
    eng.globals.game.event_objects[0] =
        EventObject { direction: DIR_EAST, sprite_frames: 3, x: 100, y: 100, ..Default::default() };
    eng.npc_walk_one_step(1, 2);
    let p0 = eng.globals.game.event_objects[0];
    assert_eq!(p0.x, 104);
    assert_eq!(p0.y, 102);
    assert_eq!(p0.current_frame_num, 1);

    eng.globals.game.event_objects[1] = EventObject {
        direction: DIR_WEST,
        sprite_frames: 3,
        current_frame_num: 3,
        x: 200,
        y: 200,
        ..Default::default()
    };
    eng.npc_walk_one_step(2, 3);
    let p1 = eng.globals.game.event_objects[1];
    assert_eq!(p1.x, 194);
    assert_eq!(p1.y, 197);
    assert_eq!(p1.current_frame_num, 0);

    eng.globals.game.event_objects[2] = EventObject {
        direction: DIR_SOUTH,
        sprite_frames: 0,
        sprite_frames_auto: 5,
        current_frame_num: 4,
        ..Default::default()
    };
    eng.npc_walk_one_step(3, 1);
    assert_eq!(eng.globals.game.event_objects[2].current_frame_num, 0);

    let before = eng.globals.game.event_objects[0];
    eng.npc_walk_one_step(0, 5);
    eng.npc_walk_one_step(u16::MAX, 5);
    assert_eq!(eng.globals.game.event_objects[0].x, before.x);
    assert_eq!(eng.globals.game.event_objects[0].y, before.y);
}

#[test]
fn sprites_of_a_scene_come_in_drawing_order() {
    let mut e = scene(1);
    e.globals.viewport = (384, 672);
    e.globals.party[0].x = 160;
    e.globals.party[0].y = 112;
    let images = e.scene_draw_sprites();
    assert!(!images.is_empty());
    assert!(images.iter().all(|b| rle_width(b.frame) == 16));
    let again = e.scene_draw_sprites();
    assert_eq!(images.len(), again.len());
    assert!(images.iter().zip(again.iter()).all(|(a, b)| (a.x, a.y) == (b.x, b.y)));
}

// --- the wave ---------------------------------------------------------------

#[test]
fn apply_wave_progresses_and_resets() {
    let mut eng = game();
    eng.globals.screen_wave = 0;
    eng.globals.wave_progression = 8;
    eng.apply_wave();
    assert_eq!(eng.globals.screen_wave, 8);
    assert_eq!(eng.scene.wave_index, 1);

    eng.globals.screen_wave = 250;
    eng.globals.wave_progression = 10;
    eng.apply_wave();
    assert_eq!(eng.globals.screen_wave, 0);
    assert_eq!(eng.globals.wave_progression, 0);
    assert_eq!(eng.scene.wave_index, 1);
}

#[test]
fn a_wave_rotates_rows() {
    let mut eng = game();
    for x in 0..320 {
        for y in 0..200 {
            eng.screen.put_pixel(x, y, (x % 256) as u8);
        }
    }
    eng.globals.screen_wave = 64;
    eng.apply_wave();
    // Row 0 is in phase 0: (256 - 14 * 14) * 64 / 256 = 15 pixels.
    assert_eq!(eng.screen.pixels[0], 15);
    assert_eq!(eng.screen.pixels[319], 14);
    // Row 16 is in phase 16, which is the same to the other side.
    assert_eq!(eng.screen.pixels[16 * 320], ((320 - 15) % 256) as u8);
    let mut row: Vec<u8> = eng.screen.pixels[320 * 7..320 * 8].to_vec();
    row.sort();
    let mut plain: Vec<u8> = (0..320).map(|x| (x % 256) as u8).collect();
    plain.sort();
    assert_eq!(row, plain);
}

#[test]
fn make_scene_waves_the_map_and_asks_for_a_fade() {
    let mut a = scene(1);
    let mut b = scene(1);
    a.screen.clear(3);
    b.screen.clear(3);
    a.globals.need_to_fade_in = true;
    b.globals.need_to_fade_in = true;
    a.globals.num_palette = 6;
    b.globals.num_palette = 6;
    assert_eq!(a.make_scene(), Some((6, false)));
    assert_eq!(b.make_scene(), Some((6, false)));
    assert_eq!(a.screen.pixels, b.screen.pixels);
    assert!(!a.globals.need_to_fade_in);
    assert_eq!(a.make_scene(), None);
}

// --- frames of the game ------------------------------------------------------

#[test]
fn search_trigger_range_is_centered_on_party() {
    let e = scene(1);
    let range = e.get_search_trigger_range();
    let cx = (e.globals.viewport.0 + e.globals.partyoffset.0) as i64;
    let cy = (e.globals.viewport.1 + e.globals.partyoffset.1) as i64;
    assert_eq!(range[0], (cx, cy));
    assert_eq!(range.len(), 13);
}

#[test]
fn game_update_no_trigger_advances_frame_and_terminates() {
    let mut e = scene(1);
    e.globals.entering_scene = false;
    let before = e.globals.frame_num;
    run_update(&mut e, false);
    assert_eq!(e.globals.frame_num, before + 1);
}

#[test]
fn game_update_entering_scene_runs_enter_script() {
    let mut e = scene(1);
    e.globals.entering_scene = true;
    let scripts = run_update(&mut e, true);
    assert!(scripts >= 1);
    assert!(e.globals.frame_num >= 1 || e.globals.entering_scene);
}

#[test]
fn wait_for_key_times_out() {
    let mut e = scene(1);
    // Waits are answered at once without a player.
    assert_eq!(e.wait_for_key(10, 500), None);
    e.ui.auto_confirm = false;
    let wait = e.wait_for_key(10, 500).expect("a wait");
    assert_eq!(wait.pending(509), Some(5));
    assert_eq!(wait.pending(510), None);
    assert!(!e.wait_answered(&wait));
    e.input.key_press = KEY_SEARCH;
    assert!(e.wait_answered(&wait));
    e.input.key_press = KEY_RIGHT;
    assert!(!e.wait_answered(&wait));
    let any = e.wait_for_any_key(0, 500).expect("a wait");
    assert_eq!(any.pending(u64::MAX), Some(5));
    assert_eq!(e.input.key_press, 0);
    e.input.key_press = KEY_RIGHT;
    assert!(e.wait_answered(&any));
}

#[test]
fn game_update_auto_state_survives_i16_min() {
    let mut e = scene(1);
    e.globals.entering_scene = false;
    let scene = e.globals.num_scene as usize;
    let start = e.globals.game.scenes[scene - 1].event_object_index + 1;
    let end = e.globals.game.scenes[scene].event_object_index;
    assert!(start <= end, "scene 1 should have event objects");
    let idx = (start - 1) as usize;
    e.globals.game.event_objects[idx].state = i16::MIN;
    e.globals.game.event_objects[idx].vanish_time = 0;
    e.globals.game.event_objects[idx].x = 30000;
    e.globals.game.event_objects[idx].y = 30000;
    run_update(&mut e, true);
    assert_eq!(e.globals.game.event_objects[idx].state, i16::MIN);
}

#[test]
fn keys_ask_for_commands_in_order() {
    let mut e = scene(1);
    assert_eq!(e.frame_command(), FrameCommand::Nothing);
    e.input.key_press = KEY_SEARCH;
    assert_eq!(e.frame_command(), FrameCommand::Search);
    e.input.key_press = KEY_SEARCH | KEY_MENU;
    assert_eq!(e.frame_command(), FrameCommand::Menu);
}

#[test]
fn a_frame_walks_the_party_unless_a_scene_is_entered() {
    let mut e = scene(1);
    e.globals.viewport = (384, 672);
    e.input.handle_key_tap(KeyCode::ArrowUp);
    e.globals.entering_scene = true;
    assert!(!e.start_frame(0));
    assert_eq!(e.globals.viewport, (384, 672));
    e.globals.entering_scene = false;
    assert!(e.start_frame(0));
    assert_eq!(e.globals.viewport, (400, 664));
}

#[test]
fn searching_finds_who_stands_in_front() {
    let mut e = scene(1);
    // The one to talk to is at (640, 800); stand right at it.
    e.globals.viewport = (640 - 160, 800 - 112);
    let found = e.search().expect("found");
    assert_eq!((found.at, found.script), (0, 4981));
    e.input.key_press = KEY_SEARCH;
    assert_eq!(e.search_done(found.at, 4990), 50);
    assert_eq!(e.globals.game.event_objects[0].trigger_script, 4990);
    // Keys that come in during the pause are forgotten behind it.
    assert_eq!(e.input.key_press, KEY_SEARCH);
    e.search_left();
    assert_eq!(e.input.key_press, 0);
    e.globals.viewport = (0, 0);
    assert!(e.search().is_none());
}

#[test]
fn items_are_used_on_somebody() {
    let mut e = scene(1);
    assert_eq!(e.game_use_item(0), ItemUse::Done);
    assert_eq!(e.item_target_chosen(0xfff0, 0, 0xffff), ItemUse::Choose);
    assert!(matches!(e.game_use_item(92), ItemUse::Target { object: 92, .. }));
    assert!(!e.game_equip_item(0));
    assert!(e.game_equip_item(92));
}

// --- menus -------------------------------------------------------------------

#[test]
fn item_menu_update_draws_populated_inventory() {
    let mut e = game();
    let mut usable = None;
    for obj_id in 1..MAX_OBJECTS as u16 {
        if e.globals.game.objects[obj_id as usize].item_flags() & ITEMFLAG_USABLE != 0 {
            usable = Some(obj_id);
            break;
        }
    }
    let obj = usable.expect("a usable item exists");
    e.globals.add_item_to_inventory(obj, 5);

    let ctx = e.item_select_menu_init(ITEMFLAG_USABLE);
    assert!(ctx.num_inventory >= 1);
    let turn = e.item_select_menu_update(&ctx);
    assert_eq!(turn.choice, 0xFFFF);
    assert!(turn.draws.iter().any(|d| matches!(d, Draw::Word { word, .. } if *word == obj)));
}

#[test]
fn item_menu_confirms_and_leaves() {
    let mut e = game();
    e.globals.add_item_to_inventory(92, 5);
    let ctx = e.item_select_menu_init(ITEMFLAG_USABLE);
    e.globals.cur_inv_menu_item = 0;
    e.input.key_press = KEY_SEARCH;
    assert_eq!(e.item_select_menu_update(&ctx).choice, 92);
    e.input.key_press = KEY_MENU;
    assert_eq!(e.item_select_menu_update(&ctx).choice, 0);
    assert_eq!(e.item_menu_shown(0), MenuStep::Leave { choice: 0 });
    assert_eq!(NO_CHOICE, 0xffff);
}

#[test]
fn magic_menu_update_draws() {
    let mut e = game();
    e.globals.game.player_roles.mp[0] = 999;
    e.globals.game.player_roles.max_mp[0] = 999;
    let mut added = false;
    for obj_id in 1..MAX_OBJECTS as u16 {
        let magic_num = e.globals.game.objects[obj_id as usize].magic_number();
        if magic_num != 0 && (magic_num as usize) < e.globals.game.magics.len() && e.globals.add_magic(0, obj_id) {
            added = true;
            break;
        }
    }
    assert!(added, "no magic object found to add");

    let mut ctx = e.magic_selection_menu_init(0, false, 0);
    assert!(!ctx.items.is_empty());
    let turn = e.magic_selection_menu_update(&mut ctx);
    assert_eq!(turn.choice, 0xFFFF);
    assert!(!turn.draws.is_empty());
}

#[test]
fn magic_selection_update_survives_empty_items() {
    let mut e = game();
    let mut ctx = e.magic_selection_menu_init(0, false, 0);
    ctx.items.clear();
    ctx.current = 0;
    e.input.key_press = KEY_SEARCH;
    let turn = e.magic_selection_menu_update(&mut ctx);
    assert_eq!(turn.choice, 0xFFFF);
}

#[test]
fn magics_cost_what_the_table_says() {
    let mut e = game();
    assert!(e.globals.add_magic(0, 300));
    e.globals.game.player_roles.mp[0] = 8;
    let ctx = e.magic_selection_menu_init(0, false, 300);
    assert_eq!((ctx.items[0].magic, ctx.items[0].mp, ctx.items[0].enabled), (300, 8, true));
    e.globals.game.player_roles.mp[0] = 7;
    let ctx = e.magic_selection_menu_init(0, false, 300);
    assert!(!ctx.items[0].enabled);
}

#[test]
fn item_menus_look_only_at_what_they_show() {
    let mut e = game();
    e.globals.add_item_to_inventory(92, 5);
    e.globals.follower_num = 200;
    e.globals.cur_inv_menu_item = i32::MIN;
    // Unknown items behind a gap are no concern.
    e.globals.in_battle = true;
    let (menu, _) = e.item_select_menu(false, ITEMFLAG_USABLE);
    e.globals.inventory[200].item = 0xfff0;
    let turn = e.item_select_menu_update(&menu.ctx);
    assert_eq!((turn.choice, e.globals.cur_inv_menu_item), (NO_CHOICE, 0));
    assert!(turn.draws.iter().any(|d| matches!(d, Draw::Word { word: 92, .. })));
}

#[test]
fn item_menus_tell_of_the_selection() {
    let mut e = game();
    e.globals.add_item_to_inventory(92, 5);
    e.globals.add_item_to_inventory(272, 1);
    e.input.key_press = KEY_RIGHT;
    let (mut menu, told) = e.item_select_menu(true, ITEMFLAG_USABLE);
    assert_eq!(told, Some(92));
    assert_eq!((menu.ctx.num_inventory, menu.prev_index, e.input.key_press), (2, 0, 0));
    e.input.key_press = KEY_RIGHT;
    assert_eq!(e.menu_waits(10, 20), None);
    let turn = e.item_select_menu_update(&menu.ctx);
    e.input.clear_key_state();
    assert_eq!(e.menu_waits(10, 20), Some(5));
    assert_eq!(e.menu_waits(20, 20), None);
    assert_eq!(e.item_menu_next(&mut menu, turn.choice), MenuStep::Changed { item: 272 });
    assert_eq!(e.item_menu_next(&mut menu, turn.choice), MenuStep::Again);
    assert_eq!(e.item_menu_next(&mut menu, 272), MenuStep::Leave { choice: 272 });
    e.quit_requested = true;
    assert_eq!(e.item_menu_next(&mut menu, 272), MenuStep::Leave { choice: 0 });
    let (menu, told) = e.item_select_menu(false, ITEMFLAG_USABLE);
    assert_eq!((menu.tells, told), (false, None));
}

#[test]
fn a_confirmed_magic_closes_the_menu_whatever_its_number() {
    let mut e = game();
    e.globals.add_magic(0, 300);
    let mut ctx = e.magic_selection_menu(0, false, 300).expect("a magic");
    e.magic_selection_menu_update(&mut ctx);
    assert!(e.ui.agent_menu.is_some());
    ctx.items[0].magic = 0xffff;
    e.input.key_press = KEY_SEARCH;
    assert_eq!(e.magic_selection_menu_update(&mut ctx).choice, 0xffff);
    assert!(e.ui.agent_menu.is_none());
}

#[test]
fn magic_menus_open_where_there_are_magics() {
    let mut e = game();
    assert!(e.magic_selection_menu(0, false, 0).is_none());
    assert!(e.globals.add_magic(0, 300));
    let ctx = e.magic_selection_menu(0, false, 300).expect("a magic");
    assert_eq!((ctx.items.len(), ctx.current, ctx.player_mp), (1, 0, 40));
    assert_eq!(e.magic_menu_party(), vec![Draw::PlayerInfo { role: 0, x: 45, y: 165 }]);
    assert_eq!(e.magic_menu_shown(&ctx, 7), MenuStep::Leave { choice: 7 });
    e.ui.auto_confirm = true;
    assert_eq!(e.magic_menu_shown(&ctx, NO_CHOICE), MenuStep::Leave { choice: 300 });
    e.ui.auto_confirm = false;
    assert_eq!(e.magic_menu_shown(&ctx, NO_CHOICE), MenuStep::Wait);
    assert_eq!(e.magic_menu_next(), MenuStep::Again);
    e.quit_requested = true;
    assert_eq!(e.magic_menu_next(), MenuStep::Leave { choice: 0 });
}

#[test]
fn used_items_are_taken_away() {
    let mut e = game();
    e.globals.add_item_to_inventory(272, 2);
    let flags = ITEMFLAG_USABLE | ITEMFLAG_CONSUMING;
    assert_eq!(e.item_target_chosen(272, flags, 0xffff), ItemUse::Choose);
    assert_eq!(
        e.item_target_chosen(272, flags, 3),
        ItemUse::Run { object: 272, flags, script: 5000, on: 3, all: false }
    );
    assert_eq!(e.item_script_done(272, flags, false, 5001, true), ItemUse::Target { object: 272, flags });
    assert_eq!(e.globals.count_item(272), 1);
    assert_eq!(e.globals.game.objects[272].item_script_on_use(), 5001);
    assert_eq!(e.item_script_done(272, flags, true, 5002, false), ItemUse::Done);
    assert_eq!(e.globals.count_item(272), 1);
    e.globals.game.player_roles.equipment[2][0] = 272;
    assert_eq!(e.globals.count_item(272), 2);
    assert_eq!(e.globals.count_item(0), 0);
    // There is nothing to take away from what is not held.
    assert_eq!(e.globals.add_item_to_inventory(0, i32::MIN), 0);
    assert_eq!(e.globals.add_item_to_inventory(500, i32::MIN), 0);
}

// --- what automation sees ------------------------------------------------------

#[test]
fn script_rank_dialog_loop_vs_item_delivery() {
    let e = engine();
    let aunt = analyze_script_progress(&e, 4981);
    assert_eq!(aunt.label, "dialog");
    let stairs = analyze_script_progress(&e, 4885);
    assert_eq!(stairs.label, "item");
    assert_eq!(stairs.grants_item, Some(272));
    assert_eq!(script_destination_scene(&e, 30), Some(2));
    assert_eq!(script_destination_scene(&e, 4981), None);
}

#[test]
fn state_is_observation_not_strategy() {
    let mut e = scene(1);
    e.globals.viewport = (608, 1024);
    e.globals.partyoffset = (160, 112);
    let json = state(&e);
    assert!(!json.contains("\"nav\""), "nav must not be published");
    assert!(!json.contains("\"keys_hint\""));
    assert!(!json.contains("\"hint\""));
    assert!(!json.contains("\"party\":[") && !json.contains("\"party\": ["));
    assert!(!json.contains("\"inventory\":[") && !json.contains("\"inventory\": ["));
    assert!(json.contains("\"resources\""));
    assert!(json.contains("/v1/party"));
    assert!(json.contains("\"map\":"));
    assert!(json.contains("\"dirs\""));
    assert!(json.contains("\"exits\""));
    assert!(json.contains("\"mechanisms\""));
    assert!(json.contains("\"obstacles\""));
    assert!(json.contains("\"events\":"));
    assert!(json.contains("\"player\":"));
    assert!(json.contains("\"walk\":"));
}

#[test]
fn party_and_inventory_endpoints_json() {
    let mut e = engine();
    e.globals.in_main_game = true;
    e.globals.add_item_to_inventory(92, 1);
    let p = build_party_json(&e, 0);
    assert!(p.contains("\"party\":"));
    assert!(p.contains("李逍遙") || p.contains("\"name\""));
    let inv = build_inventory_json(&e, 0);
    assert!(inv.contains("\"inventory\":"));
    assert!(inv.contains("\"item\":92") || inv.contains("水果"));
}

#[test]
fn map_dirs_match_walk_deltas() {
    let e = scene(1);
    let json = state(&e);
    assert!(json.contains("\"up\":{\"dx\":16,\"dy\":-8"));
    assert!(json.contains("\"right\":{\"dx\":16,\"dy\":8"));
    assert!(json.contains("\"down\":{\"dx\":-16,\"dy\":8"));
    assert!(json.contains("\"left\":{\"dx\":-16,\"dy\":-8"));
}

#[test]
fn state_has_reachability_bitmap_and_walk_fields() {
    let mut e = scene(1);
    e.globals.viewport = (384, 672);
    e.globals.partyoffset = (160, 112);
    let json = state(&e);
    assert!(json.contains("\"walk_blocked\""));
    assert!(json.contains("\"trail\""));
    assert!(json.contains("\"walk_reachable\""));
    assert!(json.contains("\"walk_span\""));
    assert!(json.contains("\"facing_note\""));
    assert!(json.contains("\"on_grid\""));
    assert!(json.contains("\"awaiting_input\""));
    assert!(!json.contains("\"blocked_bits\""));
    assert!(json.contains("/v1/obstacles"));
    assert!(!json.contains("\"trigger_script\""));
    assert!(!json.contains("\"auto_script\""));
    assert!(!json.contains("\"tiles\":[["));
    let obs = build_obstacles_json(&e, 0);
    assert!(obs.contains("\"format\":\"sparse_tiles\""));
    assert!(obs.contains("\"tiles\":"));
}

#[test]
fn on_grid_and_grid_snap() {
    assert!(is_iso_grid((1440, 1536)));
    assert!(!is_iso_grid((710, 670)));
    let snap = nearest_iso_grid((710, 670));
    assert!(is_iso_grid(snap));
    assert!((snap.0 - 710).abs() <= 16);
    assert!((snap.1 - 670).abs() <= 8);
}

#[test]
fn boot_stage_and_title_menu_phase() {
    let mut e = engine();
    e.globals.in_main_game = false;
    let json = state(&e);
    assert!(json.contains("\"phase\":\"boot\"") || json.contains("\"boot_stage\""));
    assert!(json.contains("\"awaiting_input\":true"));
    assert!(json.contains("\"boot_stage\":\"intro\"") || json.contains("\"boot_stage\":\"title_menu\""));
}

#[test]
fn script_dialog_label_finds_speaker() {
    let e = engine();
    let label = script_dialog_label(&e, 4981);
    assert_eq!(label.as_deref(), Some("李大娘"));
    if let Some(s) = label {
        assert!(!s.is_empty());
        assert!(s.chars().count() <= 12);
        assert!(!is_party_or_playable_name(&e, &s), "label must not be party name: {s}");
    }
}

#[test]
fn party_name_not_used_as_object_label() {
    let e = engine();
    assert!(
        is_party_or_playable_name(&e, "李逍遙")
            || word_utf8(&e, e.globals.game.player_roles.name[0] as usize) != "李逍遙"
    );
    let name0 = word_utf8(&e, e.globals.game.player_roles.name[0] as usize);
    if !name0.is_empty() {
        assert!(is_party_or_playable_name(&e, &name0));
    }
}

#[test]
fn classify_roles_exit_only_with_dest() {
    assert_eq!(classify_event_role(5, 0, 1, Some(3), "scene"), "exit");
    assert_eq!(classify_event_role(5, 0, 1, None, "mild"), "door");
    assert_eq!(classify_event_role(5, 0, 1, None, "item"), "load_point");
    assert_eq!(classify_event_role(1, 0, 1, None, "dialog"), "trigger");
    assert_eq!(classify_event_role(1, 21, 1, None, "dialog"), "npc");
    assert_eq!(classify_event_role(0, 0, 0, None, "none"), "decor");
}

#[test]
fn approach_face_reduces_metric() {
    let player = (100, 100);
    let target = (132, 84);
    let f = approach_face(player, target);
    let d0 = metric(player, target);
    let step = WALK_DELTA.iter().find(|&&(_, n)| n == f).unwrap().0;
    let d1 = metric((player.0 + step.0, player.1 + step.1), target);
    assert!(d1 < d0, "face {f} should approach target");
}

#[test]
fn search_spots_nonempty_for_npc_in_inn() {
    let mut e = scene(1);
    e.globals.viewport = (544, 672);
    e.globals.partyoffset = (160, 112);
    let json = state(&e);
    if json.contains("\"kind\":\"search\"") {
        assert!(json.contains("\"approach_dir\"") || json.contains("\"search_spots\""));
    }
    assert!(json.contains('{') && json.contains("\"status\":\"ok\""));
    assert!(!compute_search_spots(&e, (640, 800), 2).is_empty());
}

#[test]
fn osmanthus_wine_targets_drunkard() {
    let mut e = engine();
    e.globals.add_item_to_inventory(272, 1);
    assert_eq!(story_item_for_event(&e, 63), Some(272));
    assert_eq!(story_item_for_event(&e, 20), None);
}

#[test]
fn touch_radius_matches_engine_formula() {
    assert_eq!(touch_radius_of(4), 16);
    assert_eq!(touch_radius_of(5), 48);
    assert_eq!(touch_radius_of(6), 80);
    assert_eq!(touch_radius_of(3), 0);
    assert!(in_touch_at((0, 0), (16, 0), 48));
    assert!(!in_touch_at((0, 0), (48, 0), 48));
}

#[test]
fn exit_hazard_expands_touch_radius() {
    let exits = [SceneExit { id: 1, pos: (1000, 1000), radius: 48, dest_scene: 2 }];
    let cells = scene_exit_hazard_cells(&exits);
    assert!(cells.contains(&(1000, 1000)));
    assert!(
        cells.contains(&(1016, 992))
            || cells.contains(&(1016, 1008))
            || cells.contains(&(984, 1008))
            || cells.contains(&(984, 992))
    );
    assert!(!cells.contains(&(1000 + 160, 1000)));
}

#[test]
fn state_exports_step_touch_and_spot_safety() {
    let mut e = scene(3);
    e.globals.viewport = (1104, 1352);
    e.globals.partyoffset = (160, 112);
    let json = state(&e);
    assert!(json.contains("\"step_touch\":"), "step_touch missing");
    assert!(json.contains("\"in_touch_now\":"), "in_touch_now missing");
    assert!(json.contains("\"touch_radius\""), "touch_radius missing");
    assert!(json.contains("\"last_scene_exit\":"), "last_scene_exit missing");
    assert!(json.contains("\"return_exits\""), "return_exits on portals missing");
    if json.contains("\"search_spots\"") {
        assert!(
            json.contains("\"in_exit_touch\"") || json.contains("\"best_spot\""),
            "search spot safety fields missing"
        );
        assert!(json.contains("\"facing_ok\"") || json.contains("\"need_face\""));
    }
    assert!(json.contains("\"screen\":"), "screen coords missing");
    assert!(!json.contains("\"keys_hint\""));
}

#[test]
fn scene_exit_transit_sticky_and_attributes_source() {
    let mut last: Option<SceneExitTransit> = None;
    let exits = [SceneExit { id: 50, pos: (1000, 1000), radius: 48, dest_scene: 2 }];
    note_scene_exit_touch(&mut last, 3, false, (1000, 1000), &exits);
    let t = last.unwrap();
    assert_eq!(t.exit_id, 50);
    assert_eq!(t.from_scene, 3);
    assert_eq!(t.dest_scene, 2);
    note_scene_exit_touch(&mut last, 2, true, (0, 0), &[]);
    let t2 = last.unwrap();
    assert_eq!(t2.exit_id, 50);
    assert_eq!(t2.from_scene, 3);
    let mut members = Members::new();
    append_scene_exit_transit(&mut members, last, 2, true);
    let out = members.into_object();
    assert!(out.contains("\"scene_change_exit_id\":50"));
    assert!(out.contains("\"scene_change_from_scene\":3"));
    assert!(out.contains("\"scene_change_dest\":2"));
    assert!(out.contains("\"last_scene_exit\""));
}

#[test]
fn path_to_reconstructs_and_exit_cover_detects() {
    let start = (0, 0);
    let mid = (16, -8);
    let reach = Reachability { steps: vec![(start, 0), (mid, 1)] };
    let path = reach.path_to(mid, 0).expect("path");
    assert_eq!(path.first().copied(), Some(start));
    assert_eq!(path.last().copied(), Some(mid));
    let exits = [SceneExit { id: 9, pos: mid, radius: 48, dest_scene: 1 }];
    let hit = exits_covering_path(&path, &exits);
    assert_eq!(hit.len(), 1);
    assert_eq!(hit[0].id, 9);
}

#[test]
fn ways_are_shortest_and_stay_out_of_exits() {
    let mut e = scene(1);
    e.globals.viewport = (384, 672);
    let start = nearest_iso_grid((544, 784));
    let all = compute_reachable(&e, start, 6000, None);
    assert_eq!(all.steps_to(start, 0), Some(0));
    let two = (start.0 + 32, start.1 + 16);
    assert_eq!(all.steps_to(two, 0), Some(2));
    let path = all.path_to(two, 0).expect("a way");
    assert_eq!(path.len(), 3);
    let exits = collect_scene_exits(&e);
    assert_eq!(exits.len(), 1);
    let hazards = scene_exit_hazard_cells(&exits);
    let safe = compute_reachable(&e, start, 6000, Some(&hazards));
    assert!(safe.steps.iter().all(|(p, _)| *p == start || !hazards.contains(p)));
    assert!(!safe.can_reach(exits[0].pos, 0));
}

// --- looking around -------------------------------------------------------------

#[test]
fn events_reach_the_keyboard_in_order() {
    let mut e = game();
    let events = vec![
        KeyEvent::State { code: KeyCode::ArrowUp, pressed: true },
        KeyEvent::Tap(KeyCode::Enter),
    ];
    e.process_event(&events, false, 50);
    assert!(e.input.pressed(KEY_SEARCH));
    assert_eq!(e.input.dir, 2);
    assert!(!e.quit_requested);
    e.process_event(&Vec::new(), true, 60);
    assert!(e.quit_requested);
    assert_eq!(e.delay_until(1000, 60), None);
}

#[test]
fn sleeps_are_short_and_end_on_time() {
    let e = game();
    assert_eq!(e.delay(250, 1000), 1250);
    assert_eq!(e.delay_until(1250, 1000), Some(5));
    assert_eq!(e.delay_until(1250, 1248), Some(2));
    assert_eq!(e.delay_until(1250, 1250), None);
    assert_eq!(e.frame_deadline(70), 170);
}

#[test]
fn clocks_scale_and_sessions_add_up() {
    let mut e = Engine::new(globals(), texts(), true, VideoBackend::Headless.tick_scale(Some("4")));
    assert_eq!(e.ticks(Some(25)), 100);
    assert_eq!(e.ticks(Some(u64::MAX)), u64::MAX);
    assert!(e.ticks(None) % 4 == 0);
    e.playtime_begin_session(100);
    assert!(e.playtime_secs() >= 100);
    e.playtime_commit_session();
    assert!(e.globals.playtime_secs >= 100);
    assert_eq!(Engine::playtime_hhmm(3600 * 123 + 59 * 60 + 59), (123, 59));
}

#[test]
fn inventory_slots_keep_no_item_twice() {
    let mut g = globals();
    g.add_item_to_inventory(7, 2);
    g.add_item_to_inventory(3, 1);
    g.add_item_to_inventory(7, 2);
    assert_eq!(g.get_item_amount(7), 4);
    assert_eq!(g.inventory.iter().filter(|s| s.item == 7).count(), 1);
    g.inventory[0] = Inventory { item: 7, amount: 0, amount_in_use: 0 };
    g.compress_inventory();
    assert_eq!(g.inventory.iter().filter(|s| s.item == 7).count(), 0);
}

// --- battles -----------------------------------------------------------------------

fn battle(menu_state: BattleMenuState, selected_action: u16, selected_index: i32) -> Battle {
    let enemy = || BattleEnemy {
        object_id: 0,
        e: Enemy::default(),
        prev_hp: 0,
        state: FighterState::Wait,
        time_meter: "0".to_string(),
        pos: (0, 0),
        status: [0; 9],
    };
    let player =
        || BattlePlayer { state: FighterState::Com, time_meter: "100".to_string(), defending: false };
    let mut enemies = [enemy(), enemy(), enemy(), enemy(), enemy()];
    enemies[0].object_id = 400;
    enemies[0].e.health = 55;
    Battle {
        phase: BattlePhase::SelectAction,
        ui: BattleUi {
            state: BattleUiState::SelectMove,
            menu_state,
            cur_player_index: 0,
            selected_action,
            selected_index,
            auto_attack: false,
            msg: String::new(),
        },
        force: false,
        flee: false,
        is_boss: true,
        enemy_cleared: false,
        battle_result: BattleResult::OnGoing,
        exp_gained: 0,
        cash_gained: 0,
        max_enemy_index: 0,
        enemy: enemies,
        player: [player(), player(), player()],
    }
}

#[test]
fn battle_menus_point_at_their_entries() {
    let e = game();
    let (kind, index, items) = battle_menu_snapshot(&e, &battle(BattleMenuState::Main, 7, 0));
    assert_eq!((kind, index, items.len()), ("battle_main", 3, 4));
    let (kind, index, items) = battle_menu_snapshot(&e, &battle(BattleMenuState::Misc, 0, 99));
    assert_eq!((kind, index, items.len()), ("battle_misc", 4, 5));
    let (_, index, items) = battle_menu_snapshot(&e, &battle(BattleMenuState::MiscItemSubMenu, 0, -3));
    assert!(index < items.len());
    let (_, _, items) = battle_menu_snapshot(&e, &battle(BattleMenuState::MagicSelect, 0, 0));
    assert!(items.is_empty());
}

#[test]
fn battles_are_told() {
    let mut e = scene(1);
    let b = battle(BattleMenuState::Main, 0, 0);
    let text = battle_json(&e, &b);
    assert!(text.contains("\"phase\":\"select_action\"") || text.contains("\"phase\":"));
    assert!(text.contains("\"is_boss\":true"));
    assert!(text.contains("55"));
    e.battle = Some(b);
    let json = state(&e);
    assert!(json.contains("\"phase\":\"battle\""));
    assert!(json.contains("\"in_battle\":true"));
    assert!(!json.contains("\"battle\":null"));
}

// --- storage -------------------------------------------------------------------------

#[test]
fn words_read_back_as_written() {
    let mut w = WordWriter::new();
    w.u16(0xbeef);
    w.i16(-2);
    w.u32(0x1234_5678);
    let mut r = WordReader::new(&w.buf);
    assert_eq!(r.u16(), 0xbeef);
    assert_eq!(r.i16(), -2);
    assert_eq!(r.u32(), 0x1234_5678);
    assert_eq!(r.remaining(), 0);
    // Words past the end are 0.
    assert_eq!(r.u16(), 0);
}

#[test]
fn missing_bytes_read_as_zero() {
    let mut r = WordReader::new(&[0x34]);
    assert_eq!(r.u16(), 0x34);
    assert_eq!(r.pos(), 2);
    assert_eq!(r.u16(), 0);
    let mut r = WordReader::new(&[0x78, 0x56, 0x34]);
    assert_eq!(r.u32(), 0x34_5678);
    assert_eq!((r.pos(), r.remaining()), (4, 0));
}

#[test]
fn objects_and_roles_survive_storage() {
    let o = GameObject::from_dos([1, 2, 3, 4, 5, 6]);
    assert_eq!(o.to_dos(), [1, 2, 3, 4, 5, 6]);
    assert_eq!(o.item_flags(), 6);
    let mut roles = roles();
    roles.equipment[2][5] = 0x1234;
    roles.magic[31][0] = 9;
    let mut w = WordWriter::new();
    roles.write(&mut w);
    assert_eq!(w.buf.len(), PlayerRoles::BYTES);
    let back = PlayerRoles::read(&mut WordReader::new(&w.buf));
    assert_eq!(back.equipment[2][5], 0x1234);
    assert_eq!(back.magic[31][0], 9);
    assert_eq!(back.name, roles.name);
    roles.clear_role_column(0);
    assert_eq!((roles.level[0], roles.magic[31][0], roles.equipment[2][5]), (0, 0, 0x1234));
}

#[test]
fn saved_games_load_back_whole() {
    let mut g = globals();
    g.load_default_game().unwrap();
    g.viewport = (640, 800);
    g.party_direction = 3;
    g.trail[2] = Trail { x: 7, y: 8, direction: 2 };
    g.poison_status[3][1] = PoisonStatus { poison_id: 5, poison_script: 6 };
    g.exp.flee_exp[4].count = 99;
    g.game.event_objects[6].state = -3;
    g.game.scenes[9].script_on_enter = 77;
    g.game.objects[8] = GameObject::from_dos([9, 8, 7, 6, 5, 4]);
    let bytes = g.save_game_to_bytes(2);
    let mut h = globals();
    h.load_game_from_bytes(&bytes).unwrap();
    assert_eq!(h.viewport, (640, 800));
    assert_eq!(h.party_direction, 3);
    assert_eq!((h.trail[2].x, h.trail[2].y, h.trail[2].direction), (7, 8, 2));
    // Nobody stays poisoned.
    assert_eq!(h.poison_status[3][1], PoisonStatus::default());
    assert_eq!(h.exp.flee_exp[4].count, 99);
    assert_eq!(h.game.event_objects[6].state, -3);
    assert_eq!(h.game.scenes[9].script_on_enter, 77);
    assert_eq!(h.game.objects[8].to_dos(), [9, 8, 7, 6, 5, 4]);
    g.poison_status[3][1] = PoisonStatus::default();
    assert_eq!(h.save_game_to_bytes(2), g.save_game_to_bytes(2));
}

#[test]
fn saving_writes_a_game_and_its_play_time() {
    let mut g = globals();
    g.load_default_game().unwrap();
    let (bytes, text) = g.save_game(3, 9, 4000);
    assert_eq!(bytes, g.save_game_to_bytes(9));
    assert_eq!(text, Some("4000\n".to_string()));
    assert_eq!(g.save_game(0, 9, 4000).1, None);
}

#[test]
fn objects_mean_what_they_are_used_as() {
    let mut o = GameObject::from_dos([10, 11, 12, 13, 14, 15]);
    assert_eq!(o.data, [10, 11, 12, 13, 14, 0, 15]);
    assert_eq!((o.player_script_on_friend_death(), o.player_script_on_dying()), (12, 13));
    assert_eq!((o.item_bitmap(), o.item_price(), o.item_flags()), (10, 11, 15));
    assert_eq!((o.item_script_on_use(), o.item_script_on_equip(), o.item_script_on_throw()), (12, 13, 14));
    assert_eq!((o.magic_number(), o.magic_script_on_success(), o.magic_script_on_use(), o.magic_flags()), (10, 12, 13, 15));
    assert_eq!((o.enemy_id(), o.enemy_resistance_to_sorcery()), (10, 11));
    assert_eq!(
        (o.enemy_script_on_turn_start(), o.enemy_script_on_battle_end(), o.enemy_script_on_ready()),
        (12, 13, 14)
    );
    assert_eq!((o.poison_level(), o.poison_color()), (10, 11));
    assert_eq!((o.poison_player_script(), o.poison_enemy_script()), (12, 14));
    o.set_player_script_on_friend_death(20);
    o.set_player_script_on_dying(21);
    assert_eq!(o.to_dos(), [10, 11, 20, 21, 14, 15]);
    o.set_item_script_on_use(22);
    o.set_item_script_on_equip(23);
    o.set_item_script_on_throw(24);
    assert_eq!(o.to_dos(), [10, 11, 22, 23, 24, 15]);
    o.set_magic_script_on_success(25);
    o.set_magic_script_on_use(26);
    assert_eq!(o.to_dos(), [10, 11, 25, 26, 24, 15]);
    o.set_enemy_script_on_turn_start(27);
    o.set_enemy_script_on_battle_end(28);
    o.set_enemy_script_on_ready(29);
    assert_eq!(o.to_dos(), [10, 11, 27, 28, 29, 15]);
    o.set_poison_player_script(30);
    o.set_poison_enemy_script(31);
    assert_eq!(o.to_dos(), [10, 11, 30, 28, 31, 15]);
    let magic = MagicData { specific: 0xfffe, ..MagicData::default() };
    assert_eq!((magic.summon_effect(), magic.layer_offset()), (0xfffe, -2));
}

// --- party -----------------------------------------------------------------------------

#[test]
fn equipment_adds_up_and_comes_off() {
    let mut g = globals();
    g.load_default_game().unwrap();
    g.game.player_roles.attack_strength[0] = 10;
    g.equipment_effect[BODYPART_HAND].attack_strength[0] = 7;
    g.equipment_effect[BODYPART_HAND].attack_all[0] = 1;
    g.player_status[0][STATUS_DUALATTACK] = 1000;
    assert_eq!(g.player_attack_strength(0), 17);
    assert!(g.player_can_attack_all(0));
    g.remove_equipment_effect(0, BODYPART_HAND);
    assert_eq!(g.player_attack_strength(0), 10);
    assert!(!g.player_can_attack_all(0));
    assert_eq!(g.player_status[0][STATUS_DUALATTACK], 0);
    g.remove_equipment_effect(0, BODYPART_WEAR);
    assert_eq!(g.player_poison_resistance(0), 0);
}

#[test]
fn equipment_changes_every_statistic() {
    let mut g = globals();
    g.load_default_game().unwrap();
    g.game.player_roles.magic_strength[0] = 1;
    g.game.player_roles.defense[0] = 2;
    g.game.player_roles.dexterity[0] = 3;
    g.game.player_roles.flee_rate[0] = 4;
    g.game.player_roles.poison_resistance[0] = 60;
    g.game.player_roles.elemental_resistance[2][0] = 30;
    g.game.player_roles.sprite_num_in_battle[0] = 5;
    g.game.player_roles.cooperative_magic[0] = 6;
    for part in [BODYPART_HAND, BODYPART_WEAR] {
        let worn = &mut g.equipment_effect[part];
        worn.magic_strength[0] = 10;
        worn.defense[0] = 20;
        worn.dexterity[0] = 0xffff;
        worn.flee_rate[0] = 40;
        worn.poison_resistance[0] = 30;
        worn.elemental_resistance[2][0] = 7;
    }
    assert_eq!(g.player_magic_strength(0), 21);
    assert_eq!(g.player_defense(0), 42);
    assert_eq!(g.player_dexterity(0), 1);
    assert_eq!(g.player_flee_rate(0), 84);
    assert_eq!(g.player_poison_resistance(0), 100);
    assert_eq!(g.player_elemental_resistance(0, 2), 44);
    assert_eq!((g.player_battle_sprite(0), g.player_cooperative_magic(0)), (5, 6));
    g.equipment_effect[BODYPART_HAND].sprite_num_in_battle[0] = 15;
    g.equipment_effect[BODYPART_HAND].cooperative_magic[0] = 16;
    assert_eq!((g.player_battle_sprite(0), g.player_cooperative_magic(0)), (15, 16));
}

#[test]
fn poisons_are_cured_by_kind_and_level() {
    let mut g = globals();
    g.load_default_game().unwrap();
    g.game.objects[50] = GameObject::from_dos([2, 0, 0, 0, 0, 0]);
    g.game.objects[51] = GameObject::from_dos([3, 0, 0, 0, 0, 0]);
    g.poison_status[0][0] = PoisonStatus { poison_id: 50, poison_script: 1 };
    g.poison_status[1][0] = PoisonStatus { poison_id: 51, poison_script: 1 };
    assert!(g.is_player_poisoned_by_kind(0, 50));
    assert!(g.is_player_poisoned_by_level(0, 3));
    g.cure_poison_by_level(0, 2);
    assert!(!g.is_player_poisoned_by_kind(0, 50));
    assert!(g.is_player_poisoned_by_kind(0, 51));
    g.cure_poison_by_kind(0, 51);
    assert!(!g.is_player_poisoned_by_kind(0, 51));
    assert_eq!(g.party_index_of_role(0), Some(0));
    assert_eq!(g.party_index_of_role(5), None);
}

#[test]
fn statuses_are_not_shortened() {
    let mut g = globals();
    g.load_default_game().unwrap();
    g.game.player_roles.hp[0] = 10;
    g.set_player_status(0, STATUS_BRAVERY, 7);
    g.set_player_status(0, STATUS_BRAVERY, 3);
    assert_eq!(g.player_status[0][STATUS_BRAVERY], 7);
    g.set_player_status(0, STATUS_BRAVERY, 9);
    assert_eq!(g.player_status[0][STATUS_BRAVERY], 9);
}

// --- places ------------------------------------------------------------------------------

#[test]
fn steps_are_undone() {
    let p = (640, 800);
    assert_eq!(step_from(step_from(p, 0), 2), p);
    assert_eq!(step_from(step_from(p, 1), 3), p);
    assert_eq!(metric(p, step_from(p, 0)), 32);
}

#[test]
fn what_is_found_is_in_range() {
    let info = search_info((640, 800), (640, 800), 2, 0);
    assert!(info.can_now && info.in_range);
    let far = search_info((640, 800), (6400, 8000), 2, 0);
    assert!(!far.can_now && !far.in_range && far.face.is_none());
}

#[test]
fn more_checks_block_more() {
    let e = scene(1);
    // The map is open here, but somebody stands in the way.
    let pos = (416, 656);
    assert!(!e.check_obstacle_with_range(pos, false, 0, false));
    assert!(e.check_obstacle_with_range(pos, true, 0, false));
    assert!(e.check_obstacle_with_range(pos, true, 0, true));
    assert!(!e.check_obstacle_with_range(pos, true, 3, false));
}
