//! Plans and settings: the upscaler, the command line, cues and sound.

use rustpal::cues::{trademark_screen, Cue};
use rustpal::data::{DataDir, GameFiles, Mkf};
use rustpal::engine::Engine;
use rustpal::global::Globals;
use rustpal::json::{push_json_string, Members};
use rustpal::launch::{
    console_mode, parse_args, BackendError, Command, ConsoleMode, Options, VideoBackend, DEFAULT_BIND,
};
use rustpal::playtime::{parse_playtime_bytes, playtime_file_name, read_playtime_secs, save_file_name};
use rustpal::sound::{frames_due, MusicAction, SoundInstance, VocSound};
use rustpal::ui::Texts;
use rustpal::upscale::{
    headless_limits, layer_uniform_data, layers, mid_pixels_per_workgroup, network_passes, uniform_offset,
    validate_model_metadata, Kernel, LayerFault, INPUT_H, INPUT_SIZE, INPUT_W, LAYER_COUNT, MODEL_SIZE,
    OUTPUT_HEIGHT, OUTPUT_SIZE, OUTPUT_WIDTH, UNIFORM_STRIDE,
};

fn engine() -> Engine {
    let archive = |sizes: &[usize]| Mkf {
        chunks: sizes.iter().map(|n| vec![0; *n]).collect(),
        unpacked: sizes.iter().map(|_| None).collect(),
    };
    let files = GameFiles {
        fbp: archive(&[]),
        mgo: archive(&[]),
        ball: archive(&[]),
        data: archive(&[0, 0, 0, 900, 0, 0, 0, 0, 0, 0, 0, 40, 0, 100, 200]),
        f: archive(&[]),
        fire: archive(&[]),
        rgm: archive(&[]),
        sss: archive(&[0, 2400, 7200, 0, 0]),
    };
    let dir = DataDir { root: String::new(), map: archive(&[]), gop: archive(&[]) };
    let globals = Globals::init(dir, files).expect("globals");
    Engine::new(globals, Texts { words: Vec::new(), msgs: Vec::new() }, true, 1)
}

fn args(list: &[&str]) -> Vec<String> {
    list.iter().map(|s| s.to_string()).collect()
}

fn options(list: &[&str]) -> Options {
    match parse_args(&args(list)) {
        Command::Run(o) => o,
        _ => panic!("no options"),
    }
}

// --- the upscaler -----------------------------------------------------------------

#[test]
fn packed_model_metadata_stays_inside_blob() {
    assert_eq!(MODEL_SIZE, 1_244_000);
    assert_eq!(validate_model_metadata(MODEL_SIZE), Ok(()));
}

#[test]
fn models_that_are_too_short_are_told() {
    assert_eq!(validate_model_metadata(0), Err(LayerFault::Matrices(0)));
    assert_eq!(validate_model_metadata(4608), Err(LayerFault::Bias(0)));
    assert_eq!(validate_model_metadata(1_239_680), Err(LayerFault::Slope(0)));
    assert_eq!(validate_model_metadata(1_243_999), Err(LayerFault::Bias(17)));
}

#[test]
fn layer_uniforms_use_dynamic_alignment_and_native_dimensions() {
    let bytes = layer_uniform_data();
    let table = layers();
    assert_eq!(table.len(), LAYER_COUNT);
    assert_eq!(bytes.len(), table.len() * UNIFORM_STRIDE as usize);
    for (index, layer) in table.iter().enumerate() {
        let base = index * UNIFORM_STRIDE as usize;
        let read = |word: usize| {
            u32::from_le_bytes(bytes[base + word * 4..base + word * 4 + 4].try_into().unwrap())
        };
        assert_eq!(read(0), layer.mat_base);
        assert_eq!(read(1), layer.bias_base);
        assert_eq!(read(2), layer.slope_base);
        assert_eq!(read(3), INPUT_W);
        assert_eq!(read(4), INPUT_H);
        assert_eq!(read(5), 0);
    }
    assert_eq!((table[0].mat_base, table[0].input_vecs), (0, 1));
    assert_eq!((table[16].mat_base, table[16].bias_base, table[16].slope_base), (34704, 155456, 155472));
    assert_eq!((table[17].mat_base, table[17].slope_base, table[17].output_vecs), (37008, 0, 12));
}

#[test]
fn the_network_runs_its_layers_in_order() {
    let passes = network_passes(mid_pixels_per_workgroup(32768));
    assert_eq!(passes.len(), 18);
    assert_eq!((passes[0].kernel, passes[0].groups_x, passes[0].groups_y), (Kernel::First, 40, 25));
    assert_eq!((passes[1].kernel, passes[1].groups_x), (Kernel::MidAToB, 20));
    assert_eq!(passes[16].kernel, Kernel::MidBToA);
    assert_eq!((passes[17].kernel, passes[17].uniform_offset), (Kernel::Last, uniform_offset(17)));
    assert_eq!(mid_pixels_per_workgroup(16384), 8);
    assert_eq!(network_passes(8)[5].groups_x, 40);
    assert_eq!(headless_limits(65536, 256, 64), (32768, 256, 64));
    assert_eq!(INPUT_SIZE * 16, OUTPUT_SIZE);
    assert_eq!((OUTPUT_WIDTH, OUTPUT_HEIGHT), (4 * INPUT_W, 4 * INPUT_H));
}

// --- starting -----------------------------------------------------------------------

#[test]
fn backends_are_chosen() {
    assert_eq!(VideoBackend::interactive(false, true, true), Ok(VideoBackend::Gui));
    assert_eq!(VideoBackend::interactive(true, true, true), Ok(VideoBackend::Console));
    assert_eq!(VideoBackend::interactive(false, false, true), Ok(VideoBackend::Console));
    assert_eq!(VideoBackend::interactive(true, true, false), Err(BackendError::NoConsole));
    assert_eq!(VideoBackend::interactive(false, false, false), Err(BackendError::NoBackend));
    assert!(VideoBackend::Gui.has_sound(false));
    assert!(!VideoBackend::Gui.has_sound(true));
    assert!(!VideoBackend::Console.has_sound(false));
    assert_eq!(VideoBackend::Headless.tick_scale(Some("8")), 8);
    assert_eq!(VideoBackend::Headless.tick_scale(Some("0")), 1);
    assert_eq!(VideoBackend::Headless.tick_scale(Some("fast")), 1);
    assert_eq!(VideoBackend::Headless.tick_scale(None), 1);
    assert_eq!(VideoBackend::Gui.tick_scale(Some("8")), 1);
    assert_eq!(console_mode("kitty"), ConsoleMode::Kitty);
    assert_eq!(console_mode("ansi"), ConsoleMode::Ansi);
    assert_eq!(console_mode("other"), ConsoleMode::Auto);
}

#[test]
fn command_lines_are_read() {
    let o = options(&[]);
    assert!(!o.offscreen && !o.mute && !o.silent() && o.console.is_none() && !o.ui_step);
    assert_eq!(o.driver_bind(None), None);
    let o = options(&["--console", "--mute", "--console=ansi", "--console-scale=3", "--ui-driver=127.0.0.1:9"]);
    assert_eq!(o.console, Some(ConsoleMode::Ansi));
    assert_eq!(o.console_scale.as_deref(), Some("3"));
    assert_eq!(o.driver_bind(None).as_deref(), Some("127.0.0.1:9"));
    assert!(o.silent());
    let o = options(&["--ui-step"]);
    assert_eq!(o.driver_bind(None).as_deref(), Some(DEFAULT_BIND));
    assert_eq!(o.driver_bind(Some("x".to_string())).as_deref(), Some("x"));
    assert_eq!(options(&["--ui-driver"]).driver_bind(None).as_deref(), Some("127.0.0.1:8765"));
    assert!(options(&["--offscreen"]).silent());
    assert!(matches!(parse_args(&args(&["--mute", "-h", "--bad"])), Command::Help));
    assert!(matches!(parse_args(&args(&["--mute", "--bad", "-h"])), Command::Unknown(1)));
}

#[test]
fn sequences_are_scripted() {
    let cues = trademark_screen();
    assert_eq!(cues[1], Cue::Rng { num: 6, first: 0, last: None, pace: 25 });
    assert_eq!(cues.len(), 4);
    let mut e = engine();
    e.globals.cur_playing_rng = 9;
    let ending = e.ending_screen();
    assert_eq!(ending.len(), 50);
    assert_eq!((ending[34], ending[35]), (Cue::WaitForKey, Cue::ForgetKeys));
    assert_eq!(ending[1], Cue::Rng { num: 9, first: 110, last: Some(150), pace: 7 });
    assert_eq!(ending[39], Cue::ScrollFbp { chunk: 67, speed: 15, down: true });
    assert_eq!(ending[47], Cue::ScrollFbp { chunk: 59, speed: 15, down: true });
    assert_eq!(ending[49], Cue::FadeOut { delay: 3 });
    e.next_palette(4);
    assert!(e.globals.need_to_fade_in);
    assert_eq!(e.take_fade_in(), Some((4, false)));
    assert_eq!(e.take_fade_in(), None);
}

// --- sound ----------------------------------------------------------------------------

#[test]
fn music_goes_silent_and_comes_back() {
    let mut e = engine();
    assert_eq!(e.play_music(5, true), MusicAction::Play { chunk: 5 });
    assert_eq!(e.enable_music(false, true), MusicAction::Stop);
    assert_eq!(e.play_music(7, true), MusicAction::Stop);
    assert_eq!(e.enable_music(true, true), MusicAction::Play { chunk: 7 });
    assert_eq!(e.play_music(0, true), MusicAction::Stop);
    assert_eq!(e.play_music(3, false), MusicAction::Nothing);
    assert_eq!(e.cur_music, 3);
    assert_eq!(e.play_sound(4, true), Some(4));
    assert_eq!(e.play_sound(0, true), None);
    assert_eq!(e.play_sound(-4, true), None);
    assert_eq!(e.play_sound(4, false), None);
    e.enable_sound(false);
    assert_eq!(e.play_sound(4, true), None);
}

#[test]
fn effects_are_resampled() {
    let voc = VocSound { rate: 22050, samples: vec![0, 128, 255] };
    let mut s = SoundInstance::from_voc(&voc, 44100);
    assert_eq!(s.samples, vec![-32768, 0, 32512]);
    assert_eq!(s.step, 32768);
    let mut out = Vec::new();
    while let Some(v) = s.next_sample() {
        out.push(v);
    }
    assert_eq!(out, vec![-32768, -32768, 0, 0, 32512, 32512]);
    assert!(s.is_over());
    assert_eq!(SoundInstance::from_voc(&voc, 0).step, 22050 * 65536);
}

#[test]
fn rendering_keeps_pace_with_the_clock() {
    assert_eq!(frames_due(1000, 44100, 0), 44100);
    assert_eq!(frames_due(1010, 44100, 44100), 441);
    assert_eq!(frames_due(1000, 44100, 50000), 0);
}

// --- texts ------------------------------------------------------------------------------

#[test]
fn texts_are_escaped() {
    let mut out = String::new();
    push_json_string(&mut out, "a\"b\\c\nd\u{1}李");
    assert!(out.starts_with('"') && out.ends_with('"'));
    assert!(out.contains("a\\\"b\\\\c\\n"));
    assert!(out.contains("李"));
    assert!(!out.contains('\n') && !out.contains('\u{1}'));
    let mut m = Members::new();
    m.string("k", "v");
    m.num("n", 3);
    m.signed("s", -4);
    m.flag("f", true);
    m.pair("p", 1, -2);
    assert_eq!(m.into_object(), "{\"k\":\"v\",\"n\":3,\"s\":-4,\"f\":true,\"p\":[1,-2]}");
}

#[test]
fn play_time_files_are_read() {
    assert_eq!(parse_playtime_bytes(b"12345"), 12345);
    assert_eq!(parse_playtime_bytes(b"what"), 0);
    assert_eq!(read_playtime_secs(0, Some(b"77")), 0);
    assert_eq!(read_playtime_secs(3, Some(b"77")), 77);
    assert_eq!(read_playtime_secs(3, None), 0);
    assert_ne!(save_file_name(3), playtime_file_name(3));
}
