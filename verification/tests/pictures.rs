//! Pictures: enlarging, presenting, palettes, effects and transitions.

use rustpal::art::{decode_opening_menu_hd, opening_menu_rgb, ArtError, COLOR_RGB, COLOR_RGBA};
use rustpal::cues::Cue;
use rustpal::data::{DataDir, GameFiles, Mkf};
use rustpal::display::{render_720p, render_rgba, MenuArt, DISPLAY_H, DISPLAY_W, VIEW_W, VIEW_X};
use rustpal::effects::Turn;
use rustpal::engine::Engine;
use rustpal::global::Globals;
use rustpal::hqx::{hq2x_corner, hqx2, hqx4};
use rustpal::palette::{dimmed, glowing, mixed, step_towards};
use rustpal::rgba::Rgba;
use rustpal::splash::{splash_begin_cue, splash_leave_cues, Title};
use rustpal::surface::Surface;
use rustpal::transitions::{effect_frame, scroll_pictures};
use rustpal::ui::Texts;

fn archive(chunks: Vec<Vec<u8>>) -> Mkf {
    let unpacked = chunks.iter().map(|_| None).collect();
    Mkf { chunks, unpacked }
}

fn engine() -> Engine {
    let none = || archive(Vec::new());
    let sizes = [0usize, 0, 0, 900, 0, 0, 0, 0, 0, 0, 0, 40, 0, 100, 200];
    let files = GameFiles {
        fbp: none(),
        mgo: none(),
        ball: none(),
        data: archive(sizes.iter().map(|n| vec![0; *n]).collect()),
        f: none(),
        fire: none(),
        rgm: none(),
        sss: archive(vec![Vec::new(), vec![0; 2400], vec![0; 7200], Vec::new(), Vec::new()]),
    };
    let dir = DataDir { root: String::new(), map: none(), gop: none() };
    let globals = Globals::init(dir, files).expect("globals");
    Engine::new(globals, Texts { words: Vec::new(), msgs: Vec::new() }, true, 1)
}

fn grey() -> [[u8; 3]; 256] {
    let mut p = [[0u8; 3]; 256];
    for i in 0..256 {
        p[i] = [i as u8; 3];
    }
    p
}

fn filled(color: u8) -> Surface {
    let mut s = Surface::screen();
    s.clear(color);
    s
}

fn png_file(width: u32, height: u32, color: png::ColorType, data: &[u8]) -> Vec<u8> {
    let mut out = Vec::new();
    {
        let mut encoder = png::Encoder::new(&mut out, width, height);
        encoder.set_color(color);
        encoder.set_depth(png::BitDepth::Eight);
        let mut writer = encoder.write_header().expect("header");
        writer.write_image_data(data).expect("image");
    }
    out
}

// --- enlarging ----------------------------------------------------------------

#[test]
fn hqx2_doubles_dimensions() {
    let src = [255, 0, 0, 255, 0, 255, 0, 255, 0, 0, 255, 255, 255, 255, 0, 255];
    let mut dst = vec![0u8; 4 * 4 * 4];
    hqx2(&src, 2, 2, &mut dst);
    assert_eq!(&dst[0..3], &[255, 0, 0]);
}

#[test]
fn hqx4_logical_frame_size() {
    let src = vec![128u8; 320 * 200 * 4];
    let mut tmp = vec![0u8; 640 * 400 * 4];
    let mut dst = vec![0u8; 1280 * 800 * 4];
    hqx4(&src, 320, 200, &mut tmp, &mut dst);
    assert_eq!(dst.len(), 1280 * 800 * 4);
    assert!(dst.iter().all(|&b| b == 128 || b == 255 || b == 0) || dst[3] == 128);
    assert!(dst.iter().all(|&b| b == 128));
}

#[test]
fn enlarging_takes_roomy_buffers() {
    let src: Vec<u8> = (0..6 * 4).map(|i| (i * 10) as u8).collect();
    let (mut tmp, mut dst) = (vec![0u8; 24 * 4], vec![0u8; 96 * 4]);
    hqx4(&src, 3, 2, &mut tmp, &mut dst);
    let (mut roomy, mut large) = (vec![7u8; 24 * 4 + 5], vec![7u8; 96 * 4 + 9]);
    hqx4(&src, 3, 2, &mut roomy, &mut large);
    assert_eq!((&roomy[..24 * 4], &large[..96 * 4]), (&tmp[..], &dst[..]));
    assert!(roomy[24 * 4..].iter().chain(&large[96 * 4..]).all(|&b| b == 7));
}

#[test]
fn corners_blend_by_neighbours() {
    let c = Rgba { r: 100, g: 100, b: 100, a: 9 };
    let near = Rgba { r: 104, g: 104, b: 104, a: 255 };
    let far = Rgba { r: 255, g: 0, b: 0, a: 255 };
    // Both near and alike: halfway to their middle.
    assert_eq!(hq2x_corner(c, near, near), Rgba { r: 102, g: 102, b: 102, a: 9 });
    // One near: three parts of four stay.
    assert_eq!(hq2x_corner(c, far, near), Rgba { r: 101, g: 101, b: 101, a: 9 });
    assert_eq!(hq2x_corner(c, near, far), Rgba { r: 101, g: 101, b: 101, a: 9 });
    // None near: the edge stays hard.
    assert_eq!(hq2x_corner(c, far, far), c);
    // Both near, but apart from each other: five, two and one part of eight.
    let dark = Rgba { r: 60, g: 60, b: 60, a: 1 };
    let light = Rgba { r: 140, g: 140, b: 140, a: 1 };
    assert_eq!(hq2x_corner(c, light, dark), Rgba { r: 105, g: 105, b: 105, a: 9 });
}

#[test]
fn enlarging_leaves_what_is_behind_the_picture() {
    let src = [7u8; 4];
    let mut dst = vec![99u8; 20];
    hqx2(&src, 1, 1, &mut dst);
    assert!(dst[..16].iter().all(|&b| b == 7));
    assert!(dst[16..].iter().all(|&b| b == 99));
}

// --- presenting -----------------------------------------------------------------

#[test]
fn standard_frame_is_aspect_correct_and_pillarboxed() {
    let mut surf = Surface::screen();
    surf.clear(1);
    let mut palette = [[0u8; 3]; 256];
    palette[1] = [200, 40, 20];
    let mut out = vec![0; DISPLAY_W * DISPLAY_H * 4];
    render_720p(&surf, &palette, None, None, None, None, &mut out);

    assert_eq!(&out[..4], &[0, 0, 0, 255]);
    let first = VIEW_X * 4;
    assert_eq!(&out[first..first + 4], &[200, 40, 20, 255]);
    let last = (VIEW_X + VIEW_W - 1) * 4;
    assert_eq!(&out[last..last + 4], &[200, 40, 20, 255]);
    let right_bar = (VIEW_X + VIEW_W) * 4;
    assert_eq!(&out[right_bar..right_bar + 4], &[0, 0, 0, 255]);
}

#[test]
fn enhanced_background_keeps_live_indexed_overlays() {
    let mut surf = Surface::screen();
    let baseline = surf.pixels.clone();
    surf.put_pixel(160, 100, 1);
    let mut palette = [[0u8; 3]; 256];
    palette[1] = [255, 32, 16];
    let enhanced = vec![80; DISPLAY_W * DISPLAY_H * 3];
    let mut out = vec![0; DISPLAY_W * DISPLAY_H * 4];

    render_720p(&surf, &palette, None, Some(&enhanced), Some(&baseline), Some(&palette), &mut out);

    let center = (360 * DISPLAY_W + 640) * 4;
    assert_eq!(&out[center..center + 4], &[255, 32, 16, 255]);
    assert_eq!(&out[..4], &[80, 80, 80, 255]);
}

#[test]
fn artwork_stands_in_for_one_background() {
    let surf = filled(3);
    let palette = grey();
    let mut plain = vec![0; DISPLAY_W * DISPLAY_H * 4];
    let mut out = vec![0; DISPLAY_W * DISPLAY_H * 4];
    let mut menu = MenuArt::new(Some(vec![80; DISPLAY_W * DISPLAY_H * 3]));
    menu.render(&surf, &palette, None, &mut plain);
    assert!(menu.upscales(true));
    menu.enable_enhanced_opening_menu(surf.pixels.clone(), palette);
    assert!(!menu.upscales(true));
    menu.render(&surf, &palette, None, &mut out);
    assert_eq!(&out[..4], &[80, 80, 80, 255]);
    menu.disable_enhanced_background();
    assert!(menu.upscales(true) && !menu.upscales(false));
    menu.render(&surf, &palette, None, &mut out);
    assert!(out == plain);
    let mut none = MenuArt::new(None);
    none.enable_enhanced_opening_menu(surf.pixels.clone(), palette);
    assert!(none.upscales(true));
}

#[test]
fn artwork_is_as_bright_as_the_palette() {
    let surf = Surface::screen();
    let target = grey();
    let mut half = target;
    for c in half.iter_mut() {
        *c = [c[0] / 2; 3];
    }
    let art = vec![100; DISPLAY_W * DISPLAY_H * 3];
    let mut out = vec![0; DISPLAY_W * DISPLAY_H * 4];
    render_720p(&surf, &half, None, Some(&art), Some(&surf.pixels), Some(&target), &mut out);
    // 16256 * 3 * 255 / (32640 * 3) = 127; 100 * 127 / 255 = 49.
    assert_eq!(&out[..4], &[49, 49, 49, 255]);
    // Artwork of another size is not used.
    render_720p(&surf, &half, None, Some(&art[3..]), Some(&surf.pixels), Some(&target), &mut out);
    assert_eq!(&out[..4], &[0, 0, 0, 255]);
}

#[test]
fn shakes_move_the_picture_up_and_down() {
    let mut surf = Surface::screen();
    for x in 0..320 {
        surf.put_pixel(x, 10, 200);
    }
    let palette = grey();
    let mut out = vec![9; 256000];
    render_rgba(&surf, &palette, Some((3, 4)), &mut out);
    assert_eq!(&out[6 * 320 * 4..6 * 320 * 4 + 4], &[200, 200, 200, 255]);
    assert_eq!(&out[196 * 320 * 4..196 * 320 * 4 + 4], &[0, 0, 0, 0]);
    render_rgba(&surf, &palette, Some((2, 204)), &mut out);
    assert_eq!(&out[14 * 320 * 4..14 * 320 * 4 + 4], &[200, 200, 200, 255]);
    assert_eq!(&out[3 * 320 * 4..3 * 320 * 4 + 4], &[0, 0, 0, 0]);
    render_rgba(&surf, &palette, None, &mut out);
    assert_eq!(&out[10 * 320 * 4..10 * 320 * 4 + 4], &[200, 200, 200, 255]);
}

#[test]
fn enhanced_menu_resource_is_exactly_720p_rgb() {
    let mut data = vec![0u8; DISPLAY_W * DISPLAY_H * 3];
    data[5] = 77;
    let file = png_file(1280, 720, png::ColorType::Rgb, &data);
    let rgb = decode_opening_menu_hd(&file).expect("embedded enhanced menu PNG");
    assert_eq!(rgb.len(), DISPLAY_W * DISPLAY_H * 3);
    assert!(rgb.iter().any(|&channel| channel != 0));
    assert_eq!(rgb, data);
}

#[test]
fn artwork_loses_its_opacity() {
    let mut data = vec![0u8; DISPLAY_W * DISPLAY_H * 4];
    data[..8].copy_from_slice(&[1, 2, 3, 200, 4, 5, 6, 100]);
    let file = png_file(1280, 720, png::ColorType::Rgba, &data);
    let rgb = decode_opening_menu_hd(&file).expect("artwork");
    assert_eq!(rgb.len(), DISPLAY_W * DISPLAY_H * 3);
    assert_eq!(&rgb[..6], &[1, 2, 3, 4, 5, 6]);
}

#[test]
fn artwork_of_another_kind_is_refused() {
    let small = png_file(2, 1, png::ColorType::Rgb, &[0; 6]);
    assert_eq!(decode_opening_menu_hd(&small), Err(ArtError::WrongSize { width: 2, height: 1 }));
    let grey = png_file(1280, 720, png::ColorType::Grayscale, &vec![0; DISPLAY_W * DISPLAY_H]);
    assert_eq!(decode_opening_menu_hd(&grey), Err(ArtError::WrongColors));
    assert_eq!(decode_opening_menu_hd(b"no picture"), Err(ArtError::Undecodable));
    assert_eq!(decode_opening_menu_hd(b"no picture, though long enough"), Err(ArtError::Undecodable));
    let mut vast = small.clone();
    vast[16] = 1;
    assert_eq!(decode_opening_menu_hd(&vast), Err(ArtError::WrongSize { width: 0x100_0002, height: 1 }));
    let mut cut = png_file(1280, 720, png::ColorType::Rgb, &vec![0; DISPLAY_W * DISPLAY_H * 3]);
    cut.truncate(60);
    assert_eq!(decode_opening_menu_hd(&cut), Err(ArtError::Undecodable));
    assert_eq!(opening_menu_rgb(1280, 720, COLOR_RGB, vec![1, 2]), Ok(vec![1, 2]));
    assert_eq!(opening_menu_rgb(1280, 720, COLOR_RGBA, vec![1, 2, 3, 4, 5]), Ok(vec![1, 2, 3]));
}

// --- palettes ---------------------------------------------------------------------

#[test]
fn palettes_dim_mix_and_step() {
    let p = grey();
    assert_eq!(dimmed(&p, 32)[200], [100; 3]);
    assert_eq!(dimmed(&p, 0), [[0; 3]; 256]);
    assert_eq!(dimmed(&p, 64), p);
    let q = [[255u8; 3]; 256];
    assert_eq!(mixed(&p, &q, 0), p);
    assert_eq!(mixed(&p, &q, 31), q);
    assert_eq!(mixed(&p, &q, 10)[100], [((100 * 21 + 255 * 10) / 31) as u8; 3]);
    assert_eq!(step_towards(&p, &q, 4)[100], [104; 3]);
    assert_eq!(step_towards(&p, &q, 4)[253], [255; 3]);
    assert_eq!(step_towards(&q, &p, 4)[100], [251; 3]);
    let red = glowing(&p);
    assert_eq!(red[100], [(300 / 4 + 64) as u8; 3]);
    assert_eq!(red[0x4f], p[0x4f]);
    assert_eq!(red[255], [255; 3]);
}

#[test]
fn fade_out_ends_in_black() {
    let mut e = engine();
    e.set_raw_palette(grey());
    let fade = e.fade_out(1, 1000);
    assert_eq!(fade.end, 1600);
    let t = e.fade_out_turn(&fade, 1000);
    assert_eq!(t.wait, Some(10));
    assert_eq!(e.palette[128], [(128 * 60 / 64) as u8; 3]);
    e.fade_out_turn(&fade, 1300);
    assert_eq!(e.palette[128], [60; 3]);
    let t = e.fade_out_turn(&fade, 1601);
    assert_eq!(t.wait, None);
    assert_eq!(e.palette, [[0; 3]; 256]);
    assert_eq!(e.fade_out(0, 0).end, 600);
}

#[test]
fn fade_in_ends_with_the_whole_palette() {
    let mut e = engine();
    assert!(e.fade_in(None, 1, 0).is_none());
    let fade = e.fade_in(Some(grey()), 2, 0).expect("fade");
    assert_eq!(fade.end, 1200);
    e.fade_in_turn(&fade, 0);
    assert_eq!(e.palette, [[0; 3]; 256]);
    e.fade_in_turn(&fade, 600);
    assert_eq!(e.palette[128], [60; 3]);
    let t = e.fade_in_turn(&fade, 1201);
    assert_eq!(t.wait, None);
    assert_eq!(e.palette, grey());
}

#[test]
fn scene_fades_run_both_ways() {
    let mut e = engine();
    e.globals.need_to_fade_in = true;
    let mut fade = e.scene_fade(Some(grey()), 0).expect("fade");
    assert!(!e.globals.need_to_fade_in);
    let mut turns = 0;
    while let Some(deadline) = e.scene_fade_turn(&fade, 500) {
        assert_eq!(deadline, 600);
        e.scene_fade_show(&mut fade);
        turns += 1;
    }
    assert_eq!(turns, 64);
    assert_eq!(e.palette[128], [126; 3]);
    let mut fade = e.scene_fade(Some(grey()), -7).expect("fade");
    let mut levels = Vec::new();
    while e.scene_fade_turn(&fade, 0).is_some() {
        levels.push(fade.level);
        e.scene_fade_show(&mut fade);
    }
    assert_eq!(levels, vec![63, 56, 49, 42, 35, 28, 21, 14, 7, 0]);
    assert_eq!(e.palette, [[0; 3]; 256]);
    let mut fade = e.scene_fade(Some(grey()), i32::MAX).expect("fade");
    assert!(e.scene_fade_turn(&fade, 0).is_some());
    e.scene_fade_show(&mut fade);
    assert!(e.scene_fade_turn(&fade, 0).is_none());
}

#[test]
fn palette_fades_take_32_turns() {
    let mut e = engine();
    let mut fade = e.palette_fade(Some(grey()), false).expect("fade");
    let mut turns = 0;
    while let Some(deadline) = e.palette_fade_turn(&mut fade, 100) {
        assert_eq!(deadline, 125);
        turns += 1;
    }
    assert_eq!(turns, 32);
    assert_eq!(e.palette, grey());
    let mut fade = e.palette_fade(Some(grey()), true).expect("fade");
    e.input.key_press = 3;
    assert_eq!(e.palette_fade_turn(&mut fade, 100), Some(200));
    assert_eq!(e.input.key_press, 0);
}

#[test]
fn color_fades_reach_their_goal() {
    let mut e = engine();
    let mut fade = e.color_fade(Some(grey()), 7, 15, false).expect("fade");
    let mut waits = 0;
    while let Some(Turn { wait: Some(ms), .. }) = e.step_fade_turn(&mut fade) {
        assert_eq!(ms, 70);
        waits += 1;
    }
    assert_eq!(waits, 64);
    assert_eq!(e.palette, [[15; 3]; 256]);
    let mut fade = e.color_fade(Some(grey()), 0, 15, true).expect("fade");
    let first = e.step_fade_turn(&mut fade).expect("turn");
    assert_eq!(first.wait, Some(10));
    assert_eq!(e.palette[100], [19; 3]);
    while let Some(Turn { wait: Some(_), .. }) = e.step_fade_turn(&mut fade) {}
    assert_eq!(e.palette, grey());
}

#[test]
fn fade_to_red_spares_the_text() {
    let mut e = engine();
    e.screen.put_pixel(5, 0, 0x4f);
    e.screen.put_pixel(6, 0, 0x50);
    let (present, mut fade) = e.fade_to_red(Some(grey())).expect("fade");
    assert!(!present.backup);
    assert_eq!((e.screen.pixels[5], e.screen.pixels[6]), (0x4e, 0x50));
    let mut turns = 0;
    while e.step_fade_turn(&mut fade).is_some() {
        turns += 1;
    }
    assert_eq!(turns, 32);
    assert_eq!(e.palette[200], [214; 3]);
    assert_eq!(e.palette[0x4f], [0x4f; 3]);
    assert!(e.fade_to_red(None).is_none());
}

#[test]
fn shakes_wear_off() {
    let mut e = engine();
    e.shake_screen(2, 5);
    assert_eq!(e.video_update().shake, Some((2, 5)));
    assert_eq!(e.video_present_surface(true).shake, Some((1, 5)));
    assert_eq!(e.video_update().shake, None);
    assert_eq!(e.set_palette(None), None);
    assert!(e.set_palette(Some(grey())).is_some());
}

// --- transitions --------------------------------------------------------------------

#[test]
fn six_rounds_switch_the_screen() {
    let mut e = engine();
    e.screen.clear(9);
    let t = e.switch_screen(0, 4);
    assert_eq!(t.wait, Some(50));
    assert!(t.present.backup);
    assert_eq!((e.screen_bak.pixels[0], e.screen_bak.pixels[3], e.screen_bak.pixels[6]), (9, 0, 9));
    for round in 1..6 {
        e.switch_screen(round, 4);
    }
    assert_eq!(e.screen_bak.pixels, e.screen.pixels);
}

#[test]
fn fade_screen_blends_and_ends_on_the_work_surface() {
    let mut e = engine();
    e.screen.clear(0x35);
    e.screen_bak.clear(0x12);
    assert_eq!(e.fade_screen(0, 0).wait, Some(10));
    assert_eq!(e.screen_bak.pixels[0], 0x32);
    assert_eq!(e.screen_bak.pixels[1], 0x12);
    for round in 1..7 {
        e.fade_screen(round, 0);
    }
    assert_eq!(e.screen_bak.pixels[0], 0x33);
    assert_eq!(e.fade_screen(71, 0).wait, Some(0));
    let last = e.fade_screen(72, 0);
    assert_eq!((last.wait, last.present.backup), (None, false));
}

#[test]
fn pictures_fade_in_exactly() {
    let mut e = engine();
    e.screen.clear(0x1f);
    let mut picture = filled(0xa0);
    picture.put_pixel(17, 0, 0x07);
    let mut round = 0;
    while let Some(wait) = e.show_fbp(&picture, 7, round) {
        assert_eq!(wait, 80);
        round += 1;
    }
    assert_eq!(round, 96);
    assert_eq!(e.screen.pixels, picture.pixels);
    assert_eq!(e.show_fbp(&picture, 0, 0), None);
    e.screen.clear(1);
    e.show_fbp_done(&picture, 49);
    assert_eq!(e.screen.pixels[0], 1);
    e.show_fbp_done(&picture, 75);
    assert_eq!(e.screen.pixels, picture.pixels);
}

#[test]
fn pictures_scroll_over_the_old_ones() {
    let mut e = engine();
    e.screen_bak.clear(1);
    let picture = filled(2);
    assert_eq!(e.scroll_fbp(&picture, 50, 15, true), 53);
    assert_eq!((e.screen.pixels[49 * 320], e.screen.pixels[50 * 320]), (2, 1));
    assert_eq!(e.scroll_fbp(&picture, 50, 0, false), 800);
    assert_eq!((e.screen.pixels[149 * 320], e.screen.pixels[150 * 320]), (1, 2));
    e.scroll_fbp(&picture, 219, 15, true);
    assert_eq!(e.screen.pixels, picture.pixels);
    let still = scroll_pictures(&filled(1), &picture, 0, true);
    assert_eq!(still.pixels, filled(1).pixels);
}

#[test]
fn the_ending_animation_moves() {
    let mut e = engine();
    e.ending_animation();
    assert_eq!(e.globals.screen_wave, 2);
    let (upper, lower) = (filled(1), filled(2));
    let f = e.ending_animation_frame(&upper, &lower, 0, 5, 0);
    assert_eq!((f.beast_upper_y, f.beast_lower_y, f.girl_y, f.girl_frame), (-400, -200, 180, 0));
    let f = e.ending_animation_frame(&upper, &lower, 1, 5, 149);
    assert_eq!((f.girl_y, f.girl_frame), (179, 2));
    let f = e.ending_animation_frame(&upper, &lower, 399, 3, 200);
    assert_eq!((f.beast_upper_y, f.girl_y, f.girl_frame), (-1, 80, 1));
    assert_eq!(e.screen.pixels[198 * 320], 1);
    e.ending_animation_done();
    assert_eq!(e.globals.screen_wave, 0);
    e.ending_set_effect_sprite(0x27b);
    assert_eq!(e.load_effect_sprite(), Some(0x27b));
    assert_eq!(effect_frame(3, 450), 0);
    assert_eq!(effect_frame(0, 450), 0);
    assert_eq!(effect_frame(4, 451), 3);
}

#[test]
fn backups_come_back() {
    let mut e = engine();
    e.screen.clear(8);
    e.backup_screen();
    e.screen.clear(1);
    e.restore_screen();
    assert!(e.screen.pixels.iter().all(|&p| p == 8));
}

// --- the title screen ------------------------------------------------------------------

#[test]
fn cranes_fly_by() {
    let mut e = engine();
    e.rng.seed = 77;
    e.input.key_press = 1;
    let mut splash = e.splash_screen(9);
    assert_eq!(e.splash_goes_on(1000, 200), Some(1285));
    assert_eq!(splash.crane_frames, 8);
    assert!(splash.cranes.iter().all(|c| c.x >= 300 && c.y >= 0 && c.frame >= 0));
    let before = splash.cranes;
    let (upper, lower) = (filled(1), filled(2));
    let drawn = e.splash_frame(&mut splash, &upper, &lower);
    // 199 rows of the lower picture are seen: an odd number, so cranes sink.
    assert_eq!(drawn[0].y, before[0].y + 1);
    assert_eq!(drawn[0].x, before[0].x);
    assert_eq!(splash.cranes[0].x, before[0].x - 1);
    assert_eq!((e.screen.pixels[0], e.screen.pixels[320]), (1, 2));
    let again = e.splash_frame(&mut splash, &upper, &lower);
    assert_eq!(again[0].y, drawn[0].y);
    assert_eq!(again[0].frame, (drawn[0].frame + 1) % 8);
    e.input.key_press = 2;
    assert_eq!(e.splash_goes_on(1000, 200), None);
}

#[test]
fn the_title_grows() {
    let mut frame = vec![2, 0, 0, 0, 16, 0, 3, 0];
    frame.extend(vec![1; 48]);
    let mut title = Title::new(&frame);
    assert_eq!((title.at, title.full), (6, 3));
    assert_eq!(title.bytes[6], 0);
    for h in [1, 2, 3, 3] {
        title.grow();
        assert_eq!(title.bytes[6], h);
    }
    let mut title = Title::new(&[16, 0, 44, 1, 0]);
    assert_eq!((title.at, title.full), (2, 300));
    title.finish();
    assert_eq!(&title.bytes[..4], &[16, 0, 44, 1]);
}

#[test]
fn leaving_the_title_screen_hurries_the_fade() {
    let moment = Cue::Delay { ms: 8 };
    let end = [Cue::Music { song: 0, looping: false, fade_secs: 1 }, Cue::FadeOut { delay: 1 }];
    assert_eq!(
        splash_leave_cues(14600),
        vec![
            Cue::TitlePalette { time: 14600 },
            moment,
            Cue::TitlePalette { time: 14850 },
            moment,
            Cue::Delay { ms: 500 },
            end[0],
            end[1],
        ]
    );
    assert_eq!(splash_leave_cues(15000), end);
    assert_eq!(splash_leave_cues(0).len(), 123);
    assert_eq!(splash_begin_cue(), Cue::Music { song: 5, looping: true, fade_secs: 2 });
}
