//! Presentation: the indexed screen under a palette, as it is recorded and as
//! it is shown at 1280 by 720 pixels, with the enhanced opening menu.

use vstd::prelude::*;

use crate::rgba;
use crate::rgba::Rgba;
use crate::surface::Surface;

verus! {

/// The size of the presentation. The picture keeps its shape: it fills a view
/// of 1152 by 720 pixels between two narrow black bars.
pub const DISPLAY_W: usize = 1280;
pub const DISPLAY_H: usize = 720;
pub const VIEW_W: usize = 1152;
pub const VIEW_X: usize = 64;

/// An entry of a palette.
pub type PalColor = [u8; 3];

/// A colour of a palette, opaque.
pub open spec fn opaque(c: PalColor) -> Rgba {
    Rgba { r: c@[0], g: c@[1], b: c@[2], a: 255 }
}

/// No colour, transparent.
pub open spec fn blank() -> Rgba {
    Rgba { r: 0, g: 0, b: 0, a: 0 }
}

/// Black, opaque.
pub open spec fn black() -> Rgba {
    Rgba { r: 0, g: 0, b: 0, a: 255 }
}

/// The row of the screen that is seen in row `y`; none where a shake has moved
/// the picture away. A shake moves the picture up on odd counts, down on even
/// ones.
pub open spec fn row_seen(shake: Option<(u16, u16)>, y: int) -> Option<int> {
    match shake {
        None => Some(y),
        Some((time, level)) => {
            let l = level as int % 200;
            if time % 2 == 1 {
                if y + l < 200 {
                    Some(y + l)
                } else {
                    None
                }
            } else if y >= l {
                Some(y - l)
            } else {
                None
            }
        },
    }
}

/// Pixel `p` of the recorded screen.
pub open spec fn recorded(pixels: Seq<u8>, palette: Seq<PalColor>, shake: Option<(u16, u16)>, p: int) -> Rgba {
    match row_seen(shake, p / 320) {
        Some(y) => opaque(palette[pixels[320 * y + p % 320] as int]),
        None => blank(),
    }
}

/// The opaque colour of an entry.
fn color_of(palette: &[PalColor; 256], index: u8) -> (c: Rgba)
    ensures
        c == opaque(palette@[index as int]),
{
    let c: PalColor = palette[index as usize];
    Rgba { r: c[0], g: c[1], b: c[2], a: 255 }
}

/// The row of the screen that is seen in row `y`.
fn seen_row(shake: Option<(u16, u16)>, y: usize) -> (r: Option<usize>)
    requires
        y < 200,
    ensures
        r is Some <==> row_seen(shake, y as int) is Some,
        r matches Some(s) ==> row_seen(shake, y as int) == Some(s as int) && s < 200,
{
    match shake {
        None => Some(y),
        Some((time, level)) => {
            let l: usize = level as usize % 200;
            if time % 2 == 1 {
                if y + l < 200 {
                    Some(y + l)
                } else {
                    None
                }
            } else if y >= l {
                Some(y - l)
            } else {
                None
            }
        },
    }
}

/// Convert a screen to four bytes per pixel, with the effect of a shake.
pub fn render_rgba(surf: &Surface, palette: &[PalColor; 256], shake: Option<(u16, u16)>, out: &mut [u8])
    requires
        surf.is_screen(),
        old(out)@.len() == 256000,
    ensures
        final(out)@.len() == 256000,
        forall|p: int| 0 <= p < 64000 ==> #[trigger] rgba::pixel(final(out)@, p) == recorded(surf.pixels@, palette@, shake, p),
{
    for p in 0..64000usize
        invariant
            surf.is_screen(),
            out@.len() == 256000,
            forall|q: int| 0 <= q < p ==> #[trigger] rgba::pixel(out@, q) == recorded(surf.pixels@, palette@, shake, q),
    {
        let c: Rgba = match seen_row(shake, p / 320) {
            Some(y) => color_of(palette, surf.pixels[320 * y + p % 320]),
            None => Rgba { r: 0, g: 0, b: 0, a: 0 },
        };
        let ghost before = out@;
        rgba::put(out, p, c);
        assert forall|q: int| 0 <= q < p + 1 implies #[trigger] rgba::pixel(out@, q) == recorded(
            surf.pixels@,
            palette@,
            shake,
            q,
        ) by {
            if q < p {
                assert(rgba::pixel(before, q) == recorded(surf.pixels@, palette@, shake, q));
            }
        }
    }
}

/// The sum of the channels of the first `n` colours.
pub open spec fn light(palette: Seq<PalColor>, n: int) -> int
    decreases n,
{
    if n <= 0 {
        0
    } else {
        light(palette, n - 1) + palette[n - 1]@[0] + palette[n - 1]@[1] + palette[n - 1]@[2]
    }
}

/// How bright a palette is against another, in steps up to 255.
pub open spec fn relative_light(palette: Seq<PalColor>, target: Seq<PalColor>) -> int {
    let t = light(target, 256);
    if t == 0 {
        255
    } else {
        let f = light(palette, 256) * 255 / t;
        if f < 255 {
            f
        } else {
            255
        }
    }
}

/// Pixel `p` of the presentation over enhanced artwork: the artwork, as bright
/// as the palette, but for the pixels of the screen that differ from the
/// packed background.
pub open spec fn enhanced_pixel(
    pixels: Seq<u8>,
    palette: Seq<PalColor>,
    art: Seq<u8>,
    baseline: Seq<u8>,
    target: Seq<PalColor>,
    p: int,
) -> Rgba {
    let source = 320 * (p / 1280 * 200 / 720) + p % 1280 * 320 / 1280;
    let f = relative_light(palette, target);
    if pixels[source] != baseline[source] {
        opaque(palette[pixels[source] as int])
    } else {
        Rgba {
            r: (art[3 * p] * f / 255) as u8,
            g: (art[3 * p + 1] * f / 255) as u8,
            b: (art[3 * p + 2] * f / 255) as u8,
            a: 255,
        }
    }
}

/// Pixel `p` of the plain presentation: the screen in the view, black bars
/// beside it.
pub open spec fn framed_pixel(pixels: Seq<u8>, palette: Seq<PalColor>, shake: Option<(u16, u16)>, p: int) -> Rgba {
    let x = p % 1280 - 64;
    if 0 <= x < 1152 {
        match row_seen(shake, p / 1280 * 200 / 720) {
            Some(y) => opaque(palette[pixels[320 * y + x * 320 / 1152] as int]),
            None => black(),
        }
    } else {
        black()
    }
}

/// The enhanced artwork fits the presentation.
pub open spec fn art_fits(
    art: Option<&[u8]>,
    baseline: Option<&[u8]>,
    target: Option<&[PalColor; 256]>,
) -> bool {
    &&& art matches Some(a) && a@.len() == 1280 * 720 * 3
    &&& baseline matches Some(b) && b@.len() == 320 * 200
    &&& target is Some
}

/// The sum of all channels of a palette.
fn palette_light(palette: &[PalColor; 256]) -> (sum: u64)
    ensures
        sum == light(palette@, 256),
        sum <= 765 * 256,
{
    let mut sum: u64 = 0;
    for i in 0..256usize
        invariant
            sum == light(palette@, i as int),
            sum <= 765 * i,
    {
        let c: PalColor = palette[i];
        sum = sum + c[0] as u64 + c[1] as u64 + c[2] as u64;
    }
    sum
}

fn fade_level(palette: &[PalColor; 256], target: &[PalColor; 256]) -> (f: u16)
    ensures
        f == relative_light(palette@, target@),
        f <= 255,
{
    let now: u64 = palette_light(palette);
    let full: u64 = palette_light(target);
    if full == 0 {
        return 255;
    }
    let f: u64 = now * 255 / full;
    proof {
        vstd::arithmetic::div_mod::lemma_div_pos_is_pos(now * 255, full as int);
    }
    if f < 255 {
        f as u16
    } else {
        255
    }
}

/// A channel of the artwork, dimmed.
fn dimmed(v: u8, f: u16) -> (r: u8)
    requires
        f <= 255,
    ensures
        r == (v * f / 255) as u8,
{
    assert(v * f <= 255 * 255) by (nonlinear_arith)
        requires
            v <= 255,
            f <= 255,
    ;
    (v as u16 * f / 255) as u8
}

fn render_enhanced(
    surf: &Surface,
    palette: &[PalColor; 256],
    art: &[u8],
    baseline: &[u8],
    target: &[PalColor; 256],
    out: &mut [u8],
)
    requires
        surf.is_screen(),
        art@.len() == 1280 * 720 * 3,
        baseline@.len() == 320 * 200,
        old(out)@.len() == 1280 * 720 * 4,
    ensures
        final(out)@.len() == 1280 * 720 * 4,
        forall|p: int|
            0 <= p < 1280 * 720 ==> #[trigger] rgba::pixel(final(out)@, p) == enhanced_pixel(
                surf.pixels@,
                palette@,
                art@,
                baseline@,
                target@,
                p,
            ),
{
    let f: u16 = fade_level(palette, target);
    for p in 0..921600usize
        invariant
            surf.is_screen(),
            art@.len() == 1280 * 720 * 3,
            baseline@.len() == 320 * 200,
            out@.len() == 1280 * 720 * 4,
            f == relative_light(palette@, target@),
            f <= 255,
            forall|q: int|
                0 <= q < p ==> #[trigger] rgba::pixel(out@, q) == enhanced_pixel(
                    surf.pixels@,
                    palette@,
                    art@,
                    baseline@,
                    target@,
                    q,
                ),
    {
        let source: usize = 320 * (p / 1280 * 200 / 720) + p % 1280 * 320 / 1280;
        let c: Rgba = if surf.pixels[source] != baseline[source] {
            color_of(palette, surf.pixels[source])
        } else {
            Rgba {
                r: dimmed(art[3 * p], f),
                g: dimmed(art[3 * p + 1], f),
                b: dimmed(art[3 * p + 2], f),
                a: 255,
            }
        };
        let ghost before = out@;
        rgba::put(out, p, c);
        assert forall|q: int| 0 <= q < p + 1 implies #[trigger] rgba::pixel(out@, q) == enhanced_pixel(
            surf.pixels@,
            palette@,
            art@,
            baseline@,
            target@,
            q,
        ) by {
            if q < p {
                assert(rgba::pixel(out@, q) == rgba::pixel(before, q));
            }
        }
    }
}

fn render_framed(surf: &Surface, palette: &[PalColor; 256], shake: Option<(u16, u16)>, out: &mut [u8])
    requires
        surf.is_screen(),
        old(out)@.len() == 1280 * 720 * 4,
    ensures
        final(out)@.len() == 1280 * 720 * 4,
        forall|p: int|
            0 <= p < 1280 * 720 ==> #[trigger] rgba::pixel(final(out)@, p) == framed_pixel(
                surf.pixels@,
                palette@,
                shake,
                p,
            ),
{
    for p in 0..921600usize
        invariant
            surf.is_screen(),
            out@.len() == 1280 * 720 * 4,
            forall|q: int|
                0 <= q < p ==> #[trigger] rgba::pixel(out@, q) == framed_pixel(surf.pixels@, palette@, shake, q),
    {
        let mut c: Rgba = Rgba { r: 0, g: 0, b: 0, a: 255 };
        let x: usize = p % 1280;
        if x >= VIEW_X && x < VIEW_X + VIEW_W {
            if let Some(y) = seen_row(shake, p / 1280 * 200 / 720) {
                c = color_of(palette, surf.pixels[320 * y + (x - VIEW_X) * 320 / VIEW_W]);
            }
        }
        let ghost before = out@;
        rgba::put(out, p, c);
        assert forall|q: int| 0 <= q < p + 1 implies #[trigger] rgba::pixel(out@, q) == framed_pixel(
            surf.pixels@,
            palette@,
            shake,
            q,
        ) by {
            if q < p {
                assert(rgba::pixel(out@, q) == rgba::pixel(before, q));
            }
        }
    }
}

/// Render the presentation: over enhanced artwork where all of it is there and
/// fits, plainly otherwise.
pub fn render_720p(
    surf: &Surface,
    palette: &[PalColor; 256],
    shake: Option<(u16, u16)>,
    enhanced_rgb: Option<&[u8]>,
    enhanced_baseline: Option<&[u8]>,
    enhanced_target_palette: Option<&[PalColor; 256]>,
    out: &mut [u8],
)
    requires
        surf.is_screen(),
        old(out)@.len() == 1280 * 720 * 4,
    ensures
        final(out)@.len() == 1280 * 720 * 4,
        forall|p: int|
            0 <= p < 1280 * 720 ==> #[trigger] rgba::pixel(final(out)@, p) == if art_fits(
                enhanced_rgb,
                enhanced_baseline,
                enhanced_target_palette,
            ) {
                enhanced_pixel(
                    surf.pixels@,
                    palette@,
                    enhanced_rgb->0@,
                    enhanced_baseline->0@,
                    enhanced_target_palette->0@,
                    p,
                )
            } else {
                framed_pixel(surf.pixels@, palette@, shake, p)
            },
{
    match (enhanced_rgb, enhanced_baseline, enhanced_target_palette) {
        (Some(art), Some(baseline), Some(target)) => {
            if art.len() == 1280 * 720 * 3 && baseline.len() == 320 * 200 {
                render_enhanced(surf, palette, art, baseline, target, out);
                return;
            }
        },
        _ => {},
    }
    render_framed(surf, palette, shake, out);
}

/// The artwork that stands in for the background of the opening menu, and,
/// while it does, the packed background and the palette that the menu fades
/// to.
pub struct MenuArt {
    pub art: Option<Vec<u8>>,
    pub baseline: Option<Vec<u8>>,
    pub target: Option<[PalColor; 256]>,
}

impl MenuArt {
    /// Artwork that does not stand in yet.
    pub fn new(art: Option<Vec<u8>>) -> (m: MenuArt)
        ensures
            m.art == art,
            m.baseline is None,
            m.target is None,
    {
        MenuArt { art, baseline: None, target: None }
    }

    /// Let the artwork stand in for a background, if there is artwork.
    pub fn enable_enhanced_opening_menu(&mut self, baseline: Vec<u8>, target_palette: [PalColor; 256])
        ensures
            *final(self) == if old(self).art is Some {
                MenuArt { art: old(self).art, baseline: Some(baseline), target: Some(target_palette) }
            } else {
                *old(self)
            },
    {
        if self.art.is_some() {
            self.baseline = Some(baseline);
            self.target = Some(target_palette);
        }
    }

    /// Show the background itself again.
    pub fn disable_enhanced_background(&mut self)
        ensures
            *final(self) == (MenuArt { art: old(self).art, baseline: None, target: None }),
    {
        self.baseline = None;
        self.target = None;
    }

    /// Whether a picture goes through the upscaler, where there is one: not
    /// while artwork stands in.
    pub fn upscales(&self, has_upscaler: bool) -> (b: bool)
        ensures
            b == (has_upscaler && self.baseline is None),
    {
        has_upscaler && self.baseline.is_none()
    }

    /// Render the presentation, over the artwork while it stands in.
    pub fn render(&self, surf: &Surface, palette: &[PalColor; 256], shake: Option<(u16, u16)>, out: &mut [u8])
        requires
            surf.is_screen(),
            old(out)@.len() == 1280 * 720 * 4,
        ensures
            final(out)@.len() == 1280 * 720 * 4,
            forall|p: int|
                0 <= p < 1280 * 720 ==> #[trigger] rgba::pixel(final(out)@, p) == if self.stands_in() {
                    enhanced_pixel(
                        surf.pixels@,
                        palette@,
                        self.art->0@,
                        self.baseline->0@,
                        self.target->0@,
                        p,
                    )
                } else {
                    framed_pixel(surf.pixels@, palette@, shake, p)
                },
    {
        let art: Option<&[u8]> = match &self.art {
            Some(v) => Some(v.as_slice()),
            None => None,
        };
        let baseline: Option<&[u8]> = match &self.baseline {
            Some(v) => Some(v.as_slice()),
            None => None,
        };
        let target: Option<&[PalColor; 256]> = match &self.target {
            Some(t) => Some(t),
            None => None,
        };
        render_720p(surf, palette, shake, art, baseline, target, out);
    }

    /// The artwork stands in, and fits.
    pub open spec fn stands_in(&self) -> bool {
        &&& self.art matches Some(a) && a@.len() == 1280 * 720 * 3
        &&& self.baseline matches Some(b) && b@.len() == 320 * 200
        &&& self.target is Some
    }
}

/// The plain presentation is pillarboxed: the bars are black and opaque, and
/// without a shake every pixel between them shows a pixel of the screen, with
/// the screen's four corners in the view's corners.
pub proof fn law_picture_is_pillarboxed(pixels: Seq<u8>, palette: Seq<PalColor>, x: int, y: int)
    requires
        0 <= x < 1280,
        0 <= y < 720,
    ensures
        x < 64 || x >= 1216 ==> framed_pixel(pixels, palette, None, 1280 * y + x) == black(),
        64 <= x < 1216 ==> framed_pixel(pixels, palette, None, 1280 * y + x) == opaque(
            palette[pixels[320 * (y * 200 / 720) + (x - 64) * 320 / 1152] as int],
        ),
        x == 64 ==> (x - 64) * 320 / 1152 == 0,
        x == 1215 ==> (x - 64) * 320 / 1152 == 319,
        y == 0 ==> y * 200 / 720 == 0,
        y == 719 ==> y * 200 / 720 == 199,
{
    assert((1280 * y + x) % 1280 == x && (1280 * y + x) / 1280 == y);
}

/// The picture keeps its proportions: a step of 18 pixels in the view is a
/// step of 5 pixels on the screen, across and down alike.
pub proof fn law_picture_keeps_its_shape(x: int, y: int)
    ensures
        (x + 18) * 320 / 1152 == x * 320 / 1152 + 5,
        (y + 18) * 200 / 720 == y * 200 / 720 + 5,
{
}

/// Where the screen differs from the packed background, the presentation over
/// enhanced artwork shows the screen's own colour; everywhere it is opaque.
pub proof fn law_live_overlay_shows(
    pixels: Seq<u8>,
    palette: Seq<PalColor>,
    art: Seq<u8>,
    baseline: Seq<u8>,
    target: Seq<PalColor>,
    x: int,
    y: int,
)
    requires
        0 <= x < 1280,
        0 <= y < 720,
    ensures
        pixels[320 * (y * 200 / 720) + x / 4] != baseline[320 * (y * 200 / 720) + x / 4] ==> enhanced_pixel(
            pixels,
            palette,
            art,
            baseline,
            target,
            1280 * y + x,
        ) == opaque(palette[pixels[320 * (y * 200 / 720) + x / 4] as int]),
        enhanced_pixel(pixels, palette, art, baseline, target, 1280 * y + x).a == 255,
{
    assert((1280 * y + x) % 1280 == x && (1280 * y + x) / 1280 == y);
}

/// A shake that is over shows the whole screen, and a shake never shows a
/// pixel in another column or twice.
pub proof fn law_shake_moves_rows(shake: Option<(u16, u16)>, y: int, z: int)
    requires
        0 <= y < z < 200,
    ensures
        shake is None ==> row_seen(shake, y) == Some(y),
        row_seen(shake, y) is Some && row_seen(shake, z) is Some ==> row_seen(shake, z)->0 - row_seen(shake, y)->0 == z - y,
{
}

/// A shake moves the whole picture: on odd counts up by its level, on even ones
/// down, and what it leaves is empty.
pub proof fn law_shake_moves_up_and_down(time: u16, level: u16, y: int)
    requires
        0 <= y < 200,
        level < 200,
    ensures
        time % 2 == 1 && y + level < 200 ==> row_seen(Some((time, level)), y) == Some(y + level),
        time % 2 == 1 && y + level >= 200 ==> row_seen(Some((time, level)), y) is None,
        time % 2 == 0 && y >= level ==> row_seen(Some((time, level)), y) == Some(y - level),
        time % 2 == 0 && y < level ==> row_seen(Some((time, level)), y) is None,
{
}

/// Without a shake the recorded screen shows every pixel in its place, in the
/// colour of the palette: red, green and blue, and opaque.
pub proof fn law_recorded_screen_is_the_screen(pixels: Seq<u8>, palette: Seq<PalColor>, x: int, y: int)
    requires
        0 <= x < 320,
        0 <= y < 200,
    ensures
        ({
            let c = palette[pixels[320 * y + x] as int];
            let r = recorded(pixels, palette, None, 320 * y + x);
            &&& r.r == c@[0]
            &&& r.g == c@[1]
            &&& r.b == c@[2]
            &&& r.a == 255
        }),
{
    assert((320 * y + x) / 320 == y && (320 * y + x) % 320 == x);
}

/// Every colour adds its three channels to the light of a palette.
pub proof fn law_light_adds_up(palette: Seq<PalColor>, n: int)
    requires
        n >= 0,
    ensures
        light(palette, 0) == 0,
        light(palette, n + 1) - light(palette, n) == palette[n]@[0] + palette[n]@[1] + palette[n]@[2],
        light(palette, n) >= 0,
    decreases n,
{
    if n > 0 {
        law_light_adds_up(palette, n - 1);
    }
}

/// Under the palette that it was made for, artwork shows as it is; under a
/// black one it is black.
pub proof fn law_artwork_is_as_bright_as_the_palette(
    pixels: Seq<u8>,
    palette: Seq<PalColor>,
    art: Seq<u8>,
    baseline: Seq<u8>,
    target: Seq<PalColor>,
    x: int,
    y: int,
)
    requires
        0 <= x < 1280,
        0 <= y < 720,
        pixels[320 * (y * 200 / 720) + x / 4] == baseline[320 * (y * 200 / 720) + x / 4],
        light(target, 256) > 0,
    ensures
        ({
            let p = 1280 * y + x;
            let shown = enhanced_pixel(pixels, palette, art, baseline, target, p);
            &&& light(palette, 256) == light(target, 256) ==> shown == (Rgba {
                r: art[3 * p],
                g: art[3 * p + 1],
                b: art[3 * p + 2],
                a: 255,
            })
            &&& light(palette, 256) == 0 ==> shown == black()
            &&& shown.r <= art[3 * p] && shown.g <= art[3 * p + 1] && shown.b <= art[3 * p + 2]
        }),
{
    let p = 1280 * y + x;
    assert(p / 1280 == y && p % 1280 == x);
    assert(x * 320 / 1280 == x / 4);
    let t = light(target, 256);
    let l = light(palette, 256);
    law_light_adds_up(palette, 256);
    if l == t {
        vstd::arithmetic::div_mod::lemma_div_multiples_vanish(255, t);
        assert(l * 255 / t == 255);
    }
    if l == 0 {
        vstd::arithmetic::div_mod::lemma_div_basics(t);
        assert(l * 255 == 0);
    }
    vstd::arithmetic::div_mod::lemma_div_pos_is_pos(l * 255, t);
    let f = relative_light(palette, target);
    assert(0 <= f <= 255);
    let (a, b, c): (int, int, int) = (art[3 * p] as int, art[3 * p + 1] as int, art[3 * p + 2] as int);
    assert(0 <= a * f <= a * 255) by (nonlinear_arith)
        requires
            0 <= f <= 255,
            a >= 0,
    ;
    assert(0 <= b * f <= b * 255) by (nonlinear_arith)
        requires
            0 <= f <= 255,
            b >= 0,
    ;
    assert(0 <= c * f <= c * 255) by (nonlinear_arith)
        requires
            0 <= f <= 255,
            c >= 0,
    ;
    assert(f == 255 ==> a * f == a * 255 && b * f == b * 255 && c * f == c * 255);
    assert(f == 0 ==> a * f == 0 && b * f == 0 && c * f == 0) by (nonlinear_arith);
}

} // verus!
