//! Enlargement of pixel art: every pixel becomes four, each blended with the
//! neighbours on its side where their colours are close. Enlarging twice gives
//! four times the size.

use vstd::prelude::*;

use crate::rgba;
use crate::rgba::Rgba;

verus! {

/// Brightness.
pub open spec fn luma(c: Rgba) -> int {
    (c.r + c.g + c.b) / 4
}

/// The balance of red against blue.
pub open spec fn red_balance(c: Rgba) -> int {
    128 + (c.r - c.b) / 4
}

/// The balance of green against red and blue.
pub open spec fn green_balance(c: Rgba) -> int {
    128 + (2 * c.g - c.r - c.b) / 8
}

pub open spec fn apart(a: int, b: int, limit: int) -> bool {
    a - b > limit || b - a > limit
}

/// The colours are far from each other.
pub open spec fn differs(a: Rgba, b: Rgba) -> bool {
    a != b && (apart(luma(a), luma(b), 48) || apart(red_balance(a), red_balance(b), 7) || apart(
        green_balance(a),
        green_balance(b),
        6,
    ))
}

/// Three parts of `a`, one of `b`; opaque as `a`.
pub open spec fn mostly(a: Rgba, b: Rgba) -> Rgba {
    Rgba {
        r: ((3 * a.r + b.r) / 4) as u8,
        g: ((3 * a.g + b.g) / 4) as u8,
        b: ((3 * a.b + b.b) / 4) as u8,
        a: a.a,
    }
}

/// Equal parts of `a` and `b`; opaque as `a`.
pub open spec fn halfway(a: Rgba, b: Rgba) -> Rgba {
    Rgba {
        r: ((a.r + b.r) / 2) as u8,
        g: ((a.g + b.g) / 2) as u8,
        b: ((a.b + b.b) / 2) as u8,
        a: a.a,
    }
}

/// Five parts of `a`, two of `b`, one of `c`; opaque as `a`.
pub open spec fn blend(a: Rgba, b: Rgba, c: Rgba) -> Rgba {
    Rgba {
        r: ((5 * a.r + 2 * b.r + c.r) / 8) as u8,
        g: ((5 * a.g + 2 * b.g + c.g) / 8) as u8,
        b: ((5 * a.b + 2 * b.b + c.b) / 8) as u8,
        a: a.a,
    }
}

/// A corner of an enlarged pixel, by its neighbours beside and above (or
/// below) that corner.
pub open spec fn corner(center: Rgba, beside: Rgba, above: Rgba) -> Rgba {
    let near_beside = !differs(center, beside);
    let near_above = !differs(center, above);
    if near_beside && near_above {
        if differs(above, beside) {
            blend(center, beside, above)
        } else {
            halfway(center, halfway(above, beside))
        }
    } else if near_above {
        mostly(center, above)
    } else if near_beside {
        mostly(center, beside)
    } else {
        center
    }
}

/// Where half `at % 2` of pixel `at / 2` looks for a neighbour among `n`
/// pixels: the pixel on its side, or itself at the edge.
pub open spec fn neighbour(at: int, n: int) -> int {
    if at % 2 == 0 {
        if at / 2 > 0 {
            at / 2 - 1
        } else {
            0
        }
    } else if at / 2 + 1 < n {
        at / 2 + 1
    } else {
        n - 1
    }
}

/// Pixel `(x, y)` of the enlarged picture.
pub open spec fn doubled(src: Seq<u8>, w: int, h: int, x: int, y: int) -> Rgba {
    corner(
        rgba::pixel(src, (y / 2) * w + x / 2),
        rgba::pixel(src, (y / 2) * w + neighbour(x, w)),
        rgba::pixel(src, neighbour(y, h) * w + x / 2),
    )
}

/// The first rows of `dst` hold the picture enlarged, up to pixel `(x, y)`.
pub open spec fn doubled_until(src: Seq<u8>, w: int, h: int, dst: Seq<u8>, x: int, y: int) -> bool {
    forall|i: int, j: int|
        0 <= i < 2 * w && 0 <= j && (j < y || j == y && i < x) ==> #[trigger] rgba::pixel(dst, j * (2 * w) + i) == doubled(
            src,
            w,
            h,
            i,
            j,
        )
}

/// `dst` holds the picture enlarged.
pub open spec fn doubled_into(src: Seq<u8>, w: int, h: int, dst: Seq<u8>) -> bool {
    forall|i: int, j: int|
        0 <= i < 2 * w && 0 <= j < 2 * h ==> #[trigger] rgba::pixel(dst, j * (2 * w) + i) == doubled(src, w, h, i, j)
}

/// A pixel inside a picture lies inside its bytes.
proof fn lemma_inside(x: int, y: int, w: int, h: int)
    requires
        0 <= x < w,
        0 <= y < h,
    ensures
        0 <= y * w <= y * w + x < w * h,
{
    assert(y * w + w <= w * h) by (nonlinear_arith)
        requires
            0 <= w,
            0 <= y < h,
    ;
    assert(0 <= y * w) by (nonlinear_arith)
        requires
            0 <= w,
            0 <= y,
    ;
}

/// Pixels that come earlier row by row lie earlier in the bytes.
proof fn lemma_before(i: int, j: int, x: int, y: int, w: int)
    requires
        0 <= i < w,
        0 <= x,
        0 <= j,
        j < y || j == y && i < x,
    ensures
        j * w + i < y * w + x,
{
    if j < y {
        assert(j * w + w <= y * w) by (nonlinear_arith)
            requires
                0 <= w,
                0 <= j < y,
        ;
    }
}

fn distance_exceeds(a: i32, b: i32, limit: i32) -> (d: bool)
    requires
        -1000 <= a <= 1000,
        -1000 <= b <= 1000,
    ensures
        d == apart(a as int, b as int, limit as int),
{
    a - b > limit || b - a > limit
}

fn rgb_to_yuv(c: Rgba) -> (r: (i32, i32, i32))
    ensures
        r.0 == luma(c),
        r.1 == red_balance(c),
        r.2 == green_balance(c),
        0 <= r.0 < 1000,
        0 <= r.1 < 1000,
        0 <= r.2 < 1000,
{
    let (r, g, b) = (c.r as i32, c.g as i32, c.b as i32);
    ((r + g + b) / 4, (512 + r - b) / 4, (1024 + 2 * g - r - b) / 8)
}

fn diff(a: Rgba, b: Rgba) -> (d: bool)
    ensures
        d == differs(a, b),
{
    if a == b {
        return false;
    }
    let (y1, u1, v1) = rgb_to_yuv(a);
    let (y2, u2, v2) = rgb_to_yuv(b);
    distance_exceeds(y1, y2, 48) || distance_exceeds(u1, u2, 7) || distance_exceeds(v1, v2, 6)
}

fn interp2(a: Rgba, b: Rgba) -> (c: Rgba)
    ensures
        c == mostly(a, b),
{
    Rgba {
        r: ((3 * a.r as u16 + b.r as u16) / 4) as u8,
        g: ((3 * a.g as u16 + b.g as u16) / 4) as u8,
        b: ((3 * a.b as u16 + b.b as u16) / 4) as u8,
        a: a.a,
    }
}

fn interp3(a: Rgba, b: Rgba) -> (c: Rgba)
    ensures
        c == halfway(a, b),
{
    Rgba {
        r: ((a.r as u16 + b.r as u16) / 2) as u8,
        g: ((a.g as u16 + b.g as u16) / 2) as u8,
        b: ((a.b as u16 + b.b as u16) / 2) as u8,
        a: a.a,
    }
}

fn interp6(a: Rgba, b: Rgba, c: Rgba) -> (d: Rgba)
    ensures
        d == blend(a, b, c),
{
    Rgba {
        r: ((5 * a.r as u16 + 2 * b.r as u16 + c.r as u16) / 8) as u8,
        g: ((5 * a.g as u16 + 2 * b.g as u16 + c.g as u16) / 8) as u8,
        b: ((5 * a.b as u16 + 2 * b.b as u16 + c.b as u16) / 8) as u8,
        a: a.a,
    }
}

/// A corner of an enlarged pixel.
pub fn hq2x_corner(center: Rgba, beside: Rgba, above: Rgba) -> (c: Rgba)
    ensures
        c == corner(center, beside, above),
{
    let near_beside: bool = !diff(center, beside);
    let near_above: bool = !diff(center, above);
    if near_beside && near_above {
        if diff(above, beside) {
            interp6(center, beside, above)
        } else {
            interp3(center, interp3(above, beside))
        }
    } else if near_above {
        interp2(center, above)
    } else if near_beside {
        interp2(center, beside)
    } else {
        center
    }
}

fn side(at: usize, n: usize) -> (r: usize)
    requires
        at / 2 < n,
    ensures
        r == neighbour(at as int, n as int),
        r < n,
{
    if at % 2 == 0 {
        if at / 2 > 0 {
            at / 2 - 1
        } else {
            0
        }
    } else if at / 2 + 1 < n {
        at / 2 + 1
    } else {
        n - 1
    }
}

fn doubled_pixel(src: &[u8], w: usize, h: usize, x: usize, y: usize) -> (c: Rgba)
    requires
        src@.len() >= w * h * 4,
        x / 2 < w,
        y / 2 < h,
    ensures
        c == doubled(src@, w as int, h as int, x as int, y as int),
{
    let n: usize = src.len();
    let (bx, ay) = (side(x, w), side(y, h));
    proof {
        lemma_inside(x as int / 2, y as int / 2, w as int, h as int);
        lemma_inside(bx as int, y as int / 2, w as int, h as int);
        lemma_inside(x as int / 2, ay as int, w as int, h as int);
    }
    let row: usize = (y / 2) * w;
    hq2x_corner(rgba::px(src, row + x / 2), rgba::px(src, row + bx), rgba::px(src, ay * w + x / 2))
}

/// Writing a pixel keeps the pixels before it, and what stands behind the
/// picture.
proof fn lemma_written(src: Seq<u8>, w: int, h: int, before: Seq<u8>, after: Seq<u8>, x: int, y: int)
    requires
        0 <= x < 2 * w,
        0 <= y < 2 * h,
        before.len() == after.len(),
        (2 * w) * (2 * h) * 4 <= before.len(),
        doubled_until(src, w, h, before, x, y),
        rgba::pixel(after, y * (2 * w) + x) == doubled(src, w, h, x, y),
        forall|i: int|
            0 <= i < before.len() && !(4 * (y * (2 * w) + x) <= i < 4 * (y * (2 * w) + x) + 4) ==> #[trigger] after[i]
                == before[i],
    ensures
        doubled_until(src, w, h, after, x + 1, y),
{
    let dw = 2 * w;
    assert forall|i: int, j: int| 0 <= i < dw && 0 <= j && (j < y || j == y && i < x + 1) implies #[trigger] rgba::pixel(
        after,
        j * dw + i,
    ) == doubled(src, w, h, i, j) by {
        if !(j == y && i == x) {
            lemma_before(i, j, x, y, dw);
            lemma_inside(i, j, dw, 2 * h);
            assert(rgba::pixel(before, j * dw + i) == doubled(src, w, h, i, j));
        }
    }
}

/// Enlarge the picture of `sw` by `sh` pixels at the head of `src`.
fn enlarge(src: &[u8], sw: usize, sh: usize, dst: &mut [u8])
    requires
        src@.len() >= sw * sh * 4,
        old(dst)@.len() >= (2 * sw) * (2 * sh) * 4,
    ensures
        final(dst)@.len() == old(dst)@.len(),
        doubled_into(src@, sw as int, sh as int, final(dst)@),
        forall|i: int| (2 * sw) * (2 * sh) * 4 <= i < old(dst)@.len() ==> #[trigger] final(dst)@[i] == old(dst)@[i],
{
    if sw == 0 || sh == 0 {
        return;
    }
    let n: usize = dst.len();
    let ghost before = dst@;
    assert((2 * sw) * (2 * sh) * 4 >= 2 * sw && (2 * sw) * (2 * sh) * 4 >= 2 * sh) by (nonlinear_arith)
        requires
            sw >= 1,
            sh >= 1,
    ;
    let (dw, dh): (usize, usize) = (2 * sw, 2 * sh);
    for y in 0..dh
        invariant
            src@.len() >= sw * sh * 4,
            sw >= 1,
            sh >= 1,
            dw == 2 * sw,
            dh == 2 * sh,
            n == dst@.len() == before.len(),
            n >= dw * dh * 4,
            doubled_until(src@, sw as int, sh as int, dst@, 0, y as int),
            forall|i: int| dw * dh * 4 <= i < n ==> #[trigger] dst@[i] == before[i],
    {
        for x in 0..dw
            invariant
                src@.len() >= sw * sh * 4,
                sw >= 1,
                sh >= 1,
                dw == 2 * sw,
                dh == 2 * sh,
                y < dh,
                n == dst@.len() == before.len(),
                n >= dw * dh * 4,
                doubled_until(src@, sw as int, sh as int, dst@, x as int, y as int),
                forall|i: int| dw * dh * 4 <= i < n ==> #[trigger] dst@[i] == before[i],
        {
            let c: Rgba = doubled_pixel(src, sw, sh, x, y);
            proof {
                lemma_inside(x as int, y as int, dw as int, dh as int);
            }
            let ghost now = dst@;
            rgba::put(dst, y * dw + x, c);
            proof {
                lemma_written(src@, sw as int, sh as int, now, dst@, x as int, y as int);
            }
        }
        assert(doubled_until(src@, sw as int, sh as int, dst@, 0, y + 1)) by {
            assert(doubled_until(src@, sw as int, sh as int, dst@, dw as int, y as int));
        }
    }
}

/// Enlarge a picture of `sw` by `sh` pixels to twice its size.
pub fn hqx2(src: &[u8], sw: usize, sh: usize, dst: &mut [u8])
    requires
        src@.len() == sw * sh * 4,
        old(dst)@.len() >= (2 * sw) * (2 * sh) * 4,
    ensures
        final(dst)@.len() == old(dst)@.len(),
        doubled_into(src@, sw as int, sh as int, final(dst)@),
        forall|i: int| (2 * sw) * (2 * sh) * 4 <= i < old(dst)@.len() ==> #[trigger] final(dst)@[i] == old(dst)@[i],
{
    enlarge(src, sw, sh, dst);
}

/// Enlarge a picture to four times its size, by way of the head of `tmp`.
pub fn hqx4(src: &[u8], sw: usize, sh: usize, tmp: &mut [u8], dst: &mut [u8])
    requires
        src@.len() == sw * sh * 4,
        old(tmp)@.len() >= (2 * sw) * (2 * sh) * 4,
        old(dst)@.len() >= (4 * sw) * (4 * sh) * 4,
        2 * sw <= usize::MAX,
        2 * sh <= usize::MAX,
    ensures
        final(tmp)@.len() == old(tmp)@.len(),
        final(dst)@.len() == old(dst)@.len(),
        doubled_into(src@, sw as int, sh as int, final(tmp)@),
        doubled_into(final(tmp)@, 2 * sw, 2 * sh, final(dst)@),
        forall|i: int| (2 * sw) * (2 * sh) * 4 <= i < old(tmp)@.len() ==> #[trigger] final(tmp)@[i] == old(tmp)@[i],
        forall|i: int| (4 * sw) * (4 * sh) * 4 <= i < old(dst)@.len() ==> #[trigger] final(dst)@[i] == old(dst)@[i],
{
    enlarge(src, sw, sh, tmp);
    enlarge(tmp, 2 * sw, 2 * sh, dst);
}

/// A picture of one colour stays of one colour: enlarging makes up nothing.
pub proof fn law_solid_stays_solid(src: Seq<u8>, w: int, h: int, dst: Seq<u8>, c: Rgba)
    requires
        0 < w,
        0 < h,
        forall|x: int, y: int| 0 <= x < w && 0 <= y < h ==> #[trigger] rgba::pixel(src, y * w + x) == c,
        doubled_into(src, w, h, dst),
    ensures
        forall|i: int, j: int| 0 <= i < 2 * w && 0 <= j < 2 * h ==> #[trigger] rgba::pixel(dst, j * (2 * w) + i) == c,
{
    assert forall|i: int, j: int| 0 <= i < 2 * w && 0 <= j < 2 * h implies #[trigger] rgba::pixel(dst, j * (2 * w) + i)
        == c by {
        assert(rgba::pixel(src, (j / 2) * w + i / 2) == c);
        assert(rgba::pixel(src, (j / 2) * w + neighbour(i, w)) == c);
        assert(rgba::pixel(src, neighbour(j, h) * w + i / 2) == c);
        assert(corner(c, c, c) == c);
    }
}

/// A pixel that stands out from all its neighbours keeps its colour in all
/// four corners: hard edges stay hard.
pub proof fn law_hard_edges_stay(src: Seq<u8>, w: int, h: int, x: int, y: int)
    requires
        differs(rgba::pixel(src, (y / 2) * w + x / 2), rgba::pixel(src, (y / 2) * w + neighbour(x, w))),
        differs(rgba::pixel(src, (y / 2) * w + x / 2), rgba::pixel(src, neighbour(y, h) * w + x / 2)),
    ensures
        doubled(src, w, h, x, y) == rgba::pixel(src, (y / 2) * w + x / 2),
{
}

/// Opacity is never blended: a corner is as opaque as its pixel.
pub proof fn law_opacity_is_kept(src: Seq<u8>, w: int, h: int, x: int, y: int)
    ensures
        doubled(src, w, h, x, y).a == rgba::pixel(src, (y / 2) * w + x / 2).a,
{
}

/// Mixed colours are weighted means of each channel, rounded down: three to
/// one, one to one, and five to two to one.
pub proof fn law_mixes_are_weighted_means(a: Rgba, b: Rgba, c: Rgba)
    ensures
        4 * mostly(a, b).r <= 3 * a.r + b.r < 4 * mostly(a, b).r + 4,
        4 * mostly(a, b).g <= 3 * a.g + b.g < 4 * mostly(a, b).g + 4,
        4 * mostly(a, b).b <= 3 * a.b + b.b < 4 * mostly(a, b).b + 4,
        2 * halfway(a, b).r <= a.r + b.r < 2 * halfway(a, b).r + 2,
        2 * halfway(a, b).g <= a.g + b.g < 2 * halfway(a, b).g + 2,
        2 * halfway(a, b).b <= a.b + b.b < 2 * halfway(a, b).b + 2,
        8 * blend(a, b, c).r <= 5 * a.r + 2 * b.r + c.r < 8 * blend(a, b, c).r + 8,
        8 * blend(a, b, c).g <= 5 * a.g + 2 * b.g + c.g < 8 * blend(a, b, c).g + 8,
        8 * blend(a, b, c).b <= 5 * a.b + 2 * b.b + c.b < 8 * blend(a, b, c).b + 8,
        mostly(a, a) == a,
        halfway(a, a) == a,
        blend(a, a, a) == a,
{
}

/// Colours are far from each other by brightness (more than 48) or by balance
/// (more than 7 of red, or 6 of green); whichever comes first, and no colour
/// from itself.
pub proof fn law_far_colours(a: Rgba, b: Rgba)
    ensures
        differs(a, b) == differs(b, a),
        !differs(a, a),
        vstd::math::abs((a.r + a.g + a.b) / 4 - (b.r + b.g + b.b) / 4) > 48 ==> differs(a, b),
        vstd::math::abs((a.r - a.b) / 4 - (b.r - b.b) / 4) > 7 ==> differs(a, b),
        vstd::math::abs((2 * a.g - a.r - a.b) / 8 - (2 * b.g - b.r - b.b) / 8) > 6 ==> differs(a, b),
        differs(a, b) ==> {
            ||| vstd::math::abs((a.r + a.g + a.b) / 4 - (b.r + b.g + b.b) / 4) > 48
            ||| vstd::math::abs((a.r - a.b) / 4 - (b.r - b.b) / 4) > 7
            ||| vstd::math::abs((2 * a.g - a.r - a.b) / 8 - (2 * b.g - b.r - b.b) / 8) > 6
        },
{
}

/// A corner takes from the neighbours that are near in colour: from both, or
/// from the one, and most of it is the pixel's own.
pub proof fn law_corners_take_from_near_neighbours(center: Rgba, beside: Rgba, above: Rgba)
    ensures
        differs(center, beside) && differs(center, above) ==> corner(center, beside, above) == center,
        !differs(center, beside) && differs(center, above) ==> corner(center, beside, above) == mostly(center, beside),
        differs(center, beside) && !differs(center, above) ==> corner(center, beside, above) == mostly(center, above),
        !differs(center, beside) && !differs(center, above) && differs(above, beside) ==> corner(center, beside, above) == blend(
            center,
            beside,
            above,
        ),
        !differs(center, beside) && !differs(center, above) && !differs(above, beside) ==> corner(center, beside, above)
            == halfway(center, halfway(above, beside)),
{
}

/// The left half of a pixel looks left, the right half right; at the edges they
/// look at their own pixel.
pub proof fn law_halves_look_outward(x: int, n: int)
    requires
        0 <= x < n,
    ensures
        neighbour(2 * x, n) == if x > 0 { x - 1 } else { 0 },
        neighbour(2 * x + 1, n) == if x < n - 1 { x + 1 } else { x },
{
}

} // verus!
