//! Pictures of four bytes per pixel.

use vstd::prelude::*;

verus! {

/// A pixel.
#[derive(Clone, Copy, Debug, PartialEq, Eq, Structural)]
pub struct Rgba {
    pub r: u8,
    pub g: u8,
    pub b: u8,
    pub a: u8,
}

/// Pixel `p` of a picture of four bytes per pixel.
pub open spec fn pixel(bytes: Seq<u8>, p: int) -> Rgba {
    Rgba { r: bytes[4 * p], g: bytes[4 * p + 1], b: bytes[4 * p + 2], a: bytes[4 * p + 3] }
}

/// Pixel `p`.
pub fn px(src: &[u8], p: usize) -> (c: Rgba)
    requires
        4 * p + 4 <= src@.len(),
    ensures
        c == pixel(src@, p as int),
{
    let n: usize = src.len();
    let i: usize = p * 4;
    Rgba { r: src[i], g: src[i + 1], b: src[i + 2], a: src[i + 3] }
}

/// Set pixel `p`.
pub fn put(dst: &mut [u8], p: usize, c: Rgba)
    requires
        4 * p + 4 <= old(dst)@.len(),
    ensures
        final(dst)@.len() == old(dst)@.len(),
        pixel(final(dst)@, p as int) == c,
        forall|i: int|
            0 <= i < old(dst)@.len() && !(4 * p <= i < 4 * p + 4) ==> #[trigger] final(dst)@[i] == old(dst)@[i],
{
    let n: usize = dst.len();
    let i: usize = p * 4;
    dst[i] = c.r;
    dst[i + 1] = c.g;
    dst[i + 2] = c.b;
    dst[i + 3] = c.a;
}

/// A pixel has four bytes: red, green, blue and opacity.
pub proof fn law_pixels_have_four_bytes(bytes: Seq<u8>, p: int)
    ensures
        pixel(bytes, p).r == bytes[4 * p],
        pixel(bytes, p).g == bytes[4 * p + 1],
        pixel(bytes, p).b == bytes[4 * p + 2],
        pixel(bytes, p).a == bytes[4 * p + 3],
{
}

} // verus!
