//! Indexed-colour surfaces and the headers of the sprite formats.

use vstd::prelude::*;

use crate::wordio;

verus! {

pub const SCREEN_W: usize = 320;
pub const SCREEN_H: usize = 200;

/// A surface of palette indices, row by row.
pub struct Surface {
    pub w: usize,
    pub h: usize,
    pub pixels: Vec<u8>,
}

/// The little-endian word at `at`; missing bytes read as 0.
fn word(bytes: &[u8], at: usize) -> (w: u16)
    requires
        at < usize::MAX,
    ensures
        w == wordio::word_at(bytes@, at as int),
{
    wordio::read_byte(bytes, at) as u16 + 256 * (wordio::read_byte(bytes, at + 1) as u16)
}

/// How many bytes of header stand before an image's width.
pub open spec fn rle_header(rle: Seq<u8>) -> int {
    if rle.len() >= 4 && rle[0] == 2 && rle[1] == 0 && rle[2] == 0 && rle[3] == 0 {
        4
    } else {
        0
    }
}

/// The width that an image declares.
pub open spec fn declared_width(rle: Seq<u8>) -> u16 {
    wordio::word_at(rle, rle_header(rle))
}

/// The height that an image declares.
pub open spec fn declared_height(rle: Seq<u8>) -> u16 {
    wordio::word_at(rle, rle_header(rle) + 2)
}

/// Where frame `n` of a sprite starts: the words at its head are offsets in
/// words, of which one value stands for an offset beyond 64 KiB that is to be
/// taken modulo 64 KiB.
pub open spec fn frame_offset(sprite: Seq<u8>, n: int) -> int {
    let offset = 2 * wordio::word_at(sprite, 2 * n);
    if offset == 0x18444 {
        0x8444
    } else {
        offset
    }
}

/// The sprite has a slot for frame `n`, and it points into the sprite.
pub open spec fn has_frame(sprite: Seq<u8>, n: int) -> bool {
    0 <= n < wordio::word_at(sprite, 0) && frame_offset(sprite, n) < sprite.len()
}

/// The bytes of frame `n`, to the end of the sprite.
pub open spec fn frame_bytes(sprite: Seq<u8>, n: int) -> Seq<u8> {
    sprite.subrange(frame_offset(sprite, n), sprite.len() as int)
}

fn rle_header_len(rle: &[u8]) -> (n: usize)
    ensures
        n == rle_header(rle@),
{
    if rle.len() >= 4 && rle[0] == 2 && rle[1] == 0 && rle[2] == 0 && rle[3] == 0 {
        4
    } else {
        0
    }
}

/// The width that an image declares.
pub fn rle_width(rle: &[u8]) -> (w: u16)
    ensures
        w == declared_width(rle@),
{
    word(rle, rle_header_len(rle))
}

/// The height that an image declares.
pub fn rle_height(rle: &[u8]) -> (h: u16)
    ensures
        h == declared_height(rle@),
{
    word(rle, rle_header_len(rle) + 2)
}

/// The number of frame slots of a sprite, the end marker included.
pub fn sprite_frame_count(sprite: &[u8]) -> (n: usize)
    ensures
        n == wordio::word_at(sprite@, 0),
{
    word(sprite, 0) as usize
}

/// The number of frames of a sprite: its last slot is an end marker.
pub fn sprite_num_frames(sprite: &[u8]) -> (n: usize)
    ensures
        n == if wordio::word_at(sprite@, 0) > 0 { wordio::word_at(sprite@, 0) - 1 } else { 0 },
{
    let count: usize = word(sprite, 0) as usize;
    if count > 0 {
        count - 1
    } else {
        0
    }
}

/// The bytes of a frame.
pub fn sprite_frame(sprite: &[u8], n: usize) -> (r: Option<&[u8]>)
    ensures
        r is Some <==> has_frame(sprite@, n as int),
        r matches Some(f) ==> f@ == frame_bytes(sprite@, n as int),
{
    if n >= sprite_frame_count(sprite) {
        return None;
    }
    let offset: usize = 2 * (word(sprite, 2 * n) as usize);
    let offset: usize = if offset == 0x18444 {
        0x8444
    } else {
        offset
    };
    if offset >= sprite.len() {
        return None;
    }
    Some(vstd::slice::slice_subrange(sprite, offset, sprite.len()))
}

impl Surface {
    /// The pixels are those of a surface of this size.
    pub open spec fn wf(&self) -> bool {
        self.pixels@.len() == self.w * self.h
    }

    /// The surface is the size of the screen.
    pub open spec fn is_screen(&self) -> bool {
        self.w == 320 && self.h == 200 && self.pixels@.len() == 64000
    }

    pub fn new(w: usize, h: usize) -> (s: Surface)
        requires
            w * h <= usize::MAX,
        ensures
            s.w == w,
            s.h == h,
            s.wf(),
            forall|i: int| 0 <= i < w * h ==> s.pixels@[i] == 0,
    {
        Surface { w, h, pixels: vec![0u8; w * h] }
    }

    /// A black surface the size of the screen.
    pub fn screen() -> (s: Surface)
        ensures
            s.is_screen(),
            forall|i: int| 0 <= i < 64000 ==> s.pixels@[i] == 0,
    {
        Surface { w: SCREEN_W, h: SCREEN_H, pixels: vec![0u8; 64000] }
    }

    /// Fill the surface with one colour.
    pub fn clear(&mut self, color: u8)
        ensures
            final(self).w == old(self).w,
            final(self).h == old(self).h,
            final(self).pixels@ == Seq::new(old(self).pixels@.len(), |i: int| color),
    {
        let n: usize = self.pixels.len();
        for i in 0..n
            invariant
                self.w == old(self).w,
                self.h == old(self).h,
                n == self.pixels@.len() == old(self).pixels@.len(),
                forall|k: int| 0 <= k < i ==> #[trigger] self.pixels@[k] == color,
        {
            self.pixels[i] = color;
        }
        assert(self.pixels@ =~= Seq::new(old(self).pixels@.len(), |i: int| color));
    }

    /// Set a pixel; positions outside the surface are ignored.
    pub fn put_pixel(&mut self, x: i32, y: i32, color: u8)
        requires
            old(self).wf(),
        ensures
            final(self).w == old(self).w,
            final(self).h == old(self).h,
            if 0 <= x < old(self).w && 0 <= y < old(self).h {
                final(self).pixels@ == old(self).pixels@.update(y * old(self).w + x, color)
            } else {
                final(self).pixels@ == old(self).pixels@
            },
    {
        if x < 0 || y < 0 || x as usize >= self.w || y as usize >= self.h {
            return;
        }
        assert(0 <= y * self.w <= y * self.w + x < self.w * self.h) by (nonlinear_arith)
            requires
                0 <= x < self.w,
                0 <= y < self.h,
        ;
        let total: usize = self.pixels.len();
        let at: usize = y as usize * self.w + x as usize;
        self.pixels[at] = color;
    }

    /// Take over the pixels of a surface of the same size.
    pub fn copy_from(&mut self, other: &Surface)
        requires
            old(self).pixels@.len() == other.pixels@.len(),
        ensures
            final(self).w == old(self).w,
            final(self).h == old(self).h,
            final(self).pixels@ == other.pixels@,
    {
        let n: usize = self.pixels.len();
        for i in 0..n
            invariant
                self.w == old(self).w,
                self.h == old(self).h,
                n == self.pixels@.len() == other.pixels@.len(),
                forall|k: int| 0 <= k < i ==> #[trigger] self.pixels@[k] == other.pixels@[k],
        {
            self.pixels[i] = other.pixels[i];
        }
        assert(self.pixels@ =~= other.pixels@);
    }
}

/// Copy `rows` rows of a 320-pixel-wide picture to the screen.
pub fn copy_rows(src: &[u8], src_row: usize, dst: &mut Surface, dst_row: usize, rows: usize)
    requires
        320 * (src_row + rows) <= src@.len(),
        old(dst).is_screen(),
        dst_row + rows <= 200,
    ensures
        final(dst).is_screen(),
        forall|i: int|
            0 <= i < 64000 ==> #[trigger] final(dst).pixels@[i] == if 320 * dst_row <= i < 320 * (dst_row + rows) {
                src@[i - 320 * dst_row + 320 * src_row]
            } else {
                old(dst).pixels@[i]
            },
{
    let len: usize = src.len();
    let n: usize = 320 * rows;
    let from: usize = 320 * src_row;
    let to: usize = 320 * dst_row;
    for i in 0..n
        invariant
            n == 320 * rows,
            from == 320 * src_row,
            to == 320 * dst_row,
            from + n <= src@.len() <= usize::MAX,
            to + n <= 64000,
            dst.is_screen(),
            forall|k: int|
                0 <= k < 64000 ==> #[trigger] dst.pixels@[k] == if to <= k < to + i {
                    src@[k - to + from]
                } else {
                    old(dst).pixels@[k]
                },
    {
        dst.pixels[to + i] = src[from + i];
    }
}

/// An image declares its width and its height in its first two words, behind
/// the mark in front of them if there is one.
pub proof fn law_images_declare_their_size(rle: Seq<u8>)
    requires
        rle.len() >= 8,
    ensures
        rle[0] == 2 && rle[1] == 0 && rle[2] == 0 && rle[3] == 0 ==> declared_width(rle) == rle[4] + 0x100 * rle[5]
            && declared_height(rle) == rle[6] + 0x100 * rle[7],
        !(rle[0] == 2 && rle[1] == 0 && rle[2] == 0 && rle[3] == 0) ==> declared_width(rle) == rle[0] + 0x100 * rle[1]
            && declared_height(rle) == rle[2] + 0x100 * rle[3],
{
}

/// A sprite starts with a table of words: the number of its entries, which is
/// also where its first image is, and where the others are, in words.
pub proof fn law_sprites_start_with_a_table(sprite: Seq<u8>, n: int)
    requires
        0 <= n,
        2 * n + 1 < sprite.len(),
    ensures
        ({
            let count = sprite[0] + 0x100 * sprite[1];
            let at = sprite[2 * n] + 0x100 * sprite[2 * n + 1];
            &&& 2 * at != 0x18444 ==> frame_offset(sprite, n) == 2 * at
            &&& 2 * at == 0x18444 ==> frame_offset(sprite, n) == 0x8444
            &&& has_frame(sprite, n) <==> n < count && frame_offset(sprite, n) < sprite.len()
            &&& has_frame(sprite, n) ==> frame_bytes(sprite, n)[0] == sprite[frame_offset(sprite, n)]
                && frame_bytes(sprite, n).len() == sprite.len() - frame_offset(sprite, n)
        }),
{
}

} // verus!
