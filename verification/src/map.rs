//! Maps: two half-tiles per cell, each with a bottom and a top image.

use vstd::prelude::*;

use crate::data::{DataError, Mkf};
use crate::surface;
use crate::wordio;
use crate::wordio::WordReader;

verus! {

pub const MAP_WIDTH: usize = 64;
pub const MAP_HEIGHT: usize = 128;

/// A map.
pub struct TileMap {
    pub num: usize,
    /// The half-tiles: two per cell, cells row by row.
    pub tiles: Vec<u32>,
    /// The sprite that holds the tile images.
    pub tile_sprite: Vec<u8>,
}

/// The half-tile exists.
pub open spec fn on_map(x: int, y: int, h: int) -> bool {
    0 <= x < 64 && 0 <= y < 128 && 0 <= h < 2
}

/// Where a half-tile stands in the table.
pub open spec fn tile_index(x: int, y: int, h: int) -> int {
    (y * 64 + x) * 2 + h
}

/// The image number of a half-tile's layer; -1 for a top layer without one.
pub open spec fn tile_frame(tile: int, layer: int) -> int {
    if layer == 0 {
        tile % 256 + 256 * ((tile / 4096) % 2)
    } else {
        let top = tile / 65536;
        top % 256 + 256 * ((top / 4096) % 2) - 1
    }
}

/// The height of a half-tile's layer, in half-tiles.
pub open spec fn tile_height(tile: int, layer: int) -> int {
    if layer == 0 {
        (tile / 256) % 16
    } else {
        (tile / 65536 / 256) % 16
    }
}

impl TileMap {
    /// The table has all half-tiles.
    pub open spec fn wf(&self) -> bool {
        self.tiles@.len() == 16384
    }

    /// The half-tile at a position.
    pub open spec fn tile(&self, x: int, y: int, h: int) -> int {
        self.tiles@[tile_index(x, y, h)] as int
    }

    /// Nobody can walk here: there is no such half-tile, or it is marked.
    pub open spec fn blocked(&self, x: int, y: int, h: int) -> bool {
        !on_map(x, y, h) || (self.tile(x, y, h) / 8192) % 2 == 1
    }

    /// The image of a half-tile's layer, if it has one.
    pub open spec fn bitmap(&self, x: int, y: int, h: int, layer: int) -> Option<Seq<u8>> {
        if on_map(x, y, h) && surface::has_frame(self.tile_sprite@, tile_frame(self.tile(x, y, h), layer)) {
            Some(surface::frame_bytes(self.tile_sprite@, tile_frame(self.tile(x, y, h), layer)))
        } else {
            None
        }
    }

    /// Load a map from the archives of tiles and of tile images.
    pub fn load(map_mkf: &Mkf, gop_mkf: &Mkf, num: usize) -> (r: Result<TileMap, DataError>)
        ensures
            r is Ok <==> map_mkf.has_unpacked(num as int) && gop_mkf.has(num as int),
            r matches Ok(m) ==> {
                &&& m.wf()
                &&& m.num == num
                &&& m.tile_sprite@ == gop_mkf.bytes(num as int)
                &&& forall|i: int| 0 <= i < 16384 ==> #[trigger] m.tiles@[i] == wordio::dword_at(map_mkf.unpacked_bytes(num as int), 4 * i)
            },
            r matches Err(e) ==> e == if map_mkf.has_unpacked(num as int) {
                DataError::ChunkMissing(num)
            } else {
                DataError::ChunkCorrupt(num)
            },
    {
        let bytes: Vec<u8> = match map_mkf.chunk_decompressed(num) {
            Ok(bytes) => bytes,
            Err(e) => {
                return Err(e);
            },
        };
        let images: &[u8] = match gop_mkf.chunk(num) {
            Ok(images) => images,
            Err(e) => {
                return Err(e);
            },
        };
        let mut r: WordReader = WordReader::new(bytes.as_slice());
        let mut tiles: Vec<u32> = Vec::new();
        for i in 0..16384usize
            invariant
                r.bytes() == bytes@,
                r.offset() == 4 * i,
                tiles@.len() == i,
                forall|k: int| 0 <= k < i ==> #[trigger] tiles@[k] == wordio::dword_at(bytes@, 4 * k),
        {
            tiles.push(r.u32());
        }
        Ok(TileMap { num, tiles, tile_sprite: vstd::slice::slice_to_vec(images) })
    }

    fn tile_at(&self, x: u8, y: u8, h: u8) -> (tile: u32)
        requires
            self.wf(),
            on_map(x as int, y as int, h as int),
        ensures
            tile == self.tile(x as int, y as int, h as int),
    {
        let at: usize = (y as usize * 64 + x as usize) * 2 + h as usize;
        self.tiles[at]
    }

    /// Whether a half-tile blocks the way; there is no way outside the map.
    pub fn tile_is_blocked(&self, x: u8, y: u8, h: u8) -> (b: bool)
        requires
            self.wf(),
        ensures
            b == self.blocked(x as int, y as int, h as int),
    {
        if x >= 64 || y >= 128 || h > 1 {
            return true;
        }
        (self.tile_at(x, y, h) / 8192) % 2 == 1
    }

    /// The height of a half-tile's layer; 0 outside the map.
    pub fn get_tile_height(&self, x: u8, y: u8, h: u8, layer: u8) -> (height: u8)
        requires
            self.wf(),
        ensures
            height == if on_map(x as int, y as int, h as int) {
                tile_height(self.tile(x as int, y as int, h as int), layer as int)
            } else {
                0
            },
            height < 16,
    {
        if x >= 64 || y >= 128 || h > 1 {
            return 0;
        }
        let tile: u32 = self.tile_at(x, y, h);
        if layer == 0 {
            ((tile / 256) % 16) as u8
        } else {
            ((tile / 65536 / 256) % 16) as u8
        }
    }

    /// The image of a half-tile's layer, if it has one.
    pub fn get_tile_bitmap(&self, x: u8, y: u8, h: u8, layer: u8) -> (r: Option<&[u8]>)
        requires
            self.wf(),
        ensures
            r is Some <==> self.bitmap(x as int, y as int, h as int, layer as int) is Some,
            r matches Some(b) ==> b@ == self.bitmap(x as int, y as int, h as int, layer as int)->0,
    {
        if x >= 64 || y >= 128 || h > 1 {
            return None;
        }
        let tile: u32 = self.tile_at(x, y, h);
        if layer == 0 {
            surface::sprite_frame(self.tile_sprite.as_slice(), (tile % 256 + 256 * ((tile / 4096) % 2)) as usize)
        } else {
            let top: u32 = tile / 65536;
            let frame: u32 = top % 256 + 256 * ((top / 4096) % 2);
            if frame == 0 {
                None
            } else {
                surface::sprite_frame(self.tile_sprite.as_slice(), (frame - 1) as usize)
            }
        }
    }
}

/// The parts of one layer of a half-tile.
proof fn lemma_layer_parts(low: int, height: int, more: int, rest: int)
    requires
        0 <= low < 256,
        0 <= height < 16,
        0 <= more < 2,
        0 <= rest < 8,
    ensures
        ({
            let v = low + 0x100 * height + 0x1000 * more + 0x2000 * rest;
            &&& 0 <= v < 0x1_0000
            &&& v % 256 == low
            &&& (v / 256) % 16 == height
            &&& (v / 4096) % 2 == more
            &&& (v / 8192) % 2 == rest % 2
        }),
{
    let v = low + 0x100 * height + 0x1000 * more + 0x2000 * rest;
    assert(v / 8192 == rest);
    assert(v / 4096 == more + 2 * rest);
    assert(v / 256 == height + 16 * more + 32 * rest);
}

/// The bottom layer of a half-tile is its low half.
proof fn lemma_low_half(b: int, u: int)
    requires
        0 <= b < 0x1_0000,
        0 <= u < 0x1_0000,
    ensures
        ({
            let t = b + 0x1_0000 * u;
            &&& t / 65536 == u
            &&& t % 256 == b % 256
            &&& (t / 256) % 16 == (b / 256) % 16
            &&& (t / 4096) % 2 == (b / 4096) % 2
            &&& (t / 8192) % 2 == (b / 8192) % 2
        }),
{
    let t = b + 0x1_0000 * u;
    assert(t / 256 == b / 256 + 256 * u);
    assert(t / 4096 == b / 4096 + 16 * u);
    assert(t / 8192 == b / 8192 + 8 * u);
}

/// A half-tile packs two layers into a number, the bottom one low and the top
/// one high: eight bits of the image number, four of the height, and one more
/// of the image number. The bottom one then has the mark of obstacles, and the
/// image numbers of the top one start at 1.
pub proof fn law_half_tiles_unpack(m: &TileMap, x: int, y: int, h: int, low: int, height: int, more: int, mark: int, rest: int, top: int, top_height: int, top_more: int, top_rest: int)
    requires
        m.wf(),
        0 <= x < 64,
        0 <= y < 128,
        0 <= h < 2,
        0 <= low < 256,
        0 <= height < 16,
        0 <= more < 2,
        0 <= mark < 2,
        0 <= rest < 4,
        0 <= top < 256,
        0 <= top_height < 16,
        0 <= top_more < 2,
        0 <= top_rest < 8,
        m.tiles@[128 * y + 2 * x + h] == low + 0x100 * height + 0x1000 * more + 0x2000 * mark + 0x4000 * rest + 0x1_0000
            * (top + 0x100 * top_height + 0x1000 * top_more + 0x2000 * top_rest),
    ensures
        m.blocked(x, y, h) <==> mark == 1,
        tile_frame(m.tile(x, y, h), 0) == low + 0x100 * more,
        tile_height(m.tile(x, y, h), 0) == height,
        tile_frame(m.tile(x, y, h), 1) == top + 0x100 * top_more - 1,
        tile_height(m.tile(x, y, h), 1) == top_height,
{
    let b = low + 0x100 * height + 0x1000 * more + 0x2000 * (mark + 2 * rest);
    let u = top + 0x100 * top_height + 0x1000 * top_more + 0x2000 * top_rest;
    assert(tile_index(x, y, h) == 128 * y + 2 * x + h);
    assert(m.tile(x, y, h) == b + 0x1_0000 * u);
    lemma_layer_parts(low, height, more, mark + 2 * rest);
    lemma_layer_parts(top, top_height, top_more, top_rest);
    lemma_low_half(b, u);
}

/// There is no way outside the map, which has 64 columns and 128 rows.
pub proof fn law_no_way_off_the_map(m: &TileMap, x: int, y: int, h: int)
    requires
        0 <= h < 2,
        x < 0 || x >= 64 || y < 0 || y >= 128,
    ensures
        m.blocked(x, y, h),
        m.bitmap(x, y, h, 0) is None,
        m.bitmap(x, y, h, 1) is None,
{
}

} // verus!
