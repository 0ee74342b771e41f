//! What is drawn over the map: the sprites of the party and of event objects,
//! and the map tiles that cover them, from the back to the front.

use vstd::prelude::*;

use crate::casts;
use crate::engine::Engine;
use crate::geometry;
use crate::global::{Globals, OBJSTATE_HIDDEN};
use crate::map::TileMap;
use crate::records::EventObject;
use crate::res::Resources;
use crate::surface;

verus! {

/// How many images a scene shows at most.
pub const MAX_SPRITE_TO_DRAW: usize = 2048;

/// An image to draw: its left edge, its foot and how far it stands up.
#[derive(Clone, Copy)]
pub struct SpriteToDraw<'a> {
    pub frame: &'a [u8],
    pub x: i64,
    pub y: i64,
    pub layer: i64,
}

/// What an image to draw stands for.
pub struct Drawn {
    pub frame: Seq<u8>,
    pub x: int,
    pub y: int,
    pub layer: int,
}

impl<'a> View for SpriteToDraw<'a> {
    type V = Drawn;

    open spec fn view(&self) -> Drawn {
        Drawn { frame: self.frame@, x: self.x as int, y: self.y as int, layer: self.layer as int }
    }
}

/// What a list of images stands for.
pub open spec fn drawn<'a>(queue: Seq<SpriteToDraw<'a>>) -> Seq<Drawn> {
    Seq::new(queue.len(), |i: int| queue[i]@)
}

/// The images are placed in the vicinity of the world.
pub open spec fn placed<'a>(queue: Seq<SpriteToDraw<'a>>) -> bool {
    forall|i: int| 0 <= i < queue.len() ==> near(#[trigger] queue[i])
}

pub open spec fn near<'a>(s: SpriteToDraw<'a>) -> bool {
    &&& -0x1000_0000_0000 <= s.y <= 0x1000_0000_0000
    &&& -0x10_0000 <= s.layer <= 0x10_0000
}

/// As many images as are drawn.
pub open spec fn capped(all: Seq<Drawn>) -> Seq<Drawn> {
    if all.len() <= MAX_SPRITE_TO_DRAW {
        all
    } else {
        all.take(MAX_SPRITE_TO_DRAW as int)
    }
}

/// The half-tiles looked at around a cell, in order: the cell itself, its left
/// neighbour, the half-tile down left, the right neighbour and the half-tile
/// down right. `sh` tells which half of cells is looked at first.
pub open spec fn cover_cell(x: int, y: int, sh: int, i: int) -> (int, int, int) {
    if i == 0 {
        (x, y, sh)
    } else if i == 1 {
        (x - 1, y, sh)
    } else if i == 2 {
        (if sh != 0 { x } else { x - 1 }, if sh != 0 { y + 1 } else { y }, 1 - sh)
    } else if i == 3 {
        (x + 1, y, sh)
    } else {
        (if sh != 0 { x + 1 } else { x }, if sh != 0 { y + 1 } else { y }, 1 - sh)
    }
}

/// Where covering tiles are looked for.
pub struct CoverArea {
    pub viewport: (int, int),
    /// The foot of the sprite in the world.
    pub sy: int,
    /// Which half of cells is looked at first.
    pub sh: int,
    pub x0: int,
    pub x1: int,
    pub y0: int,
    pub y1: int,
}

/// The area around a sprite of the given size.
pub open spec fn cover_area(viewport: (int, int), pos: (int, int), layer: int, width: int, height: int) -> CoverArea {
    let sx = viewport.0 + pos.0 - geometry::tdiv(layer, 2);
    let sy = viewport.1 + pos.1 - layer;
    CoverArea {
        viewport,
        sy,
        sh: if sx % 32 != 0 { 1 } else { 0 },
        x0: geometry::tdiv(sx - width / 2, 32),
        x1: geometry::tdiv(sx + width / 2, 32),
        y0: geometry::tdiv(sy - height - 15, 16),
        y1: geometry::tdiv(sy, 16),
    }
}

/// The layer of a half-tile, if it covers what stands in the area.
pub open spec fn cover_tile(m: &TileMap, area: CoverArea, cell: (int, int, int), l: int) -> Seq<Drawn> {
    let (dx, dy, dh) = cell;
    let (tx, ty) = (dx % 256, dy % 256);
    let height = if crate::map::on_map(tx, ty, dh) { crate::map::tile_height(m.tile(tx, ty, dh), l) } else { 0 };
    match m.bitmap(tx, ty, dh, l) {
        Some(frame) => if height > 0 && (dy + height) * 16 + dh * 8 >= area.sy {
            seq![
                Drawn {
                    frame,
                    x: dx * 32 + dh * 16 - 16 - area.viewport.0,
                    y: dy * 16 + dh * 8 + 7 + l + height * 8 - area.viewport.1,
                    layer: height * 8 + l,
                },
            ]
        } else {
            Seq::empty()
        },
        None => Seq::empty(),
    }
}

/// Both layers of a half-tile.
pub open spec fn cover_layers(m: &TileMap, area: CoverArea, cell: (int, int, int)) -> Seq<Drawn> {
    cover_tile(m, area, cell, 0) + cover_tile(m, area, cell, 1)
}

/// The half-tiles `from..to` around a cell.
pub open spec fn cover_around(m: &TileMap, area: CoverArea, x: int, y: int, from: int, to: int) -> Seq<Drawn>
    decreases to - from,
{
    if to <= from {
        Seq::empty()
    } else {
        cover_around(m, area, x, y, from, to - 1) + cover_layers(m, area, cover_cell(x, y, area.sh, to - 1))
    }
}

/// Only the first cell of a row looks to its left.
pub open spec fn first_around(area: CoverArea, x: int) -> int {
    if x == area.x0 {
        0
    } else {
        3
    }
}

/// The cells of a row before column `to`.
pub open spec fn cover_row(m: &TileMap, area: CoverArea, y: int, to: int) -> Seq<Drawn>
    decreases to - area.x0,
{
    if to <= area.x0 {
        Seq::empty()
    } else {
        cover_row(m, area, y, to - 1) + cover_around(m, area, to - 1, y, first_around(area, to - 1), 5)
    }
}

/// The rows before row `to`.
pub open spec fn cover_rows(m: &TileMap, area: CoverArea, to: int) -> Seq<Drawn>
    decreases to - area.y0,
{
    if to <= area.y0 {
        Seq::empty()
    } else {
        cover_rows(m, area, to - 1) + cover_row(m, area, to - 1, area.x1 + 1)
    }
}

/// The map tiles that may cover a sprite.
pub open spec fn covering_tiles(
    res: &Resources,
    viewport: (int, int),
    pos: (int, int),
    layer: int,
    frame: Seq<u8>,
) -> Seq<Drawn> {
    match res.map {
        Some(m) => {
            let area = cover_area(
                viewport,
                pos,
                layer,
                surface::declared_width(frame) as int,
                surface::declared_height(frame) as int,
            );
            cover_rows(&m, area, area.y1 + 1)
        },
        None => Seq::empty(),
    }
}

/// A sprite and the tiles that may cover it.
pub open spec fn with_cover(res: &Resources, viewport: (int, int), s: Drawn) -> Seq<Drawn> {
    seq![s] + covering_tiles(res, viewport, (s.x, s.y), s.layer, s.frame)
}

proof fn lemma_capped_push(all: Seq<Drawn>, s: Drawn)
    ensures
        capped(all + seq![s]) == if capped(all).len() >= MAX_SPRITE_TO_DRAW {
            capped(all)
        } else {
            capped(all).push(s)
        },
{
    if all.len() < MAX_SPRITE_TO_DRAW {
        assert(capped(all + seq![s]) =~= capped(all).push(s));
    } else {
        assert(capped(all + seq![s]) =~= capped(all));
    }
}

/// Queue an image; what exceeds the limit is left out.
fn add_sprite_to_draw<'a>(
    queue: &mut Vec<SpriteToDraw<'a>>,
    Ghost(all): Ghost<Seq<Drawn>>,
    frame: &'a [u8],
    x: i64,
    y: i64,
    layer: i64,
)
    requires
        near(SpriteToDraw { frame, x, y, layer }),
        placed(old(queue)@),
        drawn(old(queue)@) == capped(all),
    ensures
        placed(final(queue)@),
        drawn(final(queue)@) == capped(
            all + seq![Drawn { frame: frame@, x: x as int, y: y as int, layer: layer as int }],
        ),
{
    proof {
        lemma_capped_push(all, Drawn { frame: frame@, x: x as int, y: y as int, layer: layer as int });
        assert(drawn(queue@).len() == queue@.len());
    }
    if queue.len() >= MAX_SPRITE_TO_DRAW {
        return;
    }
    let s: SpriteToDraw<'a> = SpriteToDraw { frame, x, y, layer };
    let ghost before = queue@;
    queue.push(s);
    assert(drawn(queue@) =~= drawn(before).push(s@));
}

/// Queue the layers of a half-tile that cover a sprite.
fn add_cover_layers<'a>(
    queue: &mut Vec<SpriteToDraw<'a>>,
    Ghost(all): Ghost<Seq<Drawn>>,
    m: &'a TileMap,
    Ghost(area): Ghost<CoverArea>,
    viewport: (i32, i32),
    sy: i64,
    cell: (i64, i64, i64),
)
    requires
        m.wf(),
        placed(old(queue)@),
        drawn(old(queue)@) == capped(all),
        area.viewport == (viewport.0 as int, viewport.1 as int),
        area.sy == sy,
        -0x10_0000_0000 <= cell.0 <= 0x10_0000_0000,
        -0x10_0000_0000 <= cell.1 <= 0x10_0000_0000,
        0 <= cell.2 <= 1,
    ensures
        placed(final(queue)@),
        drawn(final(queue)@) == capped(
            all + cover_layers(m, area, (cell.0 as int, cell.1 as int, cell.2 as int)),
        ),
{
    let (dx, dy, dh): (i64, i64, i64) = cell;
    let ghost c = (dx as int, dy as int, dh as int);
    proof {
        casts::lemma_i64_as_u8(dx);
        casts::lemma_i64_as_u8(dy);
        casts::lemma_i64_as_u8(dh);
        assert(all + Seq::<Drawn>::empty() =~= all);
        assert(all + cover_tile(m, area, c, 0) + cover_tile(m, area, c, 1) =~= all + cover_layers(m, area, c));
    }
    let mut l: u8 = 0;
    while l < 2
        invariant
            m.wf(),
            l <= 2,
            c == (dx as int, dy as int, dh as int),
            dx as u8 == c.0 % 256,
            dy as u8 == c.1 % 256,
            dh as u8 == dh,
            0 <= dh <= 1,
            -0x10_0000_0000 <= dx <= 0x10_0000_0000,
            -0x10_0000_0000 <= dy <= 0x10_0000_0000,
            area.viewport == (viewport.0 as int, viewport.1 as int),
            area.sy == sy,
            all + cover_tile(m, area, c, 0) + cover_tile(m, area, c, 1) == all + cover_layers(m, area, c),
            placed(queue@),
            l == 0 ==> drawn(queue@) == capped(all),
            l == 1 ==> drawn(queue@) == capped(all + cover_tile(m, area, c, 0)),
            l == 2 ==> drawn(queue@) == capped(all + cover_layers(m, area, c)),
        decreases 2 - l,
    {
        let ghost so_far = if l == 0 { all } else { all + cover_tile(m, area, c, 0) };
        assert(so_far + Seq::<Drawn>::empty() =~= so_far);
        match m.get_tile_bitmap(dx as u8, dy as u8, dh as u8, l) {
            Some(bitmap) => {
                let height: i64 = m.get_tile_height(dx as u8, dy as u8, dh as u8, l) as i64;
                if height > 0 && (dy + height) * 16 + dh * 8 >= sy {
                    add_sprite_to_draw(
                        queue,
                        Ghost(so_far),
                        bitmap,
                        dx * 32 + dh * 16 - 16 - viewport.0 as i64,
                        dy * 16 + dh * 8 + 7 + l as i64 + height * 8 - viewport.1 as i64,
                        height * 8 + l as i64,
                    );
                }
            },
            None => {},
        }
        l = l + 1;
    }
}

/// Queue the half-tiles around a cell that cover a sprite.
fn add_cover_around<'a>(
    queue: &mut Vec<SpriteToDraw<'a>>,
    Ghost(all): Ghost<Seq<Drawn>>,
    m: &'a TileMap,
    Ghost(area): Ghost<CoverArea>,
    viewport: (i32, i32),
    sy: i64,
    sh: i64,
    x: i64,
    y: i64,
    first: usize,
)
    requires
        m.wf(),
        placed(old(queue)@),
        drawn(old(queue)@) == capped(all),
        area.viewport == (viewport.0 as int, viewport.1 as int),
        area.sy == sy,
        area.sh == sh,
        0 <= sh <= 1,
        -0x8_0000_0000 <= x <= 0x8_0000_0000,
        -0x8_0000_0000 <= y <= 0x8_0000_0000,
        first <= 5,
    ensures
        placed(final(queue)@),
        drawn(final(queue)@) == capped(all + cover_around(m, area, x as int, y as int, first as int, 5)),
{
    let mut i: usize = first;
    assert(all + cover_around(m, area, x as int, y as int, first as int, first as int) =~= all);
    while i < 5
        invariant
            m.wf(),
            first <= i <= 5,
            area.viewport == (viewport.0 as int, viewport.1 as int),
            area.sy == sy,
            area.sh == sh,
            0 <= sh <= 1,
            -0x8_0000_0000 <= x <= 0x8_0000_0000,
            -0x8_0000_0000 <= y <= 0x8_0000_0000,
            placed(queue@),
            drawn(queue@) == capped(all + cover_around(m, area, x as int, y as int, first as int, i as int)),
        decreases 5 - i,
    {
        let cell: (i64, i64, i64) = if i == 0 {
            (x, y, sh)
        } else if i == 1 {
            (x - 1, y, sh)
        } else if i == 2 {
            (if sh != 0 { x } else { x - 1 }, if sh != 0 { y + 1 } else { y }, 1 - sh)
        } else if i == 3 {
            (x + 1, y, sh)
        } else {
            (if sh != 0 { x + 1 } else { x }, if sh != 0 { y + 1 } else { y }, 1 - sh)
        };
        let ghost before = cover_around(m, area, x as int, y as int, first as int, i as int);
        let ghost here = cover_layers(m, area, cover_cell(x as int, y as int, sh as int, i as int));
        add_cover_layers(queue, Ghost(all + before), m, Ghost(area), viewport, sy, cell);
        assert(all + before + here =~= all + (before + here));
        i = i + 1;
    }
}

/// Queue the map tiles that may cover a sprite.
fn calc_cover_tiles<'a>(
    queue: &mut Vec<SpriteToDraw<'a>>,
    Ghost(all): Ghost<Seq<Drawn>>,
    res: &'a Resources,
    viewport: (i32, i32),
    pos: (i64, i64),
    layer: i64,
    frame: &[u8],
)
    requires
        res.wf(),
        placed(old(queue)@),
        drawn(old(queue)@) == capped(all),
        -0x1_0000_0000 <= pos.0 <= 0x1_0000_0000,
        -0x1_0000_0000 <= pos.1 <= 0x1_0000_0000,
        -0x10_0000 <= layer <= 0x10_0000,
    ensures
        placed(final(queue)@),
        drawn(final(queue)@) == capped(
            all + covering_tiles(
                res,
                (viewport.0 as int, viewport.1 as int),
                (pos.0 as int, pos.1 as int),
                layer as int,
                frame@,
            ),
        ),
{
    assert(all + Seq::<Drawn>::empty() =~= all);
    let m: &'a TileMap = match &res.map {
        Some(m) => m,
        None => {
            return;
        },
    };
    let width: i64 = surface::rle_width(frame) as i64;
    let height: i64 = surface::rle_height(frame) as i64;
    let sx: i64 = viewport.0 as i64 + pos.0 - layer / 2;
    let sy: i64 = viewport.1 as i64 + pos.1 - layer;
    let ghost area = cover_area(
        (viewport.0 as int, viewport.1 as int),
        (pos.0 as int, pos.1 as int),
        layer as int,
        width as int,
        height as int,
    );
    let sh: i64 = if sx % 32 != 0 {
        1
    } else {
        0
    };
    assert(sh == area.sh);
    let x0: i64 = (sx - width / 2) / 32;
    let x1: i64 = (sx + width / 2) / 32;
    let y0: i64 = (sy - height - 15) / 16;
    let y1: i64 = sy / 16;
    assert(x0 <= x1);
    assert(y0 <= y1);
    let mut y: i64 = y0;
    while y <= y1
        invariant
            m.wf(),
            x0 == area.x0,
            x1 == area.x1,
            y0 == area.y0,
            y1 == area.y1,
            sh == area.sh,
            0 <= sh <= 1,
            sy == area.sy,
            area.viewport == (viewport.0 as int, viewport.1 as int),
            -0x4_0000_0000 <= x0 <= x1 <= 0x4_0000_0000,
            -0x4_0000_0000 <= y0 <= y <= y1 + 1 <= 0x4_0000_0000,
            placed(queue@),
            drawn(queue@) == capped(all + cover_rows(m, area, y as int)),
        decreases y1 + 1 - y,
    {
        let ghost above = all + cover_rows(m, area, y as int);
        let mut x: i64 = x0;
        assert(above + cover_row(m, area, y as int, x as int) =~= above);
        while x <= x1
            invariant
                m.wf(),
                x0 == area.x0,
                x1 == area.x1,
                sh == area.sh,
                0 <= sh <= 1,
                sy == area.sy,
                area.viewport == (viewport.0 as int, viewport.1 as int),
                -0x4_0000_0000 <= x0 <= x <= x1 + 1 <= 0x4_0000_0001,
                -0x4_0000_0000 <= y <= 0x4_0000_0000,
                placed(queue@),
                drawn(queue@) == capped(above + cover_row(m, area, y as int, x as int)),
            decreases x1 + 1 - x,
        {
            let first: usize = if x == x0 {
                0
            } else {
                3
            };
            let ghost left = cover_row(m, area, y as int, x as int);
            let ghost here = cover_around(m, area, x as int, y as int, first as int, 5);
            add_cover_around(queue, Ghost(above + left), m, Ghost(area), viewport, sy, sh, x, y, first);
            assert(above + left + here =~= above + (left + here));
            x = x + 1;
        }
        proof {
            let rows = cover_rows(m, area, y as int);
            let row = cover_row(m, area, y as int, x1 + 1);
            assert(all + rows + row =~= all + (rows + row));
        }
        y = y + 1;
    }
}

/// The sprite of party member or follower `i` as it is drawn, if it is.
pub open spec fn walker_drawn(res: &Resources, g: &Globals, i: int) -> Seq<Drawn> {
    if 0 <= i < 5 && res.player_sprites@[i] is Some && surface::has_frame(
        res.player_sprites@[i]->0@,
        g.party@[i].frame as int,
    ) {
        let frame = surface::frame_bytes(res.player_sprites@[i]->0@, g.party@[i].frame as int);
        with_cover(
            res,
            (g.viewport.0 as int, g.viewport.1 as int),
            Drawn {
                frame,
                x: g.party@[i].x - surface::declared_width(frame) as int / 2,
                y: g.party@[i].y + g.layer + 10,
                layer: g.layer + 6,
            },
        )
    } else {
        Seq::empty()
    }
}

/// The first `n` members and followers as they are drawn.
pub open spec fn walkers_drawn(res: &Resources, g: &Globals, n: int) -> Seq<Drawn>
    decreases n,
{
    if n <= 0 {
        Seq::empty()
    } else {
        walkers_drawn(res, g, n - 1) + walker_drawn(res, g, n - 1)
    }
}

/// The frame that an event object shows. Walking characters have three frames
/// for four steps.
pub open spec fn shown_frame(o: EventObject) -> int {
    let step = if o.sprite_frames == 3 && o.current_frame_num == 2 {
        0
    } else if o.sprite_frames == 3 && o.current_frame_num == 3 {
        2
    } else {
        o.current_frame_num as int
    };
    o.direction * o.sprite_frames + step
}

/// Event object `i`, shown by an image, as it is drawn: not outside the
/// screen.
pub open spec fn placed_object(res: &Resources, g: &Globals, o: EventObject, frame: Seq<u8>) -> Seq<Drawn> {
    let width = surface::declared_width(frame) as int;
    let height = surface::declared_height(frame) as int;
    let x = o.x as i16 - g.viewport.0 - width / 2;
    let y = o.y as i16 - g.viewport.1 + o.layer * 8 + 9;
    let top = y - height - o.layer * 8 + 2;
    if x >= 320 || x < -width || top >= 200 || top < -height {
        Seq::empty()
    } else {
        with_cover(
            res,
            (g.viewport.0 as int, g.viewport.1 as int),
            Drawn { frame, x, y, layer: o.layer * 8 + 2 },
        )
    }
}

/// Event object `i` as it is drawn, if it is.
pub open spec fn object_drawn(res: &Resources, g: &Globals, i: int) -> Seq<Drawn> {
    let o = g.game.event_objects@[i];
    if 0 <= i < g.game.event_objects@.len() && o.state > 0 && o.vanish_time <= 0 && res.has_object_sprite(i + 1)
        && surface::has_frame(res.object_sprite(i + 1), shown_frame(o)) {
        placed_object(res, g, o, surface::frame_bytes(res.object_sprite(i + 1), shown_frame(o)))
    } else {
        Seq::empty()
    }
}

/// The event objects `from..to` as they are drawn.
pub open spec fn objects_drawn(res: &Resources, g: &Globals, from: int, to: int) -> Seq<Drawn>
    decreases to - from,
{
    if to <= from {
        Seq::empty()
    } else {
        objects_drawn(res, g, from, to - 1) + object_drawn(res, g, to - 1)
    }
}

/// The event objects of the current scene as they are drawn.
pub open spec fn scene_objects_drawn(res: &Resources, g: &Globals) -> Seq<Drawn> {
    if 1 <= g.num_scene < g.game.scenes@.len() {
        objects_drawn(res, g, g.scene_start(), g.scene_end())
    } else {
        Seq::empty()
    }
}

/// Put an image into a list ordered by foot, behind those of the same foot.
pub open spec fn put_in_order(list: Seq<Drawn>, s: Drawn) -> Seq<Drawn>
    decreases list.len(),
{
    if list.len() == 0 || list.last().y <= s.y {
        list.push(s)
    } else {
        put_in_order(list.drop_last(), s).push(list.last())
    }
}

/// Images ordered by foot; among those of the same foot the order stays.
pub open spec fn in_order(list: Seq<Drawn>) -> Seq<Drawn>
    decreases list.len(),
{
    if list.len() == 0 {
        list
    } else {
        put_in_order(in_order(list.drop_last()), list.last())
    }
}

/// The images of a scene, in the order in which they are drawn.
pub open spec fn scene_images(res: &Resources, g: &Globals) -> Seq<Drawn> {
    in_order(capped(walkers_drawn(res, g, g.walkers()) + scene_objects_drawn(res, g)))
}

/// What is behind everything else is found by position.
proof fn lemma_put_in_order(list: Seq<Drawn>, s: Drawn, k: int)
    requires
        0 <= k <= list.len(),
        k == 0 || list[k - 1].y <= s.y,
        forall|j: int| k <= j < list.len() ==> (#[trigger] list[j]).y > s.y,
    ensures
        put_in_order(list, s) == list.insert(k, s),
    decreases list.len(),
{
    if list.len() == 0 || list.last().y <= s.y {
        assert(k == list.len());
        assert(list.insert(k, s) =~= list.push(s));
    } else {
        if k == list.len() {
            assert(list[k - 1] == list.last());
        }
        let front = list.drop_last();
        assert forall|j: int| k <= j < front.len() implies (#[trigger] front[j]).y > s.y by {
            assert(front[j] == list[j]);
        }
        lemma_put_in_order(front, s, k);
        assert(front.insert(k, s).push(list.last()) =~= list.insert(k, s));
    }
}

/// Order images by foot.
fn sort_images<'a>(queue: Vec<SpriteToDraw<'a>>) -> (r: Vec<SpriteToDraw<'a>>)
    requires
        placed(queue@),
    ensures
        placed(r@),
        drawn(r@) == in_order(drawn(queue@)),
{
    let mut r: Vec<SpriteToDraw<'a>> = Vec::new();
    assert(drawn(queue@).take(0) =~= Seq::<Drawn>::empty());
    assert(drawn(r@) =~= Seq::<Drawn>::empty());
    for i in 0..queue.len()
        invariant
            placed(queue@),
            placed(r@),
            drawn(r@) == in_order(drawn(queue@).take(i as int)),
            r@.len() <= i,
    {
        let s: SpriteToDraw<'a> = queue[i];
        let mut k: usize = r.len();
        while k > 0 && r[k - 1].y > s.y
            invariant
                k <= r@.len(),
                forall|j: int| k <= j < r@.len() ==> (#[trigger] r@[j]).y > s.y,
            decreases k,
        {
            k = k - 1;
        }
        let ghost before = drawn(r@);
        proof {
            assert forall|j: int| k <= j < before.len() implies (#[trigger] before[j]).y > s@.y by {
                assert(before[j] == r@[j]@);
            }
            lemma_put_in_order(before, s@, k as int);
            let next = drawn(queue@).take(i + 1);
            assert(next.drop_last() =~= drawn(queue@).take(i as int));
            assert(next.last() == s@);
        }
        r.insert(k, s);
        assert(drawn(r@) =~= before.insert(k as int, s@));
    }
    assert(drawn(queue@).take(queue@.len() as int) =~= drawn(queue@));
    r
}

/// Queue a sprite and the tiles that may cover it.
fn add_with_cover<'a>(
    queue: &mut Vec<SpriteToDraw<'a>>,
    Ghost(all): Ghost<Seq<Drawn>>,
    res: &'a Resources,
    viewport: (i32, i32),
    s: SpriteToDraw<'a>,
)
    requires
        res.wf(),
        placed(old(queue)@),
        drawn(old(queue)@) == capped(all),
        -0x1_0000_0000 <= s.x <= 0x1_0000_0000,
        -0x1_0000_0000 <= s.y <= 0x1_0000_0000,
        -0x10_0000 <= s.layer <= 0x10_0000,
    ensures
        placed(final(queue)@),
        drawn(final(queue)@) == capped(all + with_cover(res, (viewport.0 as int, viewport.1 as int), s@)),
{
    add_sprite_to_draw(queue, Ghost(all), s.frame, s.x, s.y, s.layer);
    calc_cover_tiles(queue, Ghost(all + seq![s@]), res, viewport, (s.x, s.y), s.layer, s.frame);
    proof {
        let tiles = covering_tiles(
            res,
            (viewport.0 as int, viewport.1 as int),
            (s@.x, s@.y),
            s@.layer,
            s@.frame,
        );
        assert(all + seq![s@] + tiles =~= all + (seq![s@] + tiles));
    }
}

/// Queue party member or follower `i`.
fn add_walker<'a>(queue: &mut Vec<SpriteToDraw<'a>>, Ghost(all): Ghost<Seq<Drawn>>, res: &'a Resources, g: &Globals, i: usize)
    requires
        res.wf(),
        placed(old(queue)@),
        drawn(old(queue)@) == capped(all),
    ensures
        placed(final(queue)@),
        drawn(final(queue)@) == capped(all + walker_drawn(res, g, i as int)),
{
    assert(all + Seq::<Drawn>::empty() =~= all);
    let sprite: &'a [u8] = match res.player_sprite(i) {
        Some(sprite) => sprite,
        None => {
            return;
        },
    };
    let frame: &'a [u8] = match surface::sprite_frame(sprite, g.party[i].frame as usize) {
        Some(frame) => frame,
        None => {
            return;
        },
    };
    let width: i64 = surface::rle_width(frame) as i64;
    add_with_cover(
        queue,
        Ghost(all),
        res,
        g.viewport,
        SpriteToDraw {
            frame,
            x: g.party[i].x as i64 - width / 2,
            y: g.party[i].y as i64 + g.layer as i64 + 10,
            layer: g.layer as i64 + 6,
        },
    );
}

/// Queue event object `i`.
fn add_object<'a>(queue: &mut Vec<SpriteToDraw<'a>>, Ghost(all): Ghost<Seq<Drawn>>, res: &'a Resources, g: &Globals, i: usize)
    requires
        res.wf(),
        i < u32::MAX,
        placed(old(queue)@),
        drawn(old(queue)@) == capped(all),
    ensures
        placed(final(queue)@),
        drawn(final(queue)@) == capped(all + object_drawn(res, g, i as int)),
{
    assert(all + Seq::<Drawn>::empty() =~= all);
    if i >= g.game.event_objects.len() {
        return;
    }
    let o: EventObject = g.game.event_objects[i];
    if o.state == OBJSTATE_HIDDEN || o.vanish_time > 0 || o.state < 0 {
        return;
    }
    let sprite: &'a [u8] = match res.event_object_sprite(i + 1) {
        Some(sprite) => sprite,
        None => {
            return;
        },
    };
    let step: u16 = if o.sprite_frames == 3 && o.current_frame_num == 2 {
        0
    } else if o.sprite_frames == 3 && o.current_frame_num == 3 {
        2
    } else {
        o.current_frame_num
    };
    assert(0 <= o.direction * o.sprite_frames <= 0xffff * 0xffff) by (nonlinear_arith)
        requires
            o.direction <= 0xffff,
            o.sprite_frames <= 0xffff,
    ;
    let frame: &'a [u8] = match surface::sprite_frame(
        sprite,
        o.direction as usize * o.sprite_frames as usize + step as usize,
    ) {
        Some(frame) => frame,
        None => {
            return;
        },
    };
    let width: i64 = surface::rle_width(frame) as i64;
    let height: i64 = surface::rle_height(frame) as i64;
    let x: i64 = o.x as i16 as i64 - g.viewport.0 as i64 - width / 2;
    if x >= 320 || x < -width {
        return;
    }
    let y: i64 = o.y as i16 as i64 - g.viewport.1 as i64 + o.layer as i64 * 8 + 9;
    let top: i64 = y - height - o.layer as i64 * 8 + 2;
    if top >= 200 || top < -height {
        return;
    }
    add_with_cover(queue, Ghost(all), res, g.viewport, SpriteToDraw { frame, x, y, layer: o.layer as i64 * 8 + 2 });
}

/// The images of a scene, in the order in which they are drawn.
pub fn calc_sprites_to_draw<'a>(res: &'a Resources, g: &Globals) -> (r: Vec<SpriteToDraw<'a>>)
    requires
        res.wf(),
    ensures
        placed(r@),
        drawn(r@) == scene_images(res, g),
{
    let mut queue: Vec<SpriteToDraw<'a>> = Vec::new();
    assert(drawn(queue@) =~= Seq::<Drawn>::empty());
    let last: u32 = g.max_party_member_index as u32 + g.follower_num as u32;
    for i in 0..last + 1
        invariant
            res.wf(),
            placed(queue@),
            drawn(queue@) == capped(walkers_drawn(res, g, i as int)),
    {
        add_walker(&mut queue, Ghost(walkers_drawn(res, g, i as int)), res, g, i as usize);
    }
    let ghost walkers = walkers_drawn(res, g, g.walkers());
    assert(walkers + Seq::<Drawn>::empty() =~= walkers);
    let num_scene: usize = g.num_scene as usize;
    if num_scene >= 1 && num_scene < g.game.scenes.len() {
        let start: usize = g.game.scenes[num_scene - 1].event_object_index as usize;
        let end: usize = g.game.scenes[num_scene].event_object_index as usize;
        let mut i: usize = start;
        while i < end
            invariant
                res.wf(),
                start <= i,
                i <= end || i == start,
                end <= 0xffff,
                placed(queue@),
                drawn(queue@) == capped(walkers + objects_drawn(res, g, start as int, i as int)),
            decreases end - i,
        {
            let ghost before = objects_drawn(res, g, start as int, i as int);
            add_object(&mut queue, Ghost(walkers + before), res, g, i);
            assert(walkers + before + object_drawn(res, g, i as int) =~= walkers + (before + object_drawn(
                res,
                g,
                i as int,
            )));
            i = i + 1;
        }
    }
    sort_images(queue)
}

/// Images come from the back to the front, and ordering them loses none.
pub proof fn law_images_are_ordered(list: Seq<Drawn>)
    ensures
        in_order(list).to_multiset() == list.to_multiset(),
        forall|i: int, j: int| 0 <= i <= j < in_order(list).len() ==> in_order(list)[i].y <= in_order(list)[j].y,
    decreases list.len(),
{
    if list.len() > 0 {
        let front = list.drop_last();
        law_images_are_ordered(front);
        lemma_put_keeps_order(in_order(front), list.last());
        list.to_multiset_ensures();
        front.to_multiset_ensures();
        assert(list =~= front.push(list.last()));
    }
}

proof fn lemma_put_keeps_order(list: Seq<Drawn>, s: Drawn)
    requires
        forall|i: int, j: int| 0 <= i <= j < list.len() ==> list[i].y <= list[j].y,
    ensures
        put_in_order(list, s).to_multiset() == list.to_multiset().insert(s),
        put_in_order(list, s).len() == list.len() + 1,
        forall|i: int, j: int|
            0 <= i <= j < list.len() + 1 ==> put_in_order(list, s)[i].y <= put_in_order(list, s)[j].y,
        list.len() > 0 && list.last().y > s.y ==> put_in_order(list, s).last() == list.last(),
        list.len() > 0 && list.last().y <= s.y ==> put_in_order(list, s).last() == s,
        list.len() == 0 ==> put_in_order(list, s).last() == s,
    decreases list.len(),
{
    list.to_multiset_ensures();
    if list.len() == 0 || list.last().y <= s.y {
    } else {
        let front = list.drop_last();
        front.to_multiset_ensures();
        lemma_put_keeps_order(front, s);
        put_in_order(front, s).to_multiset_ensures();
        assert(list =~= front.push(list.last()));
        let r = put_in_order(front, s);
        assert(put_in_order(list, s) == r.push(list.last()));
        assert(r.last().y <= list.last().y);
        assert(list.to_multiset() =~= front.to_multiset().insert(list.last()));
        assert(r.push(list.last()).to_multiset() =~= list.to_multiset().insert(s));
    }
}

/// An image to put on the screen, by its upper left corner.
#[derive(Clone, Copy)]
pub struct Blit<'a> {
    pub frame: &'a [u8],
    pub x: i64,
    pub y: i64,
}

impl Engine {
    /// The images to put on the screen over the map, in order.
    pub fn scene_draw_sprites(&self) -> (r: Vec<Blit<'_>>)
        requires
            self.wf(),
        ensures
            r@.len() == scene_images(&self.res, &self.globals).len(),
            forall|i: int|
                0 <= i < r@.len() ==> {
                    let s = scene_images(&self.res, &self.globals)[i];
                    &&& (#[trigger] r@[i]).frame@ == s.frame
                    &&& r@[i].x == s.x
                    &&& r@[i].y == s.y - surface::declared_height(s.frame) - s.layer
                },
    {
        let queue: Vec<SpriteToDraw<'_>> = calc_sprites_to_draw(&self.res, &self.globals);
        let mut r: Vec<Blit<'_>> = Vec::new();
        for i in 0..queue.len()
            invariant
                placed(queue@),
                drawn(queue@) == scene_images(&self.res, &self.globals),
                r@.len() == i,
                forall|k: int|
                    0 <= k < i ==> {
                        let s = scene_images(&self.res, &self.globals)[k];
                        &&& (#[trigger] r@[k]).frame@ == s.frame
                        &&& r@[k].x == s.x
                        &&& r@[k].y == s.y - surface::declared_height(s.frame) - s.layer
                    },
        {
            let s: SpriteToDraw<'_> = queue[i];
            assert(drawn(queue@)[i as int] == s@);
            assert(near(queue@[i as int]));
            r.push(Blit { frame: s.frame, x: s.x, y: s.y - surface::rle_height(s.frame) as i64 - s.layer });
        }
        r
    }
}

/// Images with the same foot stay in the order in which they came.
pub proof fn law_order_is_stable(list: Seq<Drawn>, y: int)
    ensures
        in_order(list).filter(|d: Drawn| d.y == y) == list.filter(|d: Drawn| d.y == y),
    decreases list.len(),
{
    reveal(Seq::filter);
    if list.len() > 0 {
        let front = list.drop_last();
        law_order_is_stable(front, y);
        law_images_are_ordered(front);
        lemma_put_is_stable(in_order(front), list.last(), y);
    }
}

proof fn lemma_put_is_stable(list: Seq<Drawn>, s: Drawn, y: int)
    requires
        forall|i: int, j: int| 0 <= i <= j < list.len() ==> list[i].y <= list[j].y,
    ensures
        put_in_order(list, s).filter(|d: Drawn| d.y == y) == if s.y == y {
            list.filter(|d: Drawn| d.y == y).push(s)
        } else {
            list.filter(|d: Drawn| d.y == y)
        },
    decreases list.len(),
{
    reveal(Seq::filter);
    let same = |d: Drawn| d.y == y;
    if list.len() == 0 || list.last().y <= s.y {
        assert(list.push(s).drop_last() =~= list);
        assert(list.push(s).last() == s);
    } else {
        let front = list.drop_last();
        let last = list.last();
        lemma_put_is_stable(front, s, y);
        let put = put_in_order(front, s);
        assert(put.push(last).drop_last() =~= put);
        assert(put.push(last).last() == last);
        if last.y == y && s.y != y {
            assert(put_in_order(list, s).filter(same) =~= list.filter(same));
        }
        if s.y == y {
            assert(last.y != y);
        }
    }
}

/// Which image an event object shows: those of a direction stand together. A
/// walking character with three images shows the first, the second, the first
/// and the third of them in turn; others show the one of their number.
pub proof fn law_images_go_by_direction(o: EventObject)
    requires
        o.direction < 4,
    ensures
        o.sprite_frames == 3 && o.current_frame_num < 4 ==> shown_frame(o) == 3 * o.direction + seq![0int, 1, 0, 2][o.current_frame_num as int],
        o.sprite_frames == 4 ==> shown_frame(o) == 4 * o.direction + o.current_frame_num,
        o.direction == 0 && o.sprite_frames != 3 ==> shown_frame(o) == o.current_frame_num,
{
}

/// An event object is drawn only if it is there and not about to return; its
/// image stands with its middle over its place and its foot 7 below it, in
/// front of what lies 8 lower per layer.
pub proof fn law_objects_stand_on_their_place(res: &Resources, g: &Globals, i: int)
    requires
        object_drawn(res, g, i).len() > 0,
        g.game.event_objects@[i].x < 0x8000,
        g.game.event_objects@[i].y < 0x8000,
    ensures
        ({
            let o = g.game.event_objects@[i];
            let d = object_drawn(res, g, i)[0];
            let w = surface::declared_width(d.frame) as int;
            let h = surface::declared_height(d.frame) as int;
            &&& o.state > 0
            &&& o.vanish_time <= 0
            &&& d.frame == surface::frame_bytes(res.object_sprite(i + 1), shown_frame(o))
            &&& d.x + w / 2 + g.viewport.0 == o.x
            &&& d.layer == 8 * o.layer + 2
            &&& d.y - d.layer + g.viewport.1 == o.y + 7
            &&& -w <= d.x < 320
            &&& 0 <= d.y - d.layer + 4
            &&& d.y - d.layer + 4 - h < 200
        }),
{
    let o = g.game.event_objects@[i];
    crate::casts::lemma_u16_as_i16(o.x);
    crate::casts::lemma_u16_as_i16(o.y);
    let frame = surface::frame_bytes(res.object_sprite(i + 1), shown_frame(o));
    let y = o.y as i16 - g.viewport.1 + o.layer * 8 + 9;
    assert(object_drawn(res, g, i) == placed_object(res, g, o, frame));
}

/// Event objects that are not there, or about to return, are not drawn.
pub proof fn law_absent_objects_are_not_drawn(res: &Resources, g: &Globals, i: int)
    requires
        g.game.event_objects@[i].state <= 0 || g.game.event_objects@[i].vanish_time > 0,
    ensures
        object_drawn(res, g, i).len() == 0,
{
}

/// A member of the party stands with the middle of the image over its place and
/// its foot 4 below it, in front by the layer of the party and 6 more.
pub proof fn law_walkers_stand_on_their_place(res: &Resources, g: &Globals, i: int)
    requires
        walker_drawn(res, g, i).len() > 0,
    ensures
        ({
            let d = walker_drawn(res, g, i)[0];
            &&& d.frame == surface::frame_bytes(res.player_sprites@[i]->0@, g.party@[i].frame as int)
            &&& d.x + surface::declared_width(d.frame) as int / 2 == g.party@[i].x
            &&& d.layer == g.layer + 6
            &&& d.y - d.layer == g.party@[i].y + 4
        }),
{
}

/// A tile that covers is raised, reaches the foot of what stands there or goes
/// below it, and is drawn where the map has it.
pub proof fn law_covering_tiles_are_raised(m: &TileMap, area: CoverArea, cell: (int, int, int), l: int)
    requires
        cover_tile(m, area, cell, l).len() > 0,
        0 <= cell.0 < 64,
        0 <= cell.1 < 128,
        cell.2 == 0 || cell.2 == 1,
    ensures
        ({
            let d = cover_tile(m, area, cell, l)[0];
            let height = crate::map::tile_height(m.tile(cell.0, cell.1, cell.2), l);
            &&& cover_tile(m, area, cell, l).len() == 1
            &&& height >= 1
            &&& 16 * (cell.1 + height) + 8 * cell.2 >= area.sy
            &&& m.bitmap(cell.0, cell.1, cell.2, l) == Some(d.frame)
            &&& d.x + area.viewport.0 == 32 * cell.0 + 16 * cell.2 - 16
            &&& d.y - d.layer + area.viewport.1 == 16 * cell.1 + 8 * cell.2 + 7
            &&& d.layer == 8 * height + l
        }),
{
}

/// Covering tiles are looked for below the whole width of a sprite, and from
/// its top (and most of a tile above) to its foot.
pub proof fn law_cover_is_looked_for_all_over(viewport: (int, int), pos: (int, int), layer: int, width: int, height: int)
    requires
        0 <= width,
        0 <= height,
        0 <= layer,
        viewport.0 + pos.0 - layer / 2 - width / 2 >= 0,
        viewport.1 + pos.1 - layer - height - 15 >= 0,
    ensures
        ({
            let a = cover_area(viewport, pos, layer, width, height);
            let left = viewport.0 + pos.0 - layer / 2 - width / 2;
            let right = viewport.0 + pos.0 - layer / 2 + width / 2;
            let foot = viewport.1 + pos.1 - layer;
            &&& a.sy == foot
            &&& 32 * a.x0 <= left < 32 * a.x0 + 32
            &&& 32 * a.x1 <= right < 32 * a.x1 + 32
            &&& 16 * a.y0 <= foot - height - 15 < 16 * a.y0 + 16
            &&& 16 * a.y1 <= foot < 16 * a.y1 + 16
            &&& a.sh == 0 <==> (viewport.0 + pos.0 - layer / 2) % 32 == 0
        }),
{
}

/// Around a cell, the half-tiles beside it and those below, between it and its
/// neighbours, are looked at.
pub proof fn law_cover_looks_around(x: int, y: int, sh: int)
    requires
        sh == 0 || sh == 1,
    ensures
        cover_cell(x, y, sh, 0) == (x, y, sh),
        cover_cell(x, y, sh, 1) == (x - 1, y, sh),
        cover_cell(x, y, sh, 3) == (x + 1, y, sh),
        ({
            let at = |c: (int, int, int)| (32 * c.0 + 16 * c.2, 16 * c.1 + 8 * c.2);
            let (px, py) = at((x, y, sh));
            &&& at(cover_cell(x, y, sh, 2)) == (px - 16, py + 8)
            &&& at(cover_cell(x, y, sh, 4)) == (px + 16, py + 8)
        }),
{
}

} // verus!
