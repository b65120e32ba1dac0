//! Rectangles in pixel space, the cell grid, and the resolution of a frame
//! index to the rectangle it occupies on a sheet.

use vstd::prelude::*;

verus! {

/// Edge length of one map cell, in pixels.
pub const CELL: i64 = 16;

/// The display zoom as a fraction: one map pixel covers `ZOOM_NUM / ZOOM_DEN`
/// window pixels.
pub const ZOOM_NUM: u32 = 3;

/// The denominator of the display zoom.
pub const ZOOM_DEN: u32 = 2;

/// A factor by which what is drawn is scaled, as a fraction.
#[derive(Clone, Copy, Debug, PartialEq, Eq, Structural)]
pub struct Zoom {
    pub num: u32,
    pub den: u32,
}

/// The display zoom.
pub open spec fn display_zoom_spec() -> Zoom {
    Zoom { num: ZOOM_NUM, den: ZOOM_DEN }
}

/// Gives the display zoom.
#[verifier::when_used_as_spec(display_zoom_spec)]
pub fn display_zoom() -> (zoom: Zoom)
    ensures
        zoom == display_zoom_spec(),
{
    Zoom { num: ZOOM_NUM, den: ZOOM_DEN }
}

/// An axis-aligned rectangle in pixels. A negative width marks a region that
/// is sampled mirrored: `x` is then its right edge.
#[derive(Clone, Copy, Debug, PartialEq, Eq, Structural)]
pub struct Rect {
    pub x: i64,
    pub y: i64,
    pub w: i64,
    pub h: i64,
}

/// What to sample from a sheet and where to put it on the map, before the
/// display zoom is applied.
#[derive(Clone, Copy, Debug, PartialEq, Eq, Structural)]
pub struct Image {
    pub src_rect: Rect,
    pub rect: Rect,
}

/// Integer division that rounds towards zero, as machine division does.
pub open spec fn trunc_div(a: int, d: int) -> int
    recommends
        d > 0,
{
    if a >= 0 {
        a / d
    } else {
        -((-a) / d)
    }
}

/// The sheet rectangle of frame `index` on a sheet that is `num_h_tiles`
/// frames wide, `index_y_offset` rows further down, mirrored if `flip_h`.
pub open spec fn source_rect(
    num_h_tiles: u32,
    tile_size: (u16, u16),
    index: u32,
    index_y_offset: u32,
    flip_h: bool,
) -> Rect
    recommends
        num_h_tiles > 0,
{
    let src_x = (index as int % num_h_tiles as int) * tile_size.0 as int;
    let src_y = (index as int / num_h_tiles as int + index_y_offset as int) * tile_size.1 as int;
    if flip_h {
        Rect {
            x: (src_x + tile_size.0) as i64,
            y: src_y as i64,
            w: (-(tile_size.0 as int)) as i64,
            h: tile_size.1 as i64,
        }
    } else {
        Rect { x: src_x as i64, y: src_y as i64, w: tile_size.0 as i64, h: tile_size.1 as i64 }
    }
}

/// Where a frame of `tile_size` lands for map cell `pos`, shifted by the
/// sheet's own `draw_offset` and the `runtime_offset` of whoever carries it,
/// seen from a viewport whose top-left pixel is `view`.
pub open spec fn dest_rect(
    tile_size: (u16, u16),
    pos: (i32, i32),
    draw_offset: (i32, i32),
    runtime_offset: (i32, i32),
    view: (i32, i32),
) -> Rect {
    Rect {
        x: (pos.0 * CELL + draw_offset.0 + runtime_offset.0 - view.0) as i64,
        y: (pos.1 * CELL + draw_offset.1 + runtime_offset.1 - view.1) as i64,
        w: tile_size.0 as i64,
        h: tile_size.1 as i64,
    }
}

/// The coordinates of a source rectangle always fit: the left edge stays
/// below 2^48 and the top edge below 2^49.
pub proof fn lemma_source_rect_bounds(
    num_h_tiles: u32,
    tile_size: (u16, u16),
    index: u32,
    index_y_offset: u32,
)
    requires
        num_h_tiles > 0,
    ensures
        0 <= (index as int % num_h_tiles as int) * tile_size.0 as int,
        (index as int % num_h_tiles as int) * tile_size.0 as int + tile_size.0
            <= 0x1_0000_0000 * 0xffff,
        0 <= (index as int / num_h_tiles as int + index_y_offset as int) * tile_size.1 as int
            <= 0x2_0000_0000 * 0xffff,
{
    let col = index as int % num_h_tiles as int;
    let row = index as int / num_h_tiles as int + index_y_offset as int;
    let w = tile_size.0 as int;
    let h = tile_size.1 as int;
    assert(0 <= col < num_h_tiles);
    assert(0 <= index as int / num_h_tiles as int <= index) by (nonlinear_arith)
        requires
            num_h_tiles > 0,
            index >= 0,
    ;
    assert(0 <= col * w && col * w + w <= 0x1_0000_0000 * 0xffff) by (nonlinear_arith)
        requires
            0 <= col < 0xffff_ffff,
            0 <= w <= 0xffff,
    ;
    assert(0 <= row * h <= 0x2_0000_0000 * 0xffff) by (nonlinear_arith)
        requires
            0 <= row <= 0x2_0000_0000,
            0 <= h <= 0xffff,
    ;
}

/// Resolves a frame index to its source rectangle and places it on the map.
///
/// `index` counts frames row by row on a sheet `num_h_tiles` frames wide;
/// `index_y_offset` selects a block of rows further down.
pub fn image_for_tile_reference(
    num_h_tiles: u32,
    tile_size: (u16, u16),
    index: u32,
    index_y_offset: u32,
    pos: (i32, i32),
    draw_offset: (i32, i32),
    runtime_offset: (i32, i32),
    view: (i32, i32),
    flip_h: bool,
) -> (image: Image)
    requires
        num_h_tiles > 0,
    ensures
        image == resolved_image(
            num_h_tiles,
            tile_size,
            index,
            index_y_offset,
            pos,
            draw_offset,
            runtime_offset,
            view,
            flip_h,
        ),
        image.src_rect == source_rect(num_h_tiles, tile_size, index, index_y_offset, flip_h),
        image.rect == dest_rect(tile_size, pos, draw_offset, runtime_offset, view),
{
    proof {
        lemma_source_rect_bounds(num_h_tiles, tile_size, index, index_y_offset);
    }
    let tile_w: i64 = tile_size.0 as i64;
    let tile_h: i64 = tile_size.1 as i64;
    let src_x: i64 = (index % num_h_tiles) as i64 * tile_w;
    let src_y: i64 = ((index / num_h_tiles) as i64 + index_y_offset as i64) * tile_h;
    let src_rect = if flip_h {
        Rect { x: src_x + tile_w, y: src_y, w: -tile_w, h: tile_h }
    } else {
        Rect { x: src_x, y: src_y, w: tile_w, h: tile_h }
    };
    let rect = Rect {
        x: pos.0 as i64 * CELL + draw_offset.0 as i64 + runtime_offset.0 as i64 - view.0 as i64,
        y: pos.1 as i64 * CELL + draw_offset.1 as i64 + runtime_offset.1 as i64 - view.1 as i64,
        w: tile_w,
        h: tile_h,
    };
    Image { src_rect, rect }
}

/// The image that `image_for_tile_reference` resolves its inputs to.
pub open spec fn resolved_image(
    num_h_tiles: u32,
    tile_size: (u16, u16),
    index: u32,
    index_y_offset: u32,
    pos: (i32, i32),
    draw_offset: (i32, i32),
    runtime_offset: (i32, i32),
    view: (i32, i32),
    flip_h: bool,
) -> Image {
    Image {
        src_rect: source_rect(num_h_tiles, tile_size, index, index_y_offset, flip_h),
        rect: dest_rect(tile_size, pos, draw_offset, runtime_offset, view),
    }
}

/// Resolution is a function of its inputs and of nothing else: resolving
/// equal inputs, whenever and however often, gives equal images.
pub proof fn lemma_resolution_is_deterministic(
    a: (u32, (u16, u16), u32, u32, (i32, i32), (i32, i32), (i32, i32), (i32, i32), bool),
    b: (u32, (u16, u16), u32, u32, (i32, i32), (i32, i32), (i32, i32), (i32, i32), bool),
)
    requires
        a == b,
    ensures
        resolved_image(a.0, a.1, a.2, a.3, a.4, a.5, a.6, a.7, a.8) == resolved_image(
            b.0,
            b.1,
            b.2,
            b.3,
            b.4,
            b.5,
            b.6,
            b.7,
            b.8,
        ),
{
}

/// A mirrored rectangle covers the same pixels as the plain one: it starts at
/// the plain one's right edge and runs back by the same width.
pub proof fn lemma_flip_covers_same_region(
    num_h_tiles: u32,
    tile_size: (u16, u16),
    index: u32,
    index_y_offset: u32,
)
    requires
        num_h_tiles > 0,
    ensures
        ({
            let plain = source_rect(num_h_tiles, tile_size, index, index_y_offset, false);
            let mirrored = source_rect(num_h_tiles, tile_size, index, index_y_offset, true);
            &&& mirrored.x == plain.x + plain.w
            &&& mirrored.x + mirrored.w == plain.x
            &&& mirrored.y == plain.y
            &&& mirrored.h == plain.h
        }),
{
    lemma_source_rect_bounds(num_h_tiles, tile_size, index, index_y_offset);
}

} // verus!
