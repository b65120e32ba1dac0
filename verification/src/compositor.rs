//! Composing a frame: the draw operations of the player, of the other
//! characters and of the map's layers, in the order in which they are to be
//! painted.
//!
//! Depth is faked by painting order. All layers but one are painted tile
//! after tile. In the one layer that the player stands among, the player is
//! painted in the middle of the sweep, just before the first tile that is
//! one row below it and not to its left: what was painted earlier is behind
//! the player, what comes later is in front.

use vstd::prelude::*;
use crate::camera::Camera;
use crate::character::Character;
use crate::clock::{elapsed, elapsed_spec, WALK_FRAMES};
use crate::direction::Direction;
use crate::geometry::{dest_rect, image_for_tile_reference, source_rect, trunc_div, Image, CELL};
use crate::player::{Player, SUBPIXEL};
use crate::sprite::{image_for_texture, sprite_image, Animation, DrawOp, SpriteFrameSet};
use crate::tilemap::{paths_id, Layer, Tile, TileMap, TileSheet};

verus! {

/// The operation that draws one part of a character, or nothing where the
/// part has no art for the direction.
#[verifier::opaque]
pub open spec fn part_ops(
    part: SpriteFrameSet,
    pos: (i32, i32),
    view: (i32, i32),
    offset: (i32, i32),
    anim: Option<Animation>,
    dir: Direction,
) -> Seq<DrawOp> {
    match sprite_image(part, pos, view, offset, anim, dir) {
        Some(image) => seq![DrawOp::at_display_zoom_spec(part.texture, image)],
        None => Seq::empty(),
    }
}

/// The operations that draw the player, back to front: body, legs, hair,
/// hat, arms, trousers, shirt, and the facial accessory unless the player
/// faces up. Body, legs, arms and trousers step through the walk cycle; the
/// other parts stay on their frame.
pub open spec fn player_ops(player: Player, view: (i32, i32), ticks: u32) -> Seq<DrawOp> {
    let pos = (player.x, player.y);
    let offset = player.pixel_offset_spec();
    let walk = Some((elapsed_spec(ticks, player.last_move_start), WALK_FRAMES));
    let dir = player.dir;
    part_ops(player.base, pos, view, offset, walk, dir) + part_ops(
        player.bottom,
        pos,
        view,
        offset,
        walk,
        dir,
    ) + part_ops(player.hairstyle, pos, view, offset, None, dir) + (match player.hat {
        Some(hat) => part_ops(hat, pos, view, offset, None, dir),
        None => Seq::empty(),
    }) + part_ops(player.arms, pos, view, offset, walk, dir) + part_ops(
        player.pants,
        pos,
        view,
        offset,
        walk,
        dir,
    ) + part_ops(player.shirt, pos, view, offset, None, dir) + (if dir != Direction::Up {
        part_ops(player.accessory, pos, view, offset, None, dir)
    } else {
        Seq::empty()
    })
}

/// Appends the operation that draws one part of a character to `ops`.
fn draw_part(
    part: &SpriteFrameSet,
    pos: (i32, i32),
    view: (i32, i32),
    offset: (i32, i32),
    anim: Option<Animation>,
    dir: Direction,
    ops: &mut Vec<DrawOp>,
)
    requires
        part.wf(),
        part.can_show(anim),
    ensures
        final(ops)@ == old(ops)@ + part_ops(*part, pos, view, offset, anim, dir),
{
    reveal(part_ops);
    match image_for_texture(part, pos, view, offset, anim, dir) {
        Some(image) => {
            ops.push(DrawOp::at_display_zoom(part.texture, image));
            assert(ops@ == old(ops)@ + seq![DrawOp::at_display_zoom_spec(part.texture, image)]);
        },
        None => {
            assert(ops@ == old(ops)@ + Seq::<DrawOp>::empty());
        },
    }
}

/// Appends the operations that draw the player to `ops`.
pub fn draw_player(player: &Player, ops: &mut Vec<DrawOp>, view: (i32, i32), ticks: u32)
    requires
        player.wf(),
        player.last_move_start matches Some(start) ==> start <= ticks,
    ensures
        final(ops)@ == old(ops)@ + player_ops(*player, view, ticks),
{
    let pos = (player.x, player.y);
    let offset = player.pixel_offset();
    let player_ticks = elapsed(ticks, player.last_move_start);
    let three_frame = Some((player_ticks, WALK_FRAMES));
    let dir = player.dir;
    proof {
        crate::clock::lemma_frame_in_cycle(player_ticks, crate::clock::WALK_PERIOD_MS, WALK_FRAMES);
    }
    let ghost before = ops@;
    let ghost body = part_ops(player.base, pos, view, offset, three_frame, dir);
    let ghost legs = part_ops(player.bottom, pos, view, offset, three_frame, dir);
    let ghost hair = part_ops(player.hairstyle, pos, view, offset, None, dir);
    let ghost hat = match player.hat {
        Some(hat) => part_ops(hat, pos, view, offset, None, dir),
        None => Seq::empty(),
    };
    let ghost arms = part_ops(player.arms, pos, view, offset, three_frame, dir);
    let ghost pants = part_ops(player.pants, pos, view, offset, three_frame, dir);
    let ghost shirt = part_ops(player.shirt, pos, view, offset, None, dir);
    let ghost accessory = if dir != Direction::Up {
        part_ops(player.accessory, pos, view, offset, None, dir)
    } else {
        Seq::empty()
    };

    draw_part(&player.base, pos, view, offset, three_frame, dir, ops);
    draw_part(&player.bottom, pos, view, offset, three_frame, dir, ops);
    draw_part(&player.hairstyle, pos, view, offset, None, dir, ops);
    if let Some(hat) = &player.hat {
        draw_part(hat, pos, view, offset, None, dir, ops);
    }
    assert(ops@ == before + body + legs + hair + hat);
    draw_part(&player.arms, pos, view, offset, three_frame, dir, ops);
    draw_part(&player.pants, pos, view, offset, three_frame, dir, ops);
    draw_part(&player.shirt, pos, view, offset, None, dir, ops);
    if dir != Direction::Up {
        draw_part(&player.accessory, pos, view, offset, None, dir, ops);
    }
    assert(ops@ == before + body + legs + hair + hat + arms + pants + shirt + accessory);
    assert(before + body + legs + hair + hat + arms + pants + shirt + accessory == before + (body
        + legs + hair + hat + arms + pants + shirt + accessory));
}

impl Character {
    /// The character's sprite is usable.
    pub open spec fn wf(&self) -> bool {
        self.texture.wf()
    }

    /// Whether the values are those of a usable character.
    pub fn check(&self) -> (ok: bool)
        ensures
            ok == self.wf(),
    {
        self.texture.check()
    }

    /// The offset within the cell in whole pixels, rounded towards the
    /// centre.
    pub open spec fn pixel_offset_spec(&self) -> (i32, i32) {
        (
            trunc_div(self.offset_x as int, SUBPIXEL as int) as i32,
            trunc_div(self.offset_y as int, SUBPIXEL as int) as i32,
        )
    }
}

/// The operation that draws a character: its one part, on its frame at rest.
/// A character at a negative cell is off the map and is not drawn.
pub open spec fn character_ops(character: Character, view: (i32, i32)) -> Seq<DrawOp> {
    if character.x < 0 || character.y < 0 {
        Seq::empty()
    } else {
        part_ops(
            character.texture,
            (character.x, character.y),
            view,
            character.pixel_offset_spec(),
            None,
            character.dir,
        )
    }
}

/// Appends the operation that draws a character to `ops`.
pub fn draw_character(character: &Character, ops: &mut Vec<DrawOp>, view: (i32, i32))
    requires
        character.wf(),
    ensures
        final(ops)@ == old(ops)@ + character_ops(*character, view),
{
    if character.x < 0 || character.y < 0 {
        assert(ops@ == old(ops)@ + Seq::<DrawOp>::empty());
        return ;
    }
    let offset = (character.offset_x / SUBPIXEL, character.offset_y / SUBPIXEL);
    draw_part(
        &character.texture,
        (character.x, character.y),
        view,
        offset,
        None,
        character.dir,
        ops,
    );
}

/// The operations that draw the first `n` of the characters, in their order.
pub open spec fn characters_ops(characters: Seq<Character>, n: int, view: (i32, i32)) -> Seq<DrawOp>
    decreases n,
{
    if n <= 0 {
        Seq::empty()
    } else {
        characters_ops(characters, n - 1, view) + character_ops(characters[n - 1], view)
    }
}

/// The image of a tile of `sheet` at cell `pos`: frame `index` of the sheet,
/// placed on the cell as it is.
pub open spec fn tile_image(sheet: TileSheet, index: u32, pos: (i32, i32), view: (i32, i32)) -> Image {
    Image {
        src_rect: source_rect(sheet.cols, (sheet.tile_w, sheet.tile_h), index, 0, false),
        rect: dest_rect((sheet.tile_w, sheet.tile_h), pos, (0, 0), (0, 0), view),
    }
}

/// Resolves the image of a tile.
pub fn image_for_tile(sheet: &TileSheet, index: u32, pos: (i32, i32), view: (i32, i32)) -> (image:
    Image)
    requires
        sheet.cols > 0,
    ensures
        image == tile_image(*sheet, index, pos, view),
{
    image_for_tile_reference(
        sheet.cols,
        (sheet.tile_w, sheet.tile_h),
        index,
        0,
        pos,
        (0, 0),
        (0, 0),
        view,
        false,
    )
}

/// The last column and the last row of cells that the view reaches: the
/// cell of the view's corner plus the cells that the window spans.
pub open spec fn view_reach_spec(camera: Camera) -> (i64, i64) {
    (
        (camera.view_w as int / CELL as int + trunc_div(camera.view_x as int, CELL as int)) as i64,
        (camera.view_h as int / CELL as int + trunc_div(camera.view_y as int, CELL as int)) as i64,
    )
}

/// Works out the last column and row that the view reaches.
#[verifier::when_used_as_spec(view_reach_spec)]
pub fn view_reach(camera: Camera) -> (reach: (i64, i64))
    ensures
        reach == view_reach_spec(camera),
{
    (
        camera.view_w as i64 / CELL + camera.view_x as i64 / CELL,
        camera.view_h as i64 / CELL + camera.view_y as i64 / CELL,
    )
}

/// Whether the cell `(x, y)` lies outside the cells that the view covers and
/// need not be drawn.
pub open spec fn culled_spec(x: i32, y: i32, camera: Camera) -> bool {
    ||| x < trunc_div(camera.view_x as int, CELL as int)
    ||| x > view_reach_spec(camera).0
    ||| y < trunc_div(camera.view_y as int, CELL as int)
    ||| y > view_reach_spec(camera).1
}

/// Tests whether a cell lies outside the view.
#[verifier::when_used_as_spec(culled_spec)]
pub fn culled(x: i32, y: i32, camera: Camera) -> (out: bool)
    ensures
        out == culled_spec(x, y, camera),
{
    let reach = view_reach(camera);
    (x as i64) < camera.view_x as i64 / CELL || x as i64 > reach.0 || (y as i64)
        < camera.view_y as i64 / CELL || y as i64 > reach.1
}

/// Whether the player is painted just before tile `i` of the sweep: the tile
/// is one row below the player and not to its left, and the tile swept just
/// before it was to the player's left.
pub open spec fn interleaves(tiles: Seq<Tile>, i: int, player: Option<Player>) -> bool {
    &&& player matches Some(p)
    &&& 0 < i < tiles.len()
    &&& tiles[i].y == p.y + 1
    &&& tiles[i].x >= p.x
    &&& tiles[i - 1].x < p.x
}

/// The operation that draws tile `i`, if the view reaches it.
pub open spec fn tile_draw(
    tiles: Seq<Tile>,
    i: int,
    tilesheets: Seq<TileSheet>,
    camera: Camera,
) -> Seq<DrawOp> {
    let tile = tiles[i];
    if culled_spec(tile.x, tile.y, camera) {
        Seq::empty()
    } else {
        seq![
            DrawOp::at_display_zoom_spec(
                tile.texture,
                tile_image(
                    tilesheets[tile.sheet as int],
                    tile.index,
                    (tile.x, tile.y),
                    (camera.view_x, camera.view_y),
                ),
            ),
        ]
    }
}

/// What the sweep paints when it comes to tile `i`: the player first, if it
/// goes here, and then the tile. Whether the player goes here does not depend
/// on what the view reaches.
pub open spec fn tile_ops(
    tiles: Seq<Tile>,
    i: int,
    tilesheets: Seq<TileSheet>,
    camera: Camera,
    ticks: u32,
    player: Option<Player>,
) -> Seq<DrawOp> {
    (if interleaves(tiles, i, player) {
        player_ops(player.unwrap(), (camera.view_x, camera.view_y), ticks)
    } else {
        Seq::empty()
    }) + tile_draw(tiles, i, tilesheets, camera)
}

/// What the sweep has painted when it has passed the first `n` tiles.
pub open spec fn sweep_ops(
    tiles: Seq<Tile>,
    n: int,
    tilesheets: Seq<TileSheet>,
    camera: Camera,
    ticks: u32,
    player: Option<Player>,
) -> Seq<DrawOp>
    decreases n,
{
    if n <= 0 {
        Seq::empty()
    } else {
        sweep_ops(tiles, n - 1, tilesheets, camera, ticks, player) + tile_ops(
            tiles,
            n - 1,
            tilesheets,
            camera,
            ticks,
            player,
        )
    }
}

/// The operations that draw a layer: the sweep over all its tiles, or
/// nothing if the layer is not shown.
pub open spec fn layer_ops(
    layer: Layer,
    tilesheets: Seq<TileSheet>,
    camera: Camera,
    ticks: u32,
    player: Option<Player>,
) -> Seq<DrawOp> {
    if layer.shown() {
        sweep_ops(layer.tiles@, layer.tiles.len() as int, tilesheets, camera, ticks, player)
    } else {
        Seq::empty()
    }
}

/// Appends the operations that draw a layer to `ops`, the player's among
/// them if a player is given.
pub fn draw_layer(
    layer: &Layer,
    tilesheets: &Vec<TileSheet>,
    ops: &mut Vec<DrawOp>,
    ticks: u32,
    camera: Camera,
    player: Option<&Player>,
)
    requires
        layer.drawable_from(tilesheets@),
        player matches Some(p) ==> p.wf() && (p.last_move_start matches Some(start) ==> start
            <= ticks),
    ensures
        final(ops)@ == old(ops)@ + layer_ops(
            *layer,
            tilesheets@,
            camera,
            ticks,
            match player {
                Some(p) => Some(*p),
                None => None,
            },
        ),
{
    let ghost whom: Option<Player> = match player {
        Some(p) => Some(*p),
        None => None,
    };
    let paths = paths_id();
    if !layer.visible || layer.id == paths {
        assert(ops@ == old(ops)@ + Seq::<DrawOp>::empty());
        return ;
    }
    let view = (camera.view_x, camera.view_y);
    let mut last_x: Option<i32> = None;
    let mut i: usize = 0;
    assert(ops@ == old(ops)@ + sweep_ops(layer.tiles@, 0, tilesheets@, camera, ticks, whom));
    while i < layer.tiles.len()
        invariant
            i <= layer.tiles.len(),
            layer.drawable_from(tilesheets@),
            whom == match player {
                Some(p) => Some(*p),
                None => None,
            },
            player matches Some(p) ==> p.wf() && (p.last_move_start matches Some(start) ==> start
                <= ticks),
            view == (camera.view_x, camera.view_y),
            last_x == if i == 0 {
                None
            } else {
                Some(layer.tiles[i - 1].x)
            },
            ops@ == old(ops)@ + sweep_ops(layer.tiles@, i as int, tilesheets@, camera, ticks, whom),
        decreases layer.tiles.len() - i,
    {
        let tile = layer.tiles[i];
        let ghost swept = ops@;
        if let Some(p) = player {
            let behind = match last_x {
                Some(tx) => tx < p.x,
                None => false,
            };
            if tile.y as i64 == p.y as i64 + 1 && tile.x >= p.x && behind {
                draw_player(p, ops, view, ticks);
            }
        }
        last_x = Some(tile.x);
        assert(layer.tiles[i as int].drawable_from(tilesheets@));
        if !culled(tile.x, tile.y, camera) {
            let image = image_for_tile(&tilesheets[tile.sheet], tile.index, (tile.x, tile.y), view);
            ops.push(DrawOp::at_display_zoom(tile.texture, image));
        }
        assert(ops@ == swept + tile_ops(layer.tiles@, i as int, tilesheets@, camera, ticks, whom));
        i = i + 1;
        assert(ops@ == old(ops)@ + sweep_ops(layer.tiles@, i as int, tilesheets@, camera, ticks, whom));
    }
}

/// The player as the sweep over layer `l` sees it: there if `l` is the
/// layer that the player stands among.
pub open spec fn player_in_layer(map: TileMap, l: int, player: Player) -> Option<Player> {
    if l == map.interleaved {
        Some(player)
    } else {
        None
    }
}

/// The operations that draw the first `n` layers, from the ground up.
pub open spec fn layers_ops(map: TileMap, n: int, camera: Camera, ticks: u32, player: Player) -> Seq<
    DrawOp,
>
    decreases n,
{
    if n <= 0 {
        Seq::empty()
    } else {
        layers_ops(map, n - 1, camera, ticks, player) + layer_ops(
            map.layers[n - 1],
            map.tilesheets@,
            camera,
            ticks,
            player_in_layer(map, n - 1, player),
        )
    }
}

/// The operations that draw a frame: all layers but the last from the ground
/// up, the player among the tiles of its layer; then the characters; then
/// the last layer, the foreground, over everything.
pub open spec fn scene_ops(
    map: TileMap,
    camera: Camera,
    ticks: u32,
    player: Player,
    characters: Seq<Character>,
) -> Seq<DrawOp>
    recommends
        map.layers.len() > 0,
{
    layers_ops(map, map.layers.len() - 1, camera, ticks, player) + characters_ops(
        characters,
        characters.len() as int,
        (camera.view_x, camera.view_y),
    ) + layer_ops(map.layers[map.layers.len() - 1], map.tilesheets@, camera, ticks, None)
}

/// Whether every character's sprite is usable.
pub open spec fn characters_wf(characters: Seq<Character>) -> bool {
    forall|i: int| 0 <= i < characters.len() ==> (#[trigger] characters[i]).wf()
}

/// Composes a frame: the operations that draw the scene, in painting order.
pub fn compose(
    map: &TileMap,
    camera: Camera,
    ticks: u32,
    player: &Player,
    characters: &Vec<Character>,
) -> (ops: Vec<DrawOp>)
    requires
        map.drawable(),
        player.wf(),
        player.last_move_start matches Some(start) ==> start <= ticks,
        characters_wf(characters@),
    ensures
        ops@ == scene_ops(*map, camera, ticks, *player, characters@),
{
    let mut ops: Vec<DrawOp> = Vec::new();
    let view = (camera.view_x, camera.view_y);
    let last = map.layers.len() - 1;
    let mut i: usize = 0;
    assert(ops@ == layers_ops(*map, 0, camera, ticks, *player));
    while i < last
        invariant
            i <= last,
            last == map.layers.len() - 1,
            map.drawable(),
            player.wf(),
            player.last_move_start matches Some(start) ==> start <= ticks,
            ops@ == layers_ops(*map, i as int, camera, ticks, *player),
        decreases last - i,
    {
        let whom = if i == map.interleaved {
            Some(player)
        } else {
            None
        };
        draw_layer(&map.layers[i], &map.tilesheets, &mut ops, ticks, camera, whom);
        i = i + 1;
    }
    let ghost lower = ops@;
    let mut c: usize = 0;
    assert(ops@ == lower + characters_ops(characters@, 0, view));
    while c < characters.len()
        invariant
            c <= characters.len(),
            characters_wf(characters@),
            view == (camera.view_x, camera.view_y),
            ops@ == lower + characters_ops(characters@, c as int, view),
        decreases characters.len() - c,
    {
        draw_character(&characters[c], &mut ops, view);
        c = c + 1;
    }
    draw_layer(&map.layers[last], &map.tilesheets, &mut ops, ticks, camera, None);
    ops
}

} // verus!
