//! What the sweep over a layer guarantees about depth: where among the
//! tiles the player is painted, and that it is painted there only.

use vstd::prelude::*;
use crate::camera::Camera;
use crate::character::Character;
use crate::compositor::{
    characters_ops, interleaves, layer_ops, layers_ops, player_ops, scene_ops, sweep_ops, tile_draw,
    tile_ops,
};
use crate::player::Player;
use crate::row_major::{is_row_major, row_major_le};
use crate::sprite::DrawOp;
use crate::tilemap::{Layer, Tile, TileMap, TileSheet};

verus! {

/// The sweep only ever adds to what it has painted: what it had painted
/// after `m` tiles is the beginning of what it has painted after `n`.
pub proof fn lemma_sweep_extends(
    tiles: Seq<Tile>,
    m: int,
    n: int,
    tilesheets: Seq<TileSheet>,
    camera: Camera,
    ticks: u32,
    player: Option<Player>,
)
    requires
        m <= n,
    ensures
        sweep_ops(tiles, m, tilesheets, camera, ticks, player).is_prefix_of(
            sweep_ops(tiles, n, tilesheets, camera, ticks, player),
        ),
    decreases n - m,
{
    if m < n {
        lemma_sweep_extends(tiles, m, n - 1, tilesheets, camera, ticks, player);
        let a = sweep_ops(tiles, m, tilesheets, camera, ticks, player);
        let b = sweep_ops(tiles, n - 1, tilesheets, camera, ticks, player);
        let c = sweep_ops(tiles, n, tilesheets, camera, ticks, player);
        if n > 0 {
            assert(c == b + tile_ops(tiles, n - 1, tilesheets, camera, ticks, player));
            assert(b.is_prefix_of(c));
        } else {
            assert(c == b);
        }
        assert(a.is_prefix_of(c));
    }
}

/// Where the player goes before tile `i`, it is painted directly between
/// tile `i - 1` and tile `i`: after all that the sweep had painted up to and
/// with tile `i - 1`, and before tile `i` and all that follows.
pub proof fn lemma_player_goes_between(
    tiles: Seq<Tile>,
    i: int,
    tilesheets: Seq<TileSheet>,
    camera: Camera,
    ticks: u32,
    player: Player,
)
    requires
        interleaves(tiles, i, Some(player)),
    ensures
        sweep_ops(tiles, i + 1, tilesheets, camera, ticks, Some(player)) == sweep_ops(
            tiles,
            i - 1,
            tilesheets,
            camera,
            ticks,
            Some(player),
        ) + tile_draw(tiles, i - 1, tilesheets, camera) + player_ops(
            player,
            (camera.view_x, camera.view_y),
            ticks,
        ) + tile_draw(tiles, i, tilesheets, camera),
{
    let whom = Some(player);
    let before = sweep_ops(tiles, i - 1, tilesheets, camera, ticks, whom);
    let left = tile_draw(tiles, i - 1, tilesheets, camera);
    let body = player_ops(player, (camera.view_x, camera.view_y), ticks);
    let right = tile_draw(tiles, i, tilesheets, camera);
    assert(!interleaves(tiles, i - 1, whom));
    assert(tile_ops(tiles, i - 1, tilesheets, camera, ticks, whom) == Seq::<DrawOp>::empty() + left);
    assert(Seq::<DrawOp>::empty() + left == left);
    assert(sweep_ops(tiles, i, tilesheets, camera, ticks, whom) == before + left);
    assert(sweep_ops(tiles, i + 1, tilesheets, camera, ticks, whom) == (before + left) + (body
        + right));
    assert((before + left) + (body + right) == before + left + body + right);
}

/// In a layer whose tiles are in row-major order the player goes before one
/// tile at most, so that a sweep paints it at most once.
pub proof fn lemma_player_painted_once(tiles: Seq<Tile>, i: int, j: int, player: Player)
    requires
        is_row_major(tiles),
        interleaves(tiles, i, Some(player)),
        interleaves(tiles, j, Some(player)),
    ensures
        i == j,
{
    if i < j - 1 {
        assert(row_major_le(tiles[i], tiles[j - 1]));
        assert(row_major_le(tiles[j - 1], tiles[j]));
    }
    if j < i - 1 {
        assert(row_major_le(tiles[j], tiles[i - 1]));
        assert(row_major_le(tiles[i - 1], tiles[i]));
    }
}

/// In a layer whose tiles are in row-major order, all that is painted before
/// the player lies in a row above the row below the player, or in that row
/// to the player's left; all that is painted after it lies in that row from
/// the player's column on, or in a row further down.
pub proof fn lemma_sweep_splits_at_player(tiles: Seq<Tile>, i: int, k: int, player: Player)
    requires
        is_row_major(tiles),
        interleaves(tiles, i, Some(player)),
        0 <= k < tiles.len(),
    ensures
        k < i ==> tiles[k].y < player.y + 1 || (tiles[k].y == player.y + 1 && tiles[k].x
            < player.x),
        k >= i ==> tiles[k].y > player.y + 1 || (tiles[k].y == player.y + 1 && tiles[k].x
            >= player.x),
{
    if k < i - 1 {
        assert(row_major_le(tiles[k], tiles[i - 1]));
    }
    assert(row_major_le(tiles[i - 1], tiles[i]));
    if k > i {
        assert(row_major_le(tiles[i], tiles[k]));
    }
}

/// A row of three tiles one row below the player, in the columns to its
/// left, its own and to its right: the left tile is painted, then the
/// player, then the other two.
pub proof fn lemma_row_of_three(
    layer: Layer,
    tilesheets: Seq<TileSheet>,
    camera: Camera,
    ticks: u32,
    player: Player,
)
    requires
        layer.shown(),
        layer.tiles.len() == 3,
        forall|i: int| 0 <= i < 3 ==> (#[trigger] layer.tiles[i]).y == player.y + 1,
        layer.tiles[0].x == player.x - 1,
        layer.tiles[1].x == player.x,
        layer.tiles[2].x == player.x + 1,
    ensures
        layer_ops(layer, tilesheets, camera, ticks, Some(player)) == tile_draw(
            layer.tiles@,
            0,
            tilesheets,
            camera,
        ) + player_ops(player, (camera.view_x, camera.view_y), ticks) + tile_draw(
            layer.tiles@,
            1,
            tilesheets,
            camera,
        ) + tile_draw(layer.tiles@, 2, tilesheets, camera),
{
    let tiles = layer.tiles@;
    let whom = Some(player);
    let body = player_ops(player, (camera.view_x, camera.view_y), ticks);
    let none = Seq::<DrawOp>::empty();
    let t0 = tile_draw(tiles, 0, tilesheets, camera);
    let t1 = tile_draw(tiles, 1, tilesheets, camera);
    let t2 = tile_draw(tiles, 2, tilesheets, camera);
    assert(tiles[0].y == player.y + 1 && tiles[1].y == player.y + 1 && tiles[2].y == player.y + 1);
    assert(!interleaves(tiles, 0, whom));
    assert(interleaves(tiles, 1, whom));
    assert(!interleaves(tiles, 2, whom));
    assert(sweep_ops(tiles, 0, tilesheets, camera, ticks, whom) == none);
    assert(tile_ops(tiles, 0, tilesheets, camera, ticks, whom) == none + t0);
    assert(sweep_ops(tiles, 1, tilesheets, camera, ticks, whom) == none + (none + t0));
    assert(none + (none + t0) == t0);
    assert(sweep_ops(tiles, 2, tilesheets, camera, ticks, whom) == t0 + (body + t1));
    assert(tile_ops(tiles, 2, tilesheets, camera, ticks, whom) == none + t2);
    assert(none + t2 == t2);
    assert(sweep_ops(tiles, 3, tilesheets, camera, ticks, whom) == t0 + (body + t1) + t2);
    assert(t0 + (body + t1) + t2 == t0 + body + t1 + t2);
}

/// Without a player the sweep paints the tiles that the view reaches and
/// nothing else.
pub proof fn lemma_sweep_without_player(
    tiles: Seq<Tile>,
    i: int,
    tilesheets: Seq<TileSheet>,
    camera: Camera,
    ticks: u32,
)
    ensures
        tile_ops(tiles, i, tilesheets, camera, ticks, None) == tile_draw(
            tiles,
            i,
            tilesheets,
            camera,
        ),
{
    assert(Seq::<DrawOp>::empty() + tile_draw(tiles, i, tilesheets, camera) == tile_draw(
        tiles,
        i,
        tilesheets,
        camera,
    ));
}

/// A layer that is hidden, and the layer of paths, bring nothing into the
/// frame, not even the player.
pub proof fn lemma_layer_not_shown(
    layer: Layer,
    tilesheets: Seq<TileSheet>,
    camera: Camera,
    ticks: u32,
    player: Option<Player>,
)
    requires
        !layer.visible || crate::tilemap::is_paths_id(layer.id@),
    ensures
        layer_ops(layer, tilesheets, camera, ticks, player).len() == 0,
{
}

/// Whether the player goes before a tile does not depend on the view: a
/// tile that the view does not reach brings the player all the same.
pub proof fn lemma_interleave_ignores_view(
    tiles: Seq<Tile>,
    i: int,
    tilesheets: Seq<TileSheet>,
    camera: Camera,
    ticks: u32,
    player: Player,
)
    requires
        interleaves(tiles, i, Some(player)),
        crate::compositor::culled_spec(tiles[i].x, tiles[i].y, camera),
    ensures
        tile_ops(tiles, i, tilesheets, camera, ticks, Some(player)) == player_ops(
            player,
            (camera.view_x, camera.view_y),
            ticks,
        ),
{
    let body = player_ops(player, (camera.view_x, camera.view_y), ticks);
    assert(body + Seq::<DrawOp>::empty() == body);
}

/// The last layer is painted last, over everything, and the characters
/// just before it, over all other layers. The player is no part of either.
pub proof fn lemma_foreground_is_last(
    map: TileMap,
    camera: Camera,
    ticks: u32,
    player: Player,
    characters: Seq<Character>,
)
    requires
        map.layers.len() > 0,
    ensures
        ({
            let ground = layers_ops(map, map.layers.len() - 1, camera, ticks, player);
            let cast = characters_ops(
                characters,
                characters.len() as int,
                (camera.view_x, camera.view_y),
            );
            let front = layer_ops(
                map.layers[map.layers.len() - 1],
                map.tilesheets@,
                camera,
                ticks,
                None,
            );
            let frame = scene_ops(map, camera, ticks, player, characters);
            &&& frame == ground + cast + front
            &&& frame.subrange(0, ground.len() as int) == ground
            &&& frame.subrange(ground.len() as int, (ground.len() + cast.len()) as int) == cast
            &&& frame.subrange((ground.len() + cast.len()) as int, frame.len() as int) == front
        }),
{
}

} // verus!
