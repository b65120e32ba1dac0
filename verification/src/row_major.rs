//! Row-major order of tiles: rows from the top down, and within a row the
//! columns from left to right. The sweep that paints a layer relies on it.

use vstd::prelude::*;
use vstd::seq_lib::{to_multiset_build, to_multiset_insert};
use crate::tilemap::{Layer, Tile, TileMap};

verus! {

/// Whether `a` may come before `b` in row-major order.
pub open spec fn row_major_le(a: Tile, b: Tile) -> bool {
    a.y < b.y || (a.y == b.y && a.x <= b.x)
}

/// Whether the tiles are in row-major order.
pub open spec fn is_row_major(tiles: Seq<Tile>) -> bool {
    forall|i: int, j: int| 0 <= i < j < tiles.len() ==> row_major_le(tiles[i], tiles[j])
}

/// Tiles in row-major order with one more tile put in its place: behind all
/// tiles that may come before it, those of its own cell among them.
pub open spec fn inserted(tiles: Seq<Tile>, tile: Tile) -> Seq<Tile>
    decreases tiles.len(),
{
    if tiles.len() == 0 {
        seq![tile]
    } else if row_major_le(tiles.last(), tile) {
        tiles.push(tile)
    } else {
        inserted(tiles.drop_last(), tile).push(tiles.last())
    }
}

/// The tiles in row-major order, tiles of one cell in the order in which
/// they stood.
pub open spec fn row_major_sorted(tiles: Seq<Tile>) -> Seq<Tile>
    decreases tiles.len(),
{
    if tiles.len() == 0 {
        tiles
    } else {
        inserted(row_major_sorted(tiles.drop_last()), tiles.last())
    }
}

/// The place of a tile among tiles in order is behind the last tile that may
/// come before it.
pub proof fn lemma_inserted_at(tiles: Seq<Tile>, tile: Tile, at: int)
    requires
        0 <= at <= tiles.len(),
        at > 0 ==> row_major_le(tiles[at - 1], tile),
        forall|k: int| at <= k < tiles.len() ==> !row_major_le(#[trigger] tiles[k], tile),
    ensures
        inserted(tiles, tile) == tiles.insert(at, tile),
    decreases tiles.len(),
{
    if tiles.len() == 0 {
        assert(tiles.insert(at, tile) == seq![tile]);
    } else if at == tiles.len() {
        assert(tiles.insert(at, tile) == tiles.push(tile));
    } else {
        let rest = tiles.drop_last();
        assert(!row_major_le(tiles[tiles.len() - 1], tile));
        assert forall|k: int| at <= k < rest.len() implies !row_major_le(#[trigger] rest[k], tile) by {
            assert(rest[k] == tiles[k]);
        }
        lemma_inserted_at(rest, tile, at);
        assert(rest.insert(at, tile).push(tiles.last()) == tiles.insert(at, tile));
    }
}

/// Putting a tile in its place keeps the order, adds the tile and nothing
/// else, and keeps the tiles that were there in the order they had.
pub proof fn lemma_inserted(tiles: Seq<Tile>, tile: Tile)
    requires
        is_row_major(tiles),
    ensures
        is_row_major(inserted(tiles, tile)),
        inserted(tiles, tile).len() == tiles.len() + 1,
        inserted(tiles, tile).to_multiset() == tiles.to_multiset().insert(tile),
        exists|at: int| 0 <= at <= tiles.len() && inserted(tiles, tile) == tiles.insert(at, tile),
    decreases tiles.len(),
{
    if tiles.len() == 0 {
        assert(inserted(tiles, tile) == tiles.insert(0, tile));
        to_multiset_insert(tiles, 0, tile);
    } else if row_major_le(tiles.last(), tile) {
        let at = tiles.len() as int;
        assert(tiles.push(tile) == tiles.insert(at, tile));
        to_multiset_build(tiles, tile);
        let out = tiles.push(tile);
        assert forall|i: int, j: int| 0 <= i < j < out.len() implies row_major_le(out[i], out[j]) by {
            if j == tiles.len() {
                if i < tiles.len() - 1 {
                    assert(row_major_le(tiles[i], tiles[tiles.len() - 1]));
                }
            }
        }
    } else {
        let rest = tiles.drop_last();
        assert forall|i: int, j: int| 0 <= i < j < rest.len() implies row_major_le(rest[i], rest[j]) by {
            assert(row_major_le(tiles[i], tiles[j]));
        }
        lemma_inserted(rest, tile);
        let at = choose|at: int| 0 <= at <= rest.len() && inserted(rest, tile) == rest.insert(at, tile);
        let mid = rest.insert(at, tile);
        let out = mid.push(tiles.last());
        assert(out == tiles.insert(at, tile));
        to_multiset_insert(tiles, at, tile);
        assert forall|i: int, j: int| 0 <= i < j < out.len() implies row_major_le(out[i], out[j]) by {
            if j < mid.len() {
                assert(row_major_le(mid[i], mid[j]));
            } else {
                if i < at {
                    assert(out[i] == tiles[i]);
                    assert(row_major_le(tiles[i], tiles[tiles.len() - 1]));
                } else if i == at {
                } else {
                    assert(out[i] == tiles[i - 1]);
                    if i - 1 < tiles.len() - 1 {
                        assert(row_major_le(tiles[i - 1], tiles[tiles.len() - 1]));
                    }
                }
            }
        }
    }
}

/// Sorting gives the same tiles, each as often as before, in row-major order.
pub proof fn lemma_row_major_sorted(tiles: Seq<Tile>)
    ensures
        is_row_major(row_major_sorted(tiles)),
        row_major_sorted(tiles).len() == tiles.len(),
        row_major_sorted(tiles).to_multiset() == tiles.to_multiset(),
    decreases tiles.len(),
{
    if tiles.len() > 0 {
        let rest = tiles.drop_last();
        lemma_row_major_sorted(rest);
        lemma_inserted(row_major_sorted(rest), tiles.last());
        to_multiset_build(rest, tiles.last());
        assert(rest.push(tiles.last()) == tiles);
    }
}

/// Tiles that are in row-major order stay as they are.
pub proof fn lemma_sorted_is_fixed(tiles: Seq<Tile>)
    requires
        is_row_major(tiles),
    ensures
        row_major_sorted(tiles) == tiles,
    decreases tiles.len(),
{
    if tiles.len() > 0 {
        let rest = tiles.drop_last();
        assert forall|i: int, j: int| 0 <= i < j < rest.len() implies row_major_le(rest[i], rest[j]) by {
            assert(row_major_le(tiles[i], tiles[j]));
        }
        lemma_sorted_is_fixed(rest);
        if rest.len() > 0 {
            assert(row_major_le(tiles[rest.len() - 1], tiles[tiles.len() - 1]));
            assert(rest.last() == tiles[rest.len() - 1]);
        }
        assert(rest.push(tiles.last()) == tiles);
    }
}

/// Whether `a` may come before `b` in row-major order.
pub fn precedes(a: &Tile, b: &Tile) -> (le: bool)
    ensures
        le == row_major_le(*a, *b),
{
    a.y < b.y || (a.y == b.y && a.x <= b.x)
}

/// Brings tiles into row-major order. Tiles of one cell keep the order they
/// had among themselves.
pub fn sort_row_major(tiles: &mut Vec<Tile>)
    ensures
        final(tiles)@ == row_major_sorted(old(tiles)@),
        is_row_major(final(tiles)@),
        final(tiles)@.to_multiset() == old(tiles)@.to_multiset(),
        final(tiles).len() == old(tiles).len(),
{
    let mut out: Vec<Tile> = Vec::new();
    let mut i: usize = 0;
    assert(old(tiles)@.subrange(0, 0) == Seq::<Tile>::empty());
    while i < tiles.len()
        invariant
            i <= tiles.len(),
            *tiles == *old(tiles),
            out@ == row_major_sorted(tiles@.subrange(0, i as int)),
            out.len() == i,
        decreases tiles.len() - i,
    {
        let tile = tiles[i];
        proof {
            lemma_row_major_sorted(tiles@.subrange(0, i as int));
        }
        let mut at: usize = out.len();
        while at > 0 && !precedes(&out[at - 1], &tile)
            invariant
                at <= out.len(),
                is_row_major(out@),
                forall|k: int| at <= k < out.len() ==> !row_major_le(#[trigger] out[k], tile),
            decreases at,
        {
            at = at - 1;
        }
        proof {
            lemma_inserted_at(out@, tile, at as int);
            let upto = tiles@.subrange(0, i as int + 1);
            assert(upto.drop_last() == tiles@.subrange(0, i as int));
            assert(upto.last() == tile);
        }
        out.insert(at, tile);
        i = i + 1;
    }
    proof {
        assert(tiles@.subrange(0, tiles.len() as int) == tiles@);
        lemma_row_major_sorted(tiles@);
    }
    *tiles = out;
}

impl Layer {
    /// Brings the layer's tiles into row-major order.
    pub fn sort_tiles(&mut self)
        ensures
            final(self).tiles@ == row_major_sorted(old(self).tiles@),
            is_row_major(final(self).tiles@),
            final(self).id == old(self).id,
            final(self).visible == old(self).visible,
            final(self).width == old(self).width,
            final(self).height == old(self).height,
    {
        sort_row_major(&mut self.tiles);
    }
}

/// Whether `after` is `before` with the tiles of every layer brought into
/// row-major order, and the same in everything else.
pub open spec fn is_sorted_map(before: TileMap, after: TileMap) -> bool {
    &&& after.tilesheets == before.tilesheets
    &&& after.interleaved == before.interleaved
    &&& after.layers.len() == before.layers.len()
    &&& forall|l: int|
        0 <= l < before.layers.len() ==> {
            &&& (#[trigger] after.layers[l]).tiles@ == row_major_sorted(before.layers[l].tiles@)
            &&& after.layers[l].id == before.layers[l].id
            &&& after.layers[l].visible == before.layers[l].visible
            &&& after.layers[l].width == before.layers[l].width
            &&& after.layers[l].height == before.layers[l].height
        }
}

/// Every tile of the sorted tiles is one of the tiles, and every one of the
/// tiles is among the sorted.
pub proof fn lemma_sorted_has_same_tiles(tiles: Seq<Tile>)
    ensures
        forall|i: int| 0 <= i < tiles.len() ==> row_major_sorted(tiles).contains(#[trigger] tiles[i]),
        forall|j: int|
            0 <= j < tiles.len() ==> tiles.contains(#[trigger] row_major_sorted(tiles)[j]),
{
    lemma_row_major_sorted(tiles);
    let sorted = row_major_sorted(tiles);
    assert forall|i: int| 0 <= i < tiles.len() implies sorted.contains(#[trigger] tiles[i]) by {
        vstd::seq_lib::to_multiset_contains(tiles, tiles[i]);
        vstd::seq_lib::to_multiset_contains(sorted, tiles[i]);
        assert(tiles.contains(tiles[i]));
    }
    assert forall|j: int| 0 <= j < tiles.len() implies tiles.contains(#[trigger] sorted[j]) by {
        vstd::seq_lib::to_multiset_contains(tiles, sorted[j]);
        vstd::seq_lib::to_multiset_contains(sorted, sorted[j]);
        assert(sorted.contains(sorted[j]));
    }
}

/// Sorting a map's layers changes neither whether the map is well formed nor
/// which cells are obstructed.
pub proof fn lemma_sorting_keeps_map(before: TileMap, after: TileMap)
    requires
        is_sorted_map(before, after),
    ensures
        before.wf() ==> after.wf(),
        forall|x: i64, y: i64| before.obstructed_spec(x, y) == after.obstructed_spec(x, y),
{
    let ids = crate::tilemap::layer_ids(before.layers@);
    assert(crate::tilemap::layer_ids(after.layers@) == ids);
    if before.wf() {
        assert forall|l: int| 0 <= l < after.layers.len() implies (#[trigger] after.layers[l]).drawable_from(
            after.tilesheets@,
        ) by {
            let old_tiles = before.layers[l].tiles@;
            lemma_row_major_sorted(old_tiles);
            lemma_sorted_has_same_tiles(old_tiles);
            assert(before.layers[l].drawable_from(before.tilesheets@));
            assert forall|j: int| 0 <= j < after.layers[l].tiles.len() implies (#[trigger] after.layers[l].tiles[j]).drawable_from(
                after.tilesheets@,
            ) by {
                let tile = row_major_sorted(old_tiles)[j];
                assert(old_tiles.contains(tile));
                let i = choose|i: int| 0 <= i < old_tiles.len() && old_tiles[i] == tile;
                assert(before.layers[l].tiles[i].drawable_from(before.tilesheets@));
            }
        }
        assert(after.layers[0].width == before.layers[0].width);
        assert(after.layers[0].height == before.layers[0].height);
    }
    assert forall|x: i64, y: i64| before.obstructed_spec(x, y) == after.obstructed_spec(x, y) by {
        match before.obstruction_layer_spec() {
            Some(l) => {
                crate::tilemap::lemma_first_with_id(ids, "Buildings"@, l as int);
                let old_tiles = before.layers[l as int].tiles@;
                let new_tiles = after.layers[l as int].tiles@;
                lemma_row_major_sorted(old_tiles);
                lemma_sorted_has_same_tiles(old_tiles);
                if before.layers[l as int].covers(x as int, y as int) {
                    let i = choose|i: int|
                        0 <= i < old_tiles.len() && old_tiles[i].x == x && old_tiles[i].y == y;
                    assert(new_tiles.contains(old_tiles[i]));
                    let j = choose|j: int| 0 <= j < new_tiles.len() && new_tiles[j] == old_tiles[i];
                    assert(new_tiles[j].x == x && new_tiles[j].y == y);
                }
                if after.layers[l as int].covers(x as int, y as int) {
                    let j = choose|j: int|
                        0 <= j < new_tiles.len() && new_tiles[j].x == x && new_tiles[j].y == y;
                    assert(old_tiles.contains(new_tiles[j]));
                    let i = choose|i: int| 0 <= i < old_tiles.len() && old_tiles[i] == new_tiles[j];
                    assert(old_tiles[i].x == x && old_tiles[i].y == y);
                }
            },
            None => {},
        }
    }
}

impl TileMap {
    /// Brings the tiles of every layer into row-major order.
    pub fn sort_layers(&mut self)
        ensures
            is_sorted_map(*old(self), *final(self)),
            old(self).wf() ==> final(self).wf(),
            forall|x: i64, y: i64| old(self).obstructed_spec(x, y) == final(self).obstructed_spec(x, y),
    {
        let mut l: usize = 0;
        while l < self.layers.len()
            invariant
                l <= self.layers.len(),
                self.tilesheets == old(self).tilesheets,
                self.interleaved == old(self).interleaved,
                self.layers.len() == old(self).layers.len(),
                forall|k: int|
                    0 <= k < l ==> {
                        &&& (#[trigger] self.layers[k]).tiles@ == row_major_sorted(
                            old(self).layers[k].tiles@,
                        )
                        &&& self.layers[k].id == old(self).layers[k].id
                        &&& self.layers[k].visible == old(self).layers[k].visible
                        &&& self.layers[k].width == old(self).layers[k].width
                        &&& self.layers[k].height == old(self).layers[k].height
                    },
                forall|k: int|
                    l <= k < self.layers.len() ==> #[trigger] self.layers[k] == old(self).layers[k],
            decreases self.layers.len() - l,
        {
            self.layers[l].sort_tiles();
            l = l + 1;
        }
        proof {
            lemma_sorting_keeps_map(*old(self), *self);
        }
    }
}

} // verus!
