//! The map: tile sheets, layers of placed tiles, and the checks that make a
//! decoded map fit to be drawn and walked on.

use vstd::prelude::*;
use crate::geometry::CELL;
use crate::sprite::TextureId;

verus! {

/// Why a scene cannot be built from what was decoded.
#[derive(Clone, Copy, Debug, PartialEq, Eq, Structural)]
pub enum SceneError {
    /// A tile names a tile sheet for which no texture is bound.
    MissingTexture,
    /// A tile names a tile sheet that the map does not hold.
    MissingTileSheet,
    /// The map has no layer at all.
    NoLayers,
    /// The map has no layer that obstructs movement.
    NoObstructionLayer,
    /// A tile is cut from a sheet without columns.
    EmptyTileSheet,
    /// The map is longer in pixels than a viewport coordinate can say.
    MapTooLarge,
}

/// A sprite sheet cut into a grid of tiles.
#[derive(Clone, Debug, PartialEq, Eq)]
pub struct TileSheet {
    pub id: String,
    /// Width and height of a tile in pixels.
    pub tile_w: u16,
    pub tile_h: u16,
    /// Columns and rows of tiles on the sheet.
    pub cols: u32,
    pub rows: u32,
}

/// A tile placed on the map: the sheet and texture it is cut from, its
/// current index on that sheet, and the cell it covers.
#[derive(Clone, Copy, Debug, PartialEq, Eq, Structural)]
pub struct Tile {
    /// Position of the sheet among the map's tile sheets.
    pub sheet: usize,
    pub texture: TextureId,
    /// Position of the tile in its layer as it was decoded. Sorting the
    /// layer does not change it, so that whoever animates the tile finds it
    /// again.
    pub source: usize,
    /// The frame of the sheet that the tile shows at present.
    pub index: u32,
    pub x: i32,
    pub y: i32,
}

/// A layer of the map: tiles that are painted together.
#[derive(Clone, Debug, PartialEq, Eq)]
pub struct Layer {
    pub id: String,
    pub visible: bool,
    /// Width and height in cells.
    pub width: u32,
    pub height: u32,
    pub tiles: Vec<Tile>,
}

/// A map: the sheets that its tiles are cut from, and its layers.
#[derive(Clone, Debug, PartialEq, Eq)]
pub struct TileMap {
    pub tilesheets: Vec<TileSheet>,
    /// The layers from the ground up. The last one is the foreground.
    pub layers: Vec<Layer>,
    /// Position of the layer that the player stands among.
    pub interleaved: usize,
}

/// The texture that a tile sheet is drawn from.
#[derive(Clone, Debug, PartialEq, Eq)]
pub struct TextureBinding {
    pub tilesheet: String,
    pub texture: TextureId,
}

/// Whether `id` names the layer that obstructs movement.
pub open spec fn is_obstruction_id(id: Seq<char>) -> bool {
    id == "Buildings"@
}

/// Whether `id` names the layer of paths, which is never drawn.
pub open spec fn is_paths_id(id: Seq<char>) -> bool {
    id == "Paths"@
}

/// Whether none of the first `n` ids is `name`.
pub open spec fn absent_before(ids: Seq<Seq<char>>, name: Seq<char>, n: int) -> bool {
    forall|k: int| 0 <= k < n && k < ids.len() ==> #[trigger] ids[k] != name
}

/// Whether `name` stands at position `i` and nowhere before it.
pub open spec fn is_first_at(ids: Seq<Seq<char>>, name: Seq<char>, i: int) -> bool {
    0 <= i < ids.len() && ids[i] == name && absent_before(ids, name, i)
}

/// The first position at which `name` stands among `ids`.
pub open spec fn first_with_id(ids: Seq<Seq<char>>, name: Seq<char>) -> Option<usize> {
    if exists|i: int| is_first_at(ids, name, i) {
        Some((choose|i: int| is_first_at(ids, name, i)) as usize)
    } else {
        None
    }
}

/// The first position of an id is well defined: the position that holds it
/// with no equal id before it is the only such position, and there is none
/// if the id occurs nowhere.
pub proof fn lemma_first_with_id(ids: Seq<Seq<char>>, name: Seq<char>, i: int)
    requires
        ids.len() <= usize::MAX,
    ensures
        is_first_at(ids, name, i) ==> first_with_id(ids, name) == Some(i as usize),
        absent_before(ids, name, ids.len() as int) ==> first_with_id(ids, name) is None,
        first_with_id(ids, name) matches Some(j) ==> is_first_at(ids, name, j as int),
        first_with_id(ids, name) is None ==> absent_before(ids, name, ids.len() as int),
{
    if exists|j: int| is_first_at(ids, name, j) {
        let j = choose|j: int| is_first_at(ids, name, j);
        assert(is_first_at(ids, name, j));
        if is_first_at(ids, name, i) {
            if j < i {
                assert(ids[j] != name);
            }
            if i < j {
                assert(ids[i] != name);
            }
        }
        if absent_before(ids, name, ids.len() as int) {
            assert(ids[j] != name);
        }
    } else {
        lemma_absent_or_first(ids, name, ids.len() as int);
    }
}

proof fn lemma_absent_or_first(ids: Seq<Seq<char>>, name: Seq<char>, n: int)
    requires
        0 <= n <= ids.len(),
    ensures
        absent_before(ids, name, n) || exists|j: int| is_first_at(ids, name, j),
    decreases n,
{
    if n > 0 {
        lemma_absent_or_first(ids, name, n - 1);
        if absent_before(ids, name, n - 1) && ids[n - 1] == name {
            assert(is_first_at(ids, name, n - 1));
        }
    }
}

/// The ids of the sheets, in their order.
pub open spec fn sheet_ids(tilesheets: Seq<TileSheet>) -> Seq<Seq<char>> {
    Seq::new(tilesheets.len(), |i: int| tilesheets[i].id@)
}

/// The ids of the layers, in their order.
pub open spec fn layer_ids(layers: Seq<Layer>) -> Seq<Seq<char>> {
    Seq::new(layers.len(), |i: int| layers[i].id@)
}

/// Finds the first tile sheet with id `name`.
pub fn find_tilesheet(tilesheets: &Vec<TileSheet>, name: &String) -> (found: Option<usize>)
    ensures
        found == first_with_id(sheet_ids(tilesheets@), name@),
        found matches Some(i) ==> i < tilesheets.len() && tilesheets[i as int].id@ == name@,
{
    let ghost ids = sheet_ids(tilesheets@);
    let mut i: usize = 0;
    while i < tilesheets.len()
        invariant
            i <= tilesheets.len(),
            ids == sheet_ids(tilesheets@),
            absent_before(ids, name@, i as int),
        decreases tilesheets.len() - i,
    {
        if tilesheets[i].id == *name {
            proof {
                assert(ids[i as int] == name@);
                lemma_first_with_id(ids, name@, i as int);
            }
            return Some(i);
        }
        assert(ids[i as int] != name@);
        i = i + 1;
    }
    proof {
        lemma_first_with_id(ids, name@, 0);
    }
    None
}

/// Finds the first layer with id `name`.
pub fn find_layer(layers: &Vec<Layer>, name: &String) -> (found: Option<usize>)
    ensures
        found == first_with_id(layer_ids(layers@), name@),
        found matches Some(i) ==> i < layers.len() && layers[i as int].id@ == name@,
{
    let ghost ids = layer_ids(layers@);
    let mut i: usize = 0;
    while i < layers.len()
        invariant
            i <= layers.len(),
            ids == layer_ids(layers@),
            absent_before(ids, name@, i as int),
        decreases layers.len() - i,
    {
        if layers[i].id == *name {
            proof {
                assert(ids[i as int] == name@);
                lemma_first_with_id(ids, name@, i as int);
            }
            return Some(i);
        }
        assert(ids[i as int] != name@);
        i = i + 1;
    }
    proof {
        lemma_first_with_id(ids, name@, 0);
    }
    None
}

/// Whether the bindings from position `n` on are all for another sheet than
/// `name`.
pub open spec fn no_binding_from(bindings: Seq<TextureBinding>, name: Seq<char>, n: int) -> bool {
    forall|k: int| n <= k < bindings.len() && 0 <= k ==> (#[trigger] bindings[k]).tilesheet@ != name
}

/// The texture bound to the sheet `name`: that of the last binding for it,
/// since a later binding replaces an earlier one.
pub open spec fn texture_bound(bindings: Seq<TextureBinding>, name: Seq<char>) -> Option<TextureId>
    decreases bindings.len(),
{
    if bindings.len() == 0 {
        None
    } else if bindings.last().tilesheet@ == name {
        Some(bindings.last().texture)
    } else {
        texture_bound(bindings.drop_last(), name)
    }
}

/// A sheet has a texture exactly if some binding names it, and then it is the
/// texture of the last such binding.
pub proof fn lemma_texture_bound(bindings: Seq<TextureBinding>, name: Seq<char>)
    ensures
        texture_bound(bindings, name) is None <==> no_binding_from(bindings, name, 0),
        forall|i: int|
            0 <= i < bindings.len() && (#[trigger] bindings[i]).tilesheet@ == name
                && no_binding_from(bindings, name, i + 1) ==> texture_bound(bindings, name)
                == Some(bindings[i].texture),
    decreases bindings.len(),
{
    if bindings.len() == 0 {
    } else if bindings.last().tilesheet@ == name {
        assert forall|i: int|
            0 <= i < bindings.len() && (#[trigger] bindings[i]).tilesheet@ == name
                && no_binding_from(bindings, name, i + 1) implies texture_bound(bindings, name)
            == Some(bindings[i].texture) by {
            if i < bindings.len() - 1 {
                assert(bindings[bindings.len() - 1].tilesheet@ != name);
            }
        }
    } else {
        let rest = bindings.drop_last();
        lemma_texture_bound(rest, name);
        if no_binding_from(rest, name, 0) {
            assert forall|k: int| 0 <= k < bindings.len() implies (#[trigger] bindings[k]).tilesheet@
                != name by {
                if k < rest.len() {
                    assert(rest[k].tilesheet@ != name);
                }
            }
        } else {
            let k = choose|k: int| 0 <= k < rest.len() && (#[trigger] rest[k]).tilesheet@ == name;
            assert(bindings[k].tilesheet@ == name);
        }
        assert forall|i: int|
            0 <= i < bindings.len() && (#[trigger] bindings[i]).tilesheet@ == name
                && no_binding_from(bindings, name, i + 1) implies texture_bound(bindings, name)
            == Some(bindings[i].texture) by {
            assert(i < rest.len());
            assert(rest[i].tilesheet@ == name);
            assert forall|k: int| i + 1 <= k < rest.len() && 0 <= k implies (#[trigger] rest[k]).tilesheet@
                != name by {
                assert(bindings[k].tilesheet@ != name);
            }
        }
    }
}

/// Finds the texture bound to the tile sheet `name`.
pub fn find_texture(bindings: &Vec<TextureBinding>, name: &String) -> (found: Option<TextureId>)
    ensures
        found == texture_bound(bindings@, name@),
{
    let mut i: usize = bindings.len();
    while i > 0
        invariant
            i <= bindings.len(),
            no_binding_from(bindings@, name@, i as int),
        decreases i,
    {
        i = i - 1;
        if bindings[i].tilesheet == *name {
            proof {
                lemma_texture_bound(bindings@, name@);
            }
            return Some(bindings[i].texture);
        }
    }
    proof {
        lemma_texture_bound(bindings@, name@);
    }
    None
}

/// The tile that a decoded tile stands for, or what it lacks. A sheet without
/// texture is reported before a sheet that the map does not hold.
pub open spec fn resolved_tile(
    tilesheets: Seq<TileSheet>,
    bindings: Seq<TextureBinding>,
    name: Seq<char>,
    source: usize,
    index: u32,
    pos: (i32, i32),
) -> Result<Tile, SceneError> {
    match texture_bound(bindings, name) {
        None => Err(SceneError::MissingTexture),
        Some(texture) => match first_with_id(sheet_ids(tilesheets), name) {
            None => Err(SceneError::MissingTileSheet),
            Some(sheet) => Ok(Tile { sheet, texture, source, index, x: pos.0, y: pos.1 }),
        },
    }
}

/// Resolves the sheet that a decoded tile names to the sheet's position in
/// the map and to its texture.
pub fn resolve_tile(
    tilesheets: &Vec<TileSheet>,
    bindings: &Vec<TextureBinding>,
    name: &String,
    source: usize,
    index: u32,
    pos: (i32, i32),
) -> (tile: Result<Tile, SceneError>)
    ensures
        tile == resolved_tile(tilesheets@, bindings@, name@, source, index, pos),
        tile matches Ok(t) ==> t.sheet < tilesheets.len() && tilesheets[t.sheet as int].id@
            == name@,
{
    let texture = match find_texture(bindings, name) {
        Some(texture) => texture,
        None => {
            return Err(SceneError::MissingTexture);
        },
    };
    match find_tilesheet(tilesheets, name) {
        Some(sheet) => Ok(Tile { sheet, texture, source, index, x: pos.0, y: pos.1 }),
        None => Err(SceneError::MissingTileSheet),
    }
}

/// The id of the layer that obstructs movement.
pub fn obstruction_id() -> (id: String)
    ensures
        is_obstruction_id(id@),
{
    "Buildings".to_owned()
}

/// The id of the layer of paths.
pub fn paths_id() -> (id: String)
    ensures
        is_paths_id(id@),
{
    "Paths".to_owned()
}

impl Tile {
    /// Whether the tile's sheet is one of `tilesheets`.
    pub open spec fn has_sheet_in(self, tilesheets: Seq<TileSheet>) -> bool {
        self.sheet < tilesheets.len()
    }

    /// Whether the tile's sheet is one of `tilesheets` and has no columns.
    pub open spec fn has_empty_sheet_in(self, tilesheets: Seq<TileSheet>) -> bool {
        self.sheet < tilesheets.len() && tilesheets[self.sheet as int].cols == 0
    }

    /// Whether the tile can be cut from its sheet.
    pub open spec fn drawable_from(self, tilesheets: Seq<TileSheet>) -> bool {
        self.sheet < tilesheets.len() && tilesheets[self.sheet as int].cols > 0
    }
}

impl Layer {
    /// Whether one of the layer's tiles covers the cell `(x, y)`.
    pub open spec fn covers(&self, x: int, y: int) -> bool {
        exists|i: int| 0 <= i < self.tiles.len() && self.tiles[i].x == x && self.tiles[i].y == y
    }

    /// Whether the layer is drawn at all: it is visible and is not the layer
    /// of paths.
    pub open spec fn shown(&self) -> bool {
        self.visible && !is_paths_id(self.id@)
    }

    /// Whether a tile of the layer names a sheet that is not there.
    pub open spec fn has_dangling_tile(&self, tilesheets: Seq<TileSheet>) -> bool {
        exists|i: int| 0 <= i < self.tiles.len() && !(#[trigger] self.tiles[i]).has_sheet_in(tilesheets)
    }

    /// Whether a tile of the layer is cut from a sheet without columns.
    pub open spec fn has_tile_of_empty_sheet(&self, tilesheets: Seq<TileSheet>) -> bool {
        exists|i: int|
            0 <= i < self.tiles.len() && (#[trigger] self.tiles[i]).has_empty_sheet_in(tilesheets)
    }

    /// Whether every tile of the layer can be cut from its sheet.
    pub open spec fn drawable_from(&self, tilesheets: Seq<TileSheet>) -> bool {
        forall|i: int| 0 <= i < self.tiles.len() ==> (#[trigger] self.tiles[i]).drawable_from(tilesheets)
    }

    /// Looks for a tile at the cell `(x, y)`.
    pub fn has_tile_at(&self, x: i64, y: i64) -> (found: bool)
        ensures
            found == self.covers(x as int, y as int),
    {
        let mut i: usize = 0;
        while i < self.tiles.len()
            invariant
                i <= self.tiles.len(),
                forall|k: int| 0 <= k < i ==> !(self.tiles[k].x == x && self.tiles[k].y == y),
            decreases self.tiles.len() - i,
        {
            if self.tiles[i].x as i64 == x && self.tiles[i].y as i64 == y {
                return true;
            }
            i = i + 1;
        }
        false
    }

    /// The tiles with the frame that each shows at present: `current` holds
    /// the frames in the order in which the tiles were decoded. A tile for
    /// which it holds none stays on its frame.
    pub open spec fn refreshed(tiles: Seq<Tile>, current: Seq<u32>) -> Seq<Tile> {
        Seq::new(
            tiles.len(),
            |i: int|
                if tiles[i].source < current.len() {
                    Tile { index: current[tiles[i].source as int], ..tiles[i] }
                } else {
                    tiles[i]
                },
        )
    }

    /// Brings the tiles' frames up to date.
    pub fn refresh_indices(&mut self, current: &Vec<u32>)
        ensures
            final(self).tiles@ == Self::refreshed(old(self).tiles@, current@),
            final(self).id == old(self).id,
            final(self).visible == old(self).visible,
            final(self).width == old(self).width,
            final(self).height == old(self).height,
    {
        let mut i: usize = 0;
        while i < self.tiles.len()
            invariant
                i <= self.tiles.len(),
                self.tiles.len() == old(self).tiles.len(),
                self.id == old(self).id,
                self.visible == old(self).visible,
                self.width == old(self).width,
                self.height == old(self).height,
                forall|k: int|
                    0 <= k < i ==> self.tiles[k] == Self::refreshed(old(self).tiles@, current@)[k],
                forall|k: int| i <= k < self.tiles.len() ==> self.tiles[k] == old(self).tiles[k],
            decreases self.tiles.len() - i,
        {
            let tile = self.tiles[i];
            if tile.source < current.len() {
                self.tiles.set(i, Tile { index: current[tile.source], ..tile });
            }
            i = i + 1;
        }
    }

    /// Looks through the tiles for one whose sheet is not there and for one
    /// whose sheet has no columns.
    fn survey(&self, tilesheets: &Vec<TileSheet>) -> (found: (bool, bool))
        ensures
            found.0 == self.has_dangling_tile(tilesheets@),
            found.1 == self.has_tile_of_empty_sheet(tilesheets@),
    {
        let mut dangling = false;
        let mut empty = false;
        let mut i: usize = 0;
        while i < self.tiles.len()
            invariant
                i <= self.tiles.len(),
                dangling == exists|k: int|
                    0 <= k < i && !(#[trigger] self.tiles[k]).has_sheet_in(tilesheets@),
                empty == exists|k: int|
                    0 <= k < i && (#[trigger] self.tiles[k]).has_empty_sheet_in(tilesheets@),
            decreases self.tiles.len() - i,
        {
            let tile = self.tiles[i];
            if tile.sheet >= tilesheets.len() {
                dangling = true;
            } else if tilesheets[tile.sheet].cols == 0 {
                empty = true;
            }
            i = i + 1;
        }
        (dangling, empty)
    }
}

impl TileMap {
    /// The position of the layer that obstructs movement: the first one with
    /// the obstruction layer's id.
    pub open spec fn obstruction_layer_spec(&self) -> Option<usize> {
        first_with_id(layer_ids(self.layers@), "Buildings"@)
    }

    /// Finds the layer that obstructs movement.
    #[verifier::when_used_as_spec(obstruction_layer_spec)]
    pub fn obstruction_layer(&self) -> (found: Option<usize>)
        ensures
            found == self.obstruction_layer_spec(),
            found matches Some(i) ==> i < self.layers.len() && is_obstruction_id(
                self.layers[i as int].id@,
            ),
    {
        let id = obstruction_id();
        find_layer(&self.layers, &id)
    }

    /// Whether the map's length in pixels, taken from its first layer, can be
    /// said in a viewport coordinate on both axes.
    pub open spec fn fits_viewport(&self) -> bool
        recommends
            self.layers.len() > 0,
    {
        &&& self.layers[0].width * CELL <= i32::MAX
        &&& self.layers[0].height * CELL <= i32::MAX
    }

    /// Whether a tile of some layer names a sheet that is not there.
    pub open spec fn has_dangling_tile(&self) -> bool {
        exists|l: int|
            0 <= l < self.layers.len() && (#[trigger] self.layers[l]).has_dangling_tile(
                self.tilesheets@,
            )
    }

    /// Whether a tile of some layer is cut from a sheet without columns.
    pub open spec fn has_tile_of_empty_sheet(&self) -> bool {
        exists|l: int|
            0 <= l < self.layers.len() && (#[trigger] self.layers[l]).has_tile_of_empty_sheet(
                self.tilesheets@,
            )
    }

    /// A map that can be drawn: it has a layer, and every tile can be cut
    /// from a sheet of the map.
    pub open spec fn drawable(&self) -> bool {
        &&& self.layers.len() > 0
        &&& forall|l: int|
            0 <= l < self.layers.len() ==> (#[trigger] self.layers[l]).drawable_from(
                self.tilesheets@,
            )
    }

    /// A map that can be walked on: it has a layer, one of its layers
    /// obstructs movement, and its length fits a viewport coordinate.
    pub open spec fn walkable(&self) -> bool {
        &&& self.layers.len() > 0
        &&& self.obstruction_layer_spec() is Some
        &&& self.fits_viewport()
    }

    /// A map that can be drawn and walked on.
    pub open spec fn wf(&self) -> bool {
        self.drawable() && self.walkable()
    }

    /// What is wrong with the map, if anything; of several faults the first
    /// in the order of this list.
    pub open spec fn validated(&self) -> Result<(), SceneError> {
        if self.layers.len() == 0 {
            Err(SceneError::NoLayers)
        } else if self.obstruction_layer_spec() is None {
            Err(SceneError::NoObstructionLayer)
        } else if !self.fits_viewport() {
            Err(SceneError::MapTooLarge)
        } else if self.has_dangling_tile() {
            Err(SceneError::MissingTileSheet)
        } else if self.has_tile_of_empty_sheet() {
            Err(SceneError::EmptyTileSheet)
        } else {
            Ok(())
        }
    }

    /// A map is well formed exactly if nothing is wrong with it.
    pub proof fn lemma_validated_iff_wf(&self)
        ensures
            self.validated() is Ok <==> self.wf(),
    {
        if self.validated() is Ok {
            assert forall|l: int| 0 <= l < self.layers.len() implies (#[trigger] self.layers[l]).drawable_from(
                self.tilesheets@,
            ) by {
                let layer = self.layers[l];
                assert forall|i: int| 0 <= i < layer.tiles.len() implies (#[trigger] layer.tiles[i]).drawable_from(
                    self.tilesheets@,
                ) by {
                    if !layer.tiles[i].has_sheet_in(self.tilesheets@) {
                        assert(layer.has_dangling_tile(self.tilesheets@));
                    }
                    if layer.tiles[i].has_empty_sheet_in(self.tilesheets@) {
                        assert(layer.has_tile_of_empty_sheet(self.tilesheets@));
                    }
                }
            }
        }
        if self.wf() {
            if self.has_dangling_tile() {
                let l = choose|l: int|
                    0 <= l < self.layers.len() && (#[trigger] self.layers[l]).has_dangling_tile(
                        self.tilesheets@,
                    );
                let layer = self.layers[l];
                assert(layer.drawable_from(self.tilesheets@));
                let i = choose|i: int|
                    0 <= i < layer.tiles.len() && !(#[trigger] layer.tiles[i]).has_sheet_in(
                        self.tilesheets@,
                    );
                assert(layer.tiles[i].drawable_from(self.tilesheets@));
            }
            if self.has_tile_of_empty_sheet() {
                let l = choose|l: int|
                    0 <= l < self.layers.len() && (#[trigger] self.layers[l]).has_tile_of_empty_sheet(
                        self.tilesheets@,
                    );
                let layer = self.layers[l];
                assert(layer.drawable_from(self.tilesheets@));
                let i = choose|i: int|
                    0 <= i < layer.tiles.len() && (#[trigger] layer.tiles[i]).has_empty_sheet_in(
                        self.tilesheets@,
                    );
                assert(layer.tiles[i].drawable_from(self.tilesheets@));
            }
        }
    }

    /// Checks the map over and says what is wrong with it, if anything.
    pub fn validate(&self) -> (checked: Result<(), SceneError>)
        ensures
            checked == self.validated(),
            checked is Ok <==> self.wf(),
    {
        proof {
            self.lemma_validated_iff_wf();
        }
        if self.layers.len() == 0 {
            return Err(SceneError::NoLayers);
        }
        if self.obstruction_layer().is_none() {
            return Err(SceneError::NoObstructionLayer);
        }
        let limit: u32 = (i32::MAX as i64 / CELL) as u32;
        if self.layers[0].width > limit || self.layers[0].height > limit {
            return Err(SceneError::MapTooLarge);
        }
        let mut empty = false;
        let mut l: usize = 0;
        while l < self.layers.len()
            invariant
                l <= self.layers.len(),
                self.obstruction_layer_spec() is Some,
                self.fits_viewport(),
                forall|k: int|
                    0 <= k < l ==> !(#[trigger] self.layers[k]).has_dangling_tile(self.tilesheets@),
                empty == exists|k: int|
                    0 <= k < l && (#[trigger] self.layers[k]).has_tile_of_empty_sheet(
                        self.tilesheets@,
                    ),
            decreases self.layers.len() - l,
        {
            let found = self.layers[l].survey(&self.tilesheets);
            if found.0 {
                return Err(SceneError::MissingTileSheet);
            }
            if found.1 {
                empty = true;
            }
            l = l + 1;
        }
        if empty {
            Err(SceneError::EmptyTileSheet)
        } else {
            Ok(())
        }
    }

    /// The map's width and height in cells, which are those of its first
    /// layer.
    pub fn size(&self) -> (size: (u32, u32))
        requires
            self.layers.len() > 0,
        ensures
            size == (self.layers[0].width, self.layers[0].height),
    {
        (self.layers[0].width, self.layers[0].height)
    }

    /// Whether the cell `(x, y)` is obstructed: whether the layer that
    /// obstructs movement has a tile there.
    pub open spec fn obstructed_spec(&self, x: i64, y: i64) -> bool {
        match self.obstruction_layer_spec() {
            Some(l) => self.layers[l as int].covers(x as int, y as int),
            None => false,
        }
    }

    /// Probes the cell `(x, y)` for an obstruction.
    #[verifier::when_used_as_spec(obstructed_spec)]
    pub fn obstructed(&self, x: i64, y: i64) -> (hit: bool)
        requires
            self.obstruction_layer_spec() is Some,
        ensures
            hit == self.obstructed_spec(x, y),
    {
        match self.obstruction_layer() {
            Some(l) => self.layers[l].has_tile_at(x, y),
            None => false,
        }
    }
}

/// Whether `after` is `before` with the frames of the tiles of one layer
/// brought up to date, and the same in everything else.
pub open spec fn is_refreshed_map(before: TileMap, after: TileMap, layer: int, current: Seq<u32>) -> bool {
    &&& after.tilesheets == before.tilesheets
    &&& after.interleaved == before.interleaved
    &&& after.layers.len() == before.layers.len()
    &&& forall|l: int|
        0 <= l < before.layers.len() && l != layer ==> #[trigger] after.layers[l]
            == before.layers[l]
    &&& after.layers[layer].tiles@ == Layer::refreshed(before.layers[layer].tiles@, current)
    &&& after.layers[layer].id == before.layers[layer].id
    &&& after.layers[layer].visible == before.layers[layer].visible
    &&& after.layers[layer].width == before.layers[layer].width
    &&& after.layers[layer].height == before.layers[layer].height
}

/// Which frames the tiles show matters neither to whether the map is well
/// formed nor to which cells are obstructed.
pub proof fn lemma_refresh_keeps_map(before: TileMap, after: TileMap, layer: int, current: Seq<u32>)
    requires
        0 <= layer < before.layers.len(),
        is_refreshed_map(before, after, layer, current),
    ensures
        before.wf() ==> after.wf(),
        forall|x: i64, y: i64| before.obstructed_spec(x, y) == after.obstructed_spec(x, y),
{
    let ids = layer_ids(before.layers@);
    assert(layer_ids(after.layers@) == ids) by {
        assert forall|l: int| 0 <= l < ids.len() implies layer_ids(after.layers@)[l] == ids[l] by {
            if l != layer {
                assert(after.layers[l] == before.layers[l]);
            }
        }
    }
    let old_tiles = before.layers[layer].tiles@;
    let new_tiles = after.layers[layer].tiles@;
    if before.wf() {
        assert forall|l: int| 0 <= l < after.layers.len() implies (#[trigger] after.layers[l]).drawable_from(
            after.tilesheets@,
        ) by {
            assert(before.layers[l].drawable_from(before.tilesheets@));
            if l == layer {
                assert forall|i: int| 0 <= i < new_tiles.len() implies (#[trigger] new_tiles[i]).drawable_from(
                    after.tilesheets@,
                ) by {
                    assert(old_tiles[i].drawable_from(before.tilesheets@));
                }
            } else {
                assert(after.layers[l] == before.layers[l]);
            }
        }
        if layer != 0 {
            assert(after.layers[0] == before.layers[0]);
        }
    }
    assert forall|x: i64, y: i64| before.obstructed_spec(x, y) == after.obstructed_spec(x, y) by {
        match before.obstruction_layer_spec() {
            Some(l) => {
                lemma_first_with_id(ids, "Buildings"@, l as int);
                if l == layer {
                    if before.layers[layer].covers(x as int, y as int) {
                        let i = choose|i: int|
                            0 <= i < old_tiles.len() && old_tiles[i].x == x && old_tiles[i].y == y;
                        assert(new_tiles[i].x == x && new_tiles[i].y == y);
                    }
                    if after.layers[layer].covers(x as int, y as int) {
                        let i = choose|i: int|
                            0 <= i < new_tiles.len() && new_tiles[i].x == x && new_tiles[i].y == y;
                        assert(old_tiles[i].x == x && old_tiles[i].y == y);
                    }
                } else {
                    assert(after.layers[l as int] == before.layers[l as int]);
                }
            },
            None => {},
        }
    }
}

impl TileMap {
    /// Brings the frames of the tiles of one layer up to date: `current`
    /// holds the frames in the order in which the layer's tiles were decoded.
    pub fn refresh_layer(&mut self, layer: usize, current: &Vec<u32>)
        requires
            layer < old(self).layers.len(),
        ensures
            is_refreshed_map(*old(self), *final(self), layer as int, current@),
            old(self).wf() ==> final(self).wf(),
            forall|x: i64, y: i64| old(self).obstructed_spec(x, y) == final(self).obstructed_spec(x, y),
    {
        self.layers[layer].refresh_indices(current);
        proof {
            lemma_refresh_keeps_map(*old(self), *self, layer as int, current@);
        }
    }
}

} // verus!
