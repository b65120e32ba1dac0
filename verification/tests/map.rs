use tile_scene::row_major::{precedes, sort_row_major};
use tile_scene::sprite::TextureId;
use tile_scene::tilemap::{
    find_layer, find_texture, find_tilesheet, obstruction_id, paths_id, resolve_tile, Layer,
    SceneError, TextureBinding, Tile, TileMap, TileSheet,
};

fn sheet(id: &str, cols: u32) -> TileSheet {
    TileSheet { id: id.to_string(), tile_w: 16, tile_h: 16, cols, rows: 4 }
}

fn tile(sheet: usize, x: i32, y: i32) -> Tile {
    Tile { sheet, texture: TextureId(sheet as u32), source: 0, index: 0, x, y }
}

fn layer(id: &str, tiles: Vec<Tile>) -> Layer {
    Layer { id: id.to_string(), visible: true, width: 40, height: 30, tiles }
}

fn bind(id: &str, texture: u32) -> TextureBinding {
    TextureBinding { tilesheet: id.to_string(), texture: TextureId(texture) }
}

fn town() -> TileMap {
    TileMap {
        tilesheets: vec![sheet("outdoors", 8), sheet("town", 4)],
        layers: vec![
            layer("Back", vec![tile(0, 0, 0), tile(0, 1, 0)]),
            layer("Buildings", vec![tile(1, 3, 4), tile(1, 5, 6)]),
            layer("Front", vec![]),
        ],
        interleaved: 1,
    }
}

#[test]
fn layer_ids() {
    assert_eq!(obstruction_id(), "Buildings");
    assert_eq!(paths_id(), "Paths");
}

#[test]
fn finds_the_first_sheet_of_a_name() {
    let sheets = vec![sheet("a", 1), sheet("b", 1), sheet("a", 2)];
    assert_eq!(find_tilesheet(&sheets, &"a".to_string()), Some(0));
    assert_eq!(find_tilesheet(&sheets, &"b".to_string()), Some(1));
    assert_eq!(find_tilesheet(&sheets, &"c".to_string()), None);
    assert_eq!(find_tilesheet(&vec![], &"a".to_string()), None);
}

#[test]
fn finds_the_first_layer_of_a_name() {
    let map = town();
    assert_eq!(find_layer(&map.layers, &"Buildings".to_string()), Some(1));
    assert_eq!(find_layer(&map.layers, &"buildings".to_string()), None);
}

#[test]
fn later_binding_replaces_earlier() {
    let bindings = vec![bind("a", 1), bind("b", 2), bind("a", 3)];
    assert_eq!(find_texture(&bindings, &"a".to_string()), Some(TextureId(3)));
    assert_eq!(find_texture(&bindings, &"b".to_string()), Some(TextureId(2)));
    assert_eq!(find_texture(&bindings, &"c".to_string()), None);
}

#[test]
fn resolves_a_tile() {
    let sheets = vec![sheet("outdoors", 8), sheet("town", 4)];
    let bindings = vec![bind("town", 7), bind("outdoors", 9)];
    assert_eq!(
        resolve_tile(&sheets, &bindings, &"town".to_string(), 5, 12, (3, 4)),
        Ok(Tile { sheet: 1, texture: TextureId(7), source: 5, index: 12, x: 3, y: 4 })
    );
}

#[test]
fn tile_without_texture() {
    let sheets = vec![sheet("town", 4)];
    let bindings = vec![bind("outdoors", 9)];
    assert_eq!(
        resolve_tile(&sheets, &bindings, &"town".to_string(), 0, 0, (0, 0)),
        Err(SceneError::MissingTexture)
    );
}

#[test]
fn tile_without_sheet() {
    let sheets = vec![sheet("town", 4)];
    let bindings = vec![bind("outdoors", 9)];
    assert_eq!(
        resolve_tile(&sheets, &bindings, &"outdoors".to_string(), 0, 0, (0, 0)),
        Err(SceneError::MissingTileSheet)
    );
}

#[test]
fn tile_without_either_reports_the_texture() {
    assert_eq!(
        resolve_tile(&vec![], &vec![], &"x".to_string(), 0, 0, (0, 0)),
        Err(SceneError::MissingTexture)
    );
}

#[test]
fn town_is_valid() {
    assert_eq!(town().validate(), Ok(()));
}

#[test]
fn map_without_layers() {
    let mut map = town();
    map.layers.clear();
    assert_eq!(map.validate(), Err(SceneError::NoLayers));
}

#[test]
fn map_without_obstruction_layer() {
    let mut map = town();
    map.layers[1].id = "Walls".to_string();
    assert_eq!(map.validate(), Err(SceneError::NoObstructionLayer));
}

#[test]
fn map_too_large() {
    let mut map = town();
    map.layers[0].width = 134_217_727;
    assert_eq!(map.validate(), Ok(()));
    map.layers[0].width = 134_217_728;
    assert_eq!(map.validate(), Err(SceneError::MapTooLarge));
    map.layers[0].width = 40;
    map.layers[0].height = u32::MAX;
    assert_eq!(map.validate(), Err(SceneError::MapTooLarge));
}

#[test]
fn only_the_first_layer_gives_the_size() {
    let mut map = town();
    map.layers[2].width = u32::MAX;
    assert_eq!(map.validate(), Ok(()));
    assert_eq!(map.size(), (40, 30));
}

#[test]
fn map_with_dangling_tile() {
    let mut map = town();
    map.layers[2].tiles.push(tile(2, 0, 0));
    assert_eq!(map.validate(), Err(SceneError::MissingTileSheet));
}

#[test]
fn map_with_tile_of_empty_sheet() {
    let mut map = town();
    map.tilesheets[1].cols = 0;
    assert_eq!(map.validate(), Err(SceneError::EmptyTileSheet));
}

#[test]
fn unused_empty_sheet_does_no_harm() {
    let mut map = town();
    map.tilesheets.push(sheet("spare", 0));
    assert_eq!(map.validate(), Ok(()));
}

#[test]
fn dangling_tile_is_reported_before_empty_sheet() {
    let mut map = town();
    map.tilesheets[0].cols = 0;
    map.layers[2].tiles.push(tile(9, 0, 0));
    assert_eq!(map.validate(), Err(SceneError::MissingTileSheet));
}

#[test]
fn missing_obstruction_is_reported_before_tiles() {
    let mut map = town();
    map.layers[1].id = "Walls".to_string();
    map.layers[2].tiles.push(tile(9, 0, 0));
    assert_eq!(map.validate(), Err(SceneError::NoObstructionLayer));
}

#[test]
fn obstruction_layer_is_the_first_of_its_name() {
    let mut map = town();
    map.layers.push(layer("Buildings", vec![tile(0, 9, 9)]));
    assert_eq!(map.obstruction_layer(), Some(1));
    assert!(!map.obstructed(9, 9));
    assert!(map.obstructed(3, 4));
}

#[test]
fn probe_finds_tiles_of_the_obstruction_layer_only() {
    let map = town();
    assert!(map.obstructed(3, 4));
    assert!(map.obstructed(5, 6));
    assert!(!map.obstructed(4, 3));
    assert!(!map.obstructed(0, 0));
    assert!(!map.obstructed(i32::MAX as i64 + 1, 0));
}

#[test]
fn layer_has_tile_at() {
    let back = layer("Back", vec![tile(0, -1, 2), tile(0, 7, 7)]);
    assert!(back.has_tile_at(-1, 2));
    assert!(back.has_tile_at(7, 7));
    assert!(!back.has_tile_at(2, -1));
}

#[test]
fn row_major_order() {
    assert!(precedes(&tile(0, 5, 1), &tile(0, 0, 2)));
    assert!(precedes(&tile(0, 1, 2), &tile(0, 2, 2)));
    assert!(precedes(&tile(0, 2, 2), &tile(1, 2, 2)));
    assert!(!precedes(&tile(0, 3, 2), &tile(0, 2, 2)));
    assert!(!precedes(&tile(0, 0, 3), &tile(0, 9, 2)));
}

#[test]
fn sorts_rows_then_columns() {
    let mut tiles = vec![tile(0, 2, 1), tile(0, 0, 1), tile(0, 5, 0), tile(0, 1, 1), tile(0, 0, 0)];
    sort_row_major(&mut tiles);
    let cells: Vec<(i32, i32)> = tiles.iter().map(|t| (t.x, t.y)).collect();
    assert_eq!(cells, vec![(0, 0), (5, 0), (0, 1), (1, 1), (2, 1)]);
}

#[test]
fn sort_keeps_tiles_of_one_cell_in_order() {
    let mut tiles = vec![tile(3, 1, 1), tile(1, 0, 0), tile(2, 1, 1), tile(0, 1, 1)];
    sort_row_major(&mut tiles);
    let sheets: Vec<usize> = tiles.iter().map(|t| t.sheet).collect();
    assert_eq!(sheets, vec![1, 3, 2, 0]);
}

#[test]
fn sort_of_nothing_and_of_one() {
    let mut none: Vec<Tile> = vec![];
    sort_row_major(&mut none);
    assert!(none.is_empty());
    let mut one = vec![tile(0, 3, 3)];
    sort_row_major(&mut one);
    assert_eq!(one, vec![tile(0, 3, 3)]);
}

#[test]
fn sort_leaves_sorted_tiles_alone() {
    let sorted = vec![tile(0, 0, 0), tile(1, 0, 0), tile(0, 1, 0), tile(0, -4, 1)];
    let mut tiles = sorted.clone();
    sort_row_major(&mut tiles);
    assert_eq!(tiles, sorted);
}

#[test]
fn sort_handles_negative_cells() {
    let mut tiles = vec![tile(0, 0, 0), tile(0, -1, 0), tile(0, 0, -1)];
    sort_row_major(&mut tiles);
    let cells: Vec<(i32, i32)> = tiles.iter().map(|t| (t.x, t.y)).collect();
    assert_eq!(cells, vec![(0, -1), (-1, 0), (0, 0)]);
}

#[test]
fn sorting_a_map_sorts_every_layer() {
    let mut map = town();
    map.layers[0].tiles = vec![tile(0, 1, 1), tile(0, 0, 1), tile(0, 3, 0)];
    map.layers[1].tiles = vec![tile(1, 5, 6), tile(1, 3, 4)];
    let before = map.clone();
    map.sort_layers();
    assert_eq!(map.layers[0].tiles, vec![tile(0, 3, 0), tile(0, 0, 1), tile(0, 1, 1)]);
    assert_eq!(map.layers[1].tiles, vec![tile(1, 3, 4), tile(1, 5, 6)]);
    assert_eq!(map.layers[2].tiles, vec![]);
    assert_eq!(map.tilesheets, before.tilesheets);
    assert_eq!(map.interleaved, before.interleaved);
    for (a, b) in map.layers.iter().zip(before.layers.iter()) {
        assert_eq!((&a.id, a.visible, a.width, a.height), (&b.id, b.visible, b.width, b.height));
    }
    assert_eq!(map.validate(), Ok(()));
    assert!(map.obstructed(3, 4));
}

#[test]
fn layer_sort() {
    let mut l = layer("Back", vec![tile(0, 1, 0), tile(0, 0, 0)]);
    l.sort_tiles();
    assert_eq!(l.tiles, vec![tile(0, 0, 0), tile(0, 1, 0)]);
    assert_eq!(l.id, "Back");
}

#[test]
fn refresh_finds_tiles_again_after_sorting() {
    let at = |source: usize, x: i32| Tile {
        sheet: 0,
        texture: TextureId(0),
        source,
        index: 100,
        x,
        y: 0,
    };
    let mut l = layer("Back", vec![at(0, 2), at(1, 0), at(2, 1), at(7, 3)]);
    l.sort_tiles();
    l.refresh_indices(&vec![10, 11, 12]);
    let frames: Vec<(usize, u32)> = l.tiles.iter().map(|t| (t.source, t.index)).collect();
    assert_eq!(frames, vec![(1, 11), (2, 12), (0, 10), (7, 100)]);
    assert_eq!(l.id, "Back");
}
