use tile_scene::camera::Camera;
use tile_scene::compositor::compose;
use tile_scene::direction::Direction;
use tile_scene::engine::App;
use tile_scene::input::MoveKey;
use tile_scene::player::{Player, SheetHandle, CLAMPED, HALF_CELL};
use tile_scene::sprite::TextureId;
use tile_scene::tilemap::{Layer, Tile, TileMap, TileSheet};

fn farmer() -> Player {
    Player::farmer(
        SheetHandle { texture: TextureId(0), width: 96 },
        SheetHandle { texture: TextureId(1), width: 128 },
        SheetHandle { texture: TextureId(2), width: 128 },
        SheetHandle { texture: TextureId(3), width: 128 },
    )
}

fn map_with_obstacles(cells: &[(i32, i32)]) -> TileMap {
    let tiles =
        cells.iter().map(|&(x, y)| Tile { sheet: 0, texture: TextureId(9), source: 0, index: 0, x, y }).collect();
    let layer = |id: &str, tiles: Vec<Tile>| Layer {
        id: id.to_string(),
        visible: true,
        width: 100,
        height: 100,
        tiles,
    };
    TileMap {
        tilesheets: vec![TileSheet {
            id: "town".to_string(),
            tile_w: 16,
            tile_h: 16,
            cols: 4,
            rows: 4,
        }],
        layers: vec![layer("Back", vec![]), layer("Buildings", tiles), layer("Front", vec![])],
        interleaved: 1,
    }
}

fn app() -> App {
    App::new(Camera { view_x: 0, view_y: 0, view_w: 900, view_h: 600 })
}

#[test]
fn new_engine() {
    let a = app();
    assert_eq!(a.ticks, 0);
    assert!(!a.input.any_held());
    assert!(!a.input.update_last_move);
}

#[test]
fn update_advances_the_clock_by_whole_milliseconds() {
    let mut a = app();
    let mut p = farmer();
    let map = map_with_obstacles(&[]);
    a.update(8_333, &mut p, &map);
    assert_eq!(a.ticks, 8);
    a.update(999, &mut p, &map);
    assert_eq!(a.ticks, 8);
    a.update(1_000, &mut p, &map);
    assert_eq!(a.ticks, 9);
}

#[test]
fn idle_update_leaves_the_player() {
    let mut a = app();
    let mut p = farmer();
    a.update(16_000, &mut p, &map_with_obstacles(&[]));
    assert_eq!(p, farmer());
}

#[test]
fn pressed_key_turns_and_moves_the_player() {
    let mut a = app();
    let mut p = farmer();
    let map = map_with_obstacles(&[]);
    a.key_pressed(MoveKey::Right);
    a.update(10_000, &mut p, &map);
    assert_eq!(p.dir, Direction::Right);
    assert_eq!(p.last_move_start, Some(10));
    assert_eq!((p.x, p.offset_x), (10, 10_000));
    assert_eq!((p.y, p.offset_y), (15, 0));
    assert!(!a.input.update_last_move);
    a.update(10_000, &mut p, &map);
    assert_eq!(p.last_move_start, Some(10));
    assert_eq!((p.x, p.offset_x), (10, 20_000));
}

#[test]
fn release_stops_the_motion_and_keeps_the_facing() {
    let mut a = app();
    let mut p = farmer();
    let map = map_with_obstacles(&[]);
    a.key_pressed(MoveKey::Left);
    a.update(10_000, &mut p, &map);
    a.key_released(MoveKey::Left);
    a.update(10_000, &mut p, &map);
    assert_eq!(p.dir, Direction::Left);
    assert_eq!(p.last_move_start, None);
    assert_eq!((p.x, p.offset_x), (10, -10_000));
}

#[test]
fn walking_crosses_into_the_next_cell() {
    let mut a = app();
    let mut p = farmer();
    p.offset_x = 79_000;
    a.key_pressed(MoveKey::Right);
    a.update(3_000, &mut p, &map_with_obstacles(&[]));
    assert_eq!((p.x, p.offset_x), (11, -HALF_CELL));
}

#[test]
fn obstruction_below_the_target_cell_holds_the_player() {
    let mut a = app();
    let mut p = farmer();
    p.offset_x = 79_000;
    a.key_pressed(MoveKey::Right);
    // The move leads to cell (11, 15); the feet would stand on (11, 16).
    a.update(3_000, &mut p, &map_with_obstacles(&[(11, 16)]));
    assert_eq!((p.x, p.offset_x), (10, CLAMPED));
}

#[test]
fn obstruction_in_the_target_cell_itself_does_not_hold() {
    let mut a = app();
    let mut p = farmer();
    p.offset_x = 79_000;
    a.key_pressed(MoveKey::Right);
    a.update(3_000, &mut p, &map_with_obstacles(&[(11, 15)]));
    assert_eq!((p.x, p.offset_x), (11, -HALF_CELL));
}

#[test]
fn one_probe_decides_for_both_axes() {
    let mut a = app();
    let mut p = farmer();
    p.offset_x = 79_000;
    p.offset_y = -79_000;
    a.key_pressed(MoveKey::Right);
    a.key_pressed(MoveKey::Up);
    // The move leads to (11, 14); the probe is at (11, 15).
    a.update(3_000, &mut p, &map_with_obstacles(&[(11, 15)]));
    assert_eq!((p.x, p.offset_x), (10, CLAMPED));
    assert_eq!((p.y, p.offset_y), (15, -CLAMPED));
}

#[test]
fn obstruction_under_the_feet_does_not_hinder_a_move_inside_the_cell() {
    let mut a = app();
    let mut p = farmer();
    a.key_pressed(MoveKey::Down);
    a.update(3_000, &mut p, &map_with_obstacles(&[(10, 16)]));
    assert_eq!((p.y, p.offset_y), (15, 3_000));
}

#[test]
fn update_moves_the_view_after_the_player() {
    let mut a = app();
    let mut p = farmer();
    p.x = 40;
    p.y = 30;
    a.update(0, &mut p, &map_with_obstacles(&[]));
    // Player at (640, 480); the view shows 600 by 400 map pixels.
    assert_eq!((a.camera.view_x, a.camera.view_y), (640 - 400, 480 - 266));
}

#[test]
fn update_keeps_the_view_on_the_map() {
    let mut a = app();
    let mut p = farmer();
    p.x = 5_000;
    p.y = -5_000;
    a.update(0, &mut p, &map_with_obstacles(&[]));
    // The map is 1600 pixels long and the view shows 600 of them.
    assert_eq!((a.camera.view_x, a.camera.view_y), (1600 - 600, 0));
}

#[test]
fn update_keeps_the_far_edge_of_the_view_on_the_map() {
    // A window 800 wide shows 533 map pixels; the player stands in cell 98.
    let mut a = App::new(Camera { view_x: 0, view_y: 0, view_w: 800, view_h: 600 });
    let mut p = farmer();
    p.x = 98;
    a.update(0, &mut p, &map_with_obstacles(&[]));
    assert_eq!(a.camera.view_x, 1600 - 533);
}

#[test]
fn update_can_be_checked_beforehand() {
    let map = map_with_obstacles(&[(5, 5)]);
    let a = app();
    assert!(a.check_update(&farmer(), &map, 16_000));
    let mut late = app();
    late.ticks = u32::MAX - 15;
    assert!(late.check_update(&farmer(), &map, 15_999));
    assert!(!late.check_update(&farmer(), &map, 16_000));
    let mut edge = farmer();
    edge.x = i32::MAX;
    edge.offset_x = HALF_CELL;
    let mut walking = app();
    walking.key_pressed(MoveKey::Right);
    assert!(!walking.check_update(&edge, &map, 1));
    assert!(walking.check_update(&edge, &map, 0));
}

#[test]
fn render_takes_the_window_and_composes() {
    let mut a = app();
    let p = farmer();
    let map = map_with_obstacles(&[(9, 16), (10, 16)]);
    let ops = a.render((1024, 768), &p, &vec![], &map);
    assert_eq!((a.camera.view_w, a.camera.view_h), (1024, 768));
    assert_eq!((a.camera.view_x, a.camera.view_y), (0, 0));
    assert_eq!(ops, compose(&map, a.camera, 0, &p, &vec![]));
    assert_eq!(ops.len(), 2 + 7);
    assert_eq!(ops[0].texture, TextureId(9));
    assert_eq!(ops[1].texture, TextureId(0));
    assert_eq!(ops[8].texture, TextureId(9));
}

#[test]
fn render_shows_the_walk_of_the_moment() {
    let mut a = app();
    let mut p = farmer();
    let free = map_with_obstacles(&[]);
    a.key_pressed(MoveKey::Down);
    a.update(1_000, &mut p, &free);
    a.update(150_000, &mut p, &free);
    assert_eq!(a.ticks, 151);
    assert_eq!(p.last_move_start, Some(1));
    assert_eq!((p.y, p.offset_y), (16, -HALF_CELL));
    let map = map_with_obstacles(&[(9, 17), (10, 17)]);
    let ops = a.render((900, 600), &p, &vec![], &map);
    assert_eq!(ops.len(), 2 + 7);
    // 150 ms into the walk the body is on its second frame.
    assert_eq!(ops[1].texture, TextureId(0));
    assert_eq!(ops[1].image.src_rect.x, 16);
    assert_eq!(ops[1].image.rect.y, 16 * 16 - 8 - a.camera.view_y as i64);
}

#[test]
fn motion_is_in_step_with_the_clock() {
    let mut a = app();
    a.ticks = 100;
    let mut p = farmer();
    assert!(a.is_in_step_with(p));
    p.last_move_start = Some(100);
    assert!(a.is_in_step_with(p));
    p.last_move_start = Some(101);
    assert!(!a.is_in_step_with(p));
}

#[test]
fn updates_keep_motion_in_step() {
    let mut a = app();
    let mut p = farmer();
    let map = map_with_obstacles(&[]);
    a.key_pressed(MoveKey::Up);
    for _ in 0..10 {
        a.update(16_667, &mut p, &map);
        assert!(a.is_in_step_with(p));
        assert!(p.check());
    }
    assert_eq!(a.ticks, 160);
    assert_eq!(p.last_move_start, Some(16));
    // Ten steps of 16 667 units up from the middle of cell 15: the fifth
    // crosses the edge and lands on the far edge of cell 14; five more
    // steps from there.
    assert_eq!((p.y, p.offset_y), (14, HALF_CELL - 5 * 16_667));
}
