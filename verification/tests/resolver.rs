use tile_scene::direction::{Direction, DirectionTable};
use tile_scene::geometry::{image_for_tile_reference, Image, Rect};
use tile_scene::sprite::{image_for_texture, SpriteFrameSet, TextureId};

fn rect(x: i64, y: i64, w: i64, h: i64) -> Rect {
    Rect { x, y, w, h }
}

#[test]
fn index_five_on_four_columns() {
    let image = image_for_tile_reference(4, (16, 16), 5, 0, (0, 0), (0, 0), (0, 0), (0, 0), false);
    assert_eq!(image.src_rect, rect(16, 16, 16, 16));
}

#[test]
fn index_five_on_four_columns_flipped() {
    let image = image_for_tile_reference(4, (16, 16), 5, 0, (0, 0), (0, 0), (0, 0), (0, 0), true);
    assert_eq!(image.src_rect, rect(32, 16, -16, 16));
}

#[test]
fn row_offset_moves_down_by_whole_rows() {
    let image = image_for_tile_reference(4, (16, 32), 5, 3, (0, 0), (0, 0), (0, 0), (0, 0), false);
    assert_eq!(image.src_rect, rect(16, 128, 16, 32));
}

#[test]
fn index_zero_is_the_sheet_corner() {
    let image = image_for_tile_reference(1, (8, 8), 0, 0, (0, 0), (0, 0), (0, 0), (0, 0), false);
    assert_eq!(image.src_rect, rect(0, 0, 8, 8));
}

#[test]
fn single_column_sheet_stacks_frames() {
    let image = image_for_tile_reference(1, (8, 8), 7, 0, (0, 0), (0, 0), (0, 0), (0, 0), false);
    assert_eq!(image.src_rect, rect(0, 56, 8, 8));
}

#[test]
fn largest_inputs_do_not_overflow() {
    let image = image_for_tile_reference(
        u32::MAX,
        (u16::MAX, u16::MAX),
        u32::MAX - 1,
        u32::MAX,
        (i32::MAX, i32::MIN),
        (i32::MAX, i32::MIN),
        (i32::MAX, i32::MIN),
        (i32::MIN, i32::MAX),
        true,
    );
    let w = u16::MAX as i64;
    assert_eq!(image.src_rect, rect((u32::MAX as i64 - 1) * w + w, u32::MAX as i64 * w, -w, w));
    assert_eq!(
        image.rect,
        rect(
            i32::MAX as i64 * 16 + 2 * i32::MAX as i64 - i32::MIN as i64,
            i32::MIN as i64 * 16 + 2 * i32::MIN as i64 - i32::MAX as i64,
            w,
            w
        )
    );
}

#[test]
fn destination_adds_offsets_and_subtracts_view() {
    let image =
        image_for_tile_reference(4, (16, 16), 0, 0, (10, 15), (4, 15), (-3, 7), (100, 200), false);
    assert_eq!(image.rect, rect(10 * 16 + 4 - 3 - 100, 15 * 16 + 15 + 7 - 200, 16, 16));
}

#[test]
fn destination_can_be_negative() {
    let image =
        image_for_tile_reference(4, (16, 16), 0, 0, (-2, -1), (0, 0), (0, 0), (5, 5), false);
    assert_eq!(image.rect, rect(-37, -21, 16, 16));
}

#[test]
fn resolving_twice_gives_the_same_image() {
    let once = image_for_tile_reference(7, (16, 24), 23, 2, (3, 4), (1, 2), (5, 6), (9, 9), true);
    let again = image_for_tile_reference(7, (16, 24), 23, 2, (3, 4), (1, 2), (5, 6), (9, 9), true);
    assert_eq!(once, again);
}

fn body() -> SpriteFrameSet {
    SpriteFrameSet {
        texture: TextureId(3),
        sheet_width: 96,
        index: 24,
        frame_size: (16, 16),
        draw_offset: (0, 16),
        rows: DirectionTable { down: Some(0), right: Some(2), up: Some(4), left: Some(2) },
    }
}

#[test]
fn sprite_frame_at_rest_facing_down() {
    let image = image_for_texture(&body(), (10, 15), (0, 0), (0, 0), None, Direction::Down).unwrap();
    // 96 / 16 = 6 frames per row; index 24 is column 0 of row 4.
    assert_eq!(image, Image { src_rect: rect(0, 64, 16, 16), rect: rect(160, 256, 16, 16) });
}

#[test]
fn sprite_frame_steps_with_the_walk() {
    let at = |ms: u32| {
        image_for_texture(&body(), (0, 0), (0, 0), (0, 0), Some((ms, 3)), Direction::Down)
            .unwrap()
            .src_rect
    };
    assert_eq!(at(0), rect(0, 64, 16, 16));
    assert_eq!(at(149), rect(0, 64, 16, 16));
    assert_eq!(at(150), rect(16, 64, 16, 16));
    assert_eq!(at(300), rect(32, 64, 16, 16));
    assert_eq!(at(450), rect(0, 64, 16, 16));
}

#[test]
fn sprite_row_block_follows_direction() {
    let up = image_for_texture(&body(), (0, 0), (0, 0), (0, 0), None, Direction::Up).unwrap();
    assert_eq!(up.src_rect, rect(0, (4 + 4) * 16, 16, 16));
    let right = image_for_texture(&body(), (0, 0), (0, 0), (0, 0), None, Direction::Right).unwrap();
    assert_eq!(right.src_rect, rect(0, (4 + 2) * 16, 16, 16));
}

#[test]
fn sprite_is_mirrored_facing_left_on_shared_rows() {
    let left = image_for_texture(&body(), (0, 0), (0, 0), (0, 0), None, Direction::Left).unwrap();
    assert_eq!(left.src_rect, rect(16, (4 + 2) * 16, -16, 16));
}

#[test]
fn sprite_is_not_mirrored_with_rows_of_its_own() {
    let mut shirt = body();
    shirt.rows = DirectionTable { down: Some(0), right: Some(1), up: Some(3), left: Some(2) };
    let left = image_for_texture(&shirt, (0, 0), (0, 0), (0, 0), None, Direction::Left).unwrap();
    assert_eq!(left.src_rect, rect(0, (4 + 2) * 16, 16, 16));
}

#[test]
fn sprite_without_row_is_not_drawn() {
    let mut accessory = body();
    accessory.rows = DirectionTable { down: Some(0), right: Some(1), up: None, left: Some(1) };
    assert_eq!(image_for_texture(&accessory, (0, 0), (0, 0), (0, 0), None, Direction::Up), None);
    assert!(image_for_texture(&accessory, (0, 0), (0, 0), (0, 0), None, Direction::Down).is_some());
}

#[test]
fn sprite_destination_uses_both_offsets() {
    let image =
        image_for_texture(&body(), (2, 3), (10, 20), (-7, 7), None, Direction::Down).unwrap();
    assert_eq!(image.rect, rect(32 + 0 - 7 - 10, 48 + 16 + 7 - 20, 16, 16));
}

#[test]
fn sprite_check_tells_usable_sheets() {
    assert!(body().check());
    let mut narrow = body();
    narrow.sheet_width = 15;
    assert!(!narrow.check());
    let mut flat = body();
    flat.frame_size = (0, 16);
    assert!(!flat.check());
}

#[test]
fn direction_ordinals() {
    assert_eq!(Direction::Down.ordinal(), 0);
    assert_eq!(Direction::Right.ordinal(), 1);
    assert_eq!(Direction::Up.ordinal(), 2);
    assert_eq!(Direction::Left.ordinal(), 3);
    for n in 0..4u8 {
        assert_eq!(Direction::from_ordinal(n).unwrap().ordinal(), n);
    }
    assert_eq!(Direction::from_ordinal(4), None);
}

#[test]
fn script_codes_count_clockwise_from_up() {
    assert_eq!(Direction::from_script_code(0), Some(Direction::Up));
    assert_eq!(Direction::from_script_code(1), Some(Direction::Right));
    assert_eq!(Direction::from_script_code(2), Some(Direction::Down));
    assert_eq!(Direction::from_script_code(3), Some(Direction::Left));
    assert_eq!(Direction::from_script_code(4), None);
    assert_eq!(Direction::from_script_code(255), None);
}

#[test]
fn direction_table_in_ordinal_order() {
    let table = DirectionTable::from_rows([Some(0), Some(1), None, Some(1)]);
    assert_eq!(table.row(Direction::Down), Some(0));
    assert_eq!(table.row(Direction::Right), Some(1));
    assert_eq!(table.row(Direction::Up), None);
    assert_eq!(table.row(Direction::Left), Some(1));
    assert!(table.mirrored(Direction::Left));
    assert!(!table.mirrored(Direction::Right));
    assert!(!table.mirrored(Direction::Down));
}
