use tile_scene::direction::Direction;
use tile_scene::input::{Facing, InputState, MoveKey};

fn held(up: bool, down: bool, left: bool, right: bool) -> InputState {
    InputState {
        w_pressed: up,
        s_pressed: down,
        a_pressed: left,
        d_pressed: right,
        update_last_move: false,
    }
}

fn resting(dir: Direction) -> Facing {
    Facing { dir, last_move_start: None }
}

#[test]
fn nothing_held_at_first() {
    let input = InputState::new();
    assert_eq!(input, held(false, false, false, false));
    assert!(!input.any_held());
}

#[test]
fn press_marks_and_holds() {
    let mut input = InputState::new();
    input.key_pressed(MoveKey::Up);
    assert!(input.w_pressed && input.update_last_move);
    assert!(input.held(MoveKey::Up));
    assert!(!input.held(MoveKey::Down));
}

#[test]
fn repeat_of_a_held_key_does_not_mark() {
    let mut input = held(true, false, false, false);
    input.key_pressed(MoveKey::Up);
    assert_eq!(input, held(true, false, false, false));
}

#[test]
fn release_marks_and_lets_go() {
    let mut input = held(false, false, true, false);
    input.key_released(MoveKey::Left);
    assert!(!input.a_pressed && input.update_last_move);
}

#[test]
fn release_of_a_key_not_held_does_not_mark() {
    let mut input = held(true, false, false, false);
    input.key_released(MoveKey::Right);
    assert_eq!(input, held(true, false, false, false));
}

#[test]
fn each_key_has_its_flag() {
    for (key, expect) in [
        (MoveKey::Up, held(true, false, false, false)),
        (MoveKey::Down, held(false, true, false, false)),
        (MoveKey::Left, held(false, false, true, false)),
        (MoveKey::Right, held(false, false, false, true)),
    ] {
        let mut input = InputState::new();
        input.key_pressed(key);
        input.update_last_move = false;
        assert_eq!(input, expect);
    }
}

#[test]
fn up_alone_faces_up() {
    assert_eq!(held(true, false, false, false).facing(Direction::Down), Direction::Up);
}

#[test]
fn right_wins_over_all() {
    assert_eq!(held(true, false, false, true).facing(Direction::Down), Direction::Right);
    assert_eq!(held(true, true, true, true).facing(Direction::Down), Direction::Right);
}

#[test]
fn left_wins_over_up_and_down() {
    assert_eq!(held(true, true, true, false).facing(Direction::Right), Direction::Left);
}

#[test]
fn down_wins_over_up() {
    assert_eq!(held(true, true, false, false).facing(Direction::Right), Direction::Down);
}

#[test]
fn nothing_held_keeps_the_facing() {
    for dir in [Direction::Down, Direction::Right, Direction::Up, Direction::Left] {
        assert_eq!(held(false, false, false, false).facing(dir), dir);
    }
}

#[test]
fn repress_up_then_right_faces_right() {
    let mut input = InputState::new();
    input.key_pressed(MoveKey::Up);
    input.key_pressed(MoveKey::Right);
    input.key_released(MoveKey::Up);
    input.key_pressed(MoveKey::Up);
    input.key_released(MoveKey::Right);
    input.key_pressed(MoveKey::Right);
    let now = input.refresh_facing(resting(Direction::Down), 77);
    assert_eq!(now, Facing { dir: Direction::Right, last_move_start: Some(77) });
    assert!(!input.update_last_move);
}

#[test]
fn refresh_without_mark_changes_nothing() {
    let mut input = held(true, false, false, false);
    let facing = Facing { dir: Direction::Left, last_move_start: Some(5) };
    assert_eq!(input.refresh_facing(facing, 100), facing);
    assert_eq!(input, held(true, false, false, false));
}

#[test]
fn refresh_restarts_the_motion() {
    let mut input = held(false, true, false, false);
    input.update_last_move = true;
    let now = input.refresh_facing(Facing { dir: Direction::Up, last_move_start: Some(5) }, 100);
    assert_eq!(now, Facing { dir: Direction::Down, last_move_start: Some(100) });
}

#[test]
fn refresh_with_nothing_held_stops() {
    let mut input = InputState::new();
    input.update_last_move = true;
    let now = input.refresh_facing(Facing { dir: Direction::Left, last_move_start: Some(5) }, 100);
    assert_eq!(now, resting(Direction::Left));
    assert!(!input.update_last_move);
}

#[test]
fn deltas_follow_the_held_keys() {
    assert_eq!(held(false, false, false, false).deltas(8_333), (0, 0));
    assert_eq!(held(true, false, false, false).deltas(8_333), (0, -8_333));
    assert_eq!(held(false, true, false, false).deltas(8_333), (0, 8_333));
    assert_eq!(held(false, false, true, false).deltas(8_333), (-8_333, 0));
    assert_eq!(held(false, false, false, true).deltas(8_333), (8_333, 0));
    assert_eq!(held(true, false, false, true).deltas(10_000), (10_000, -10_000));
}

#[test]
fn left_and_up_win_over_their_opposites() {
    assert_eq!(held(true, true, true, true).deltas(1_000), (-1_000, -1_000));
}

#[test]
fn a_second_at_walking_speed_is_a_hundred_pixels() {
    assert_eq!(held(false, false, false, true).deltas(1_000_000), (100 * 10_000, 0));
}

#[test]
fn longest_update_does_not_overflow() {
    assert_eq!(
        held(true, false, true, false).deltas(u32::MAX),
        (-(u32::MAX as i64), -(u32::MAX as i64))
    );
}
