use tile_scene::clock::{advance, elapsed, frame_offset, walk_frame, WALK_FRAMES, WALK_PERIOD_MS};

#[test]
fn walk_cycle_of_three_frames() {
    assert_eq!(frame_offset(0, 150, 3), 0);
    assert_eq!(frame_offset(149, 150, 3), 0);
    assert_eq!(frame_offset(150, 150, 3), 1);
    assert_eq!(frame_offset(299, 150, 3), 1);
    assert_eq!(frame_offset(300, 150, 3), 2);
    assert_eq!(frame_offset(450, 150, 3), 0);
}

#[test]
fn cycle_repeats_after_all_frames() {
    for e in [0u32, 1, 149, 150, 151, 449, 450, 1000, 123_456] {
        assert_eq!(frame_offset(e + 450, 150, 3), frame_offset(e, 150, 3));
    }
}

#[test]
fn single_frame_cycle_never_moves() {
    assert_eq!(frame_offset(0, 1, 1), 0);
    assert_eq!(frame_offset(u32::MAX, 1, 1), 0);
}

#[test]
fn frame_at_the_end_of_time() {
    assert_eq!(frame_offset(u32::MAX, 150, 3), (u32::MAX / 150) % 3);
}

#[test]
fn idle_shows_first_frame() {
    assert_eq!(walk_frame(0, None), 0);
    assert_eq!(walk_frame(987_654, None), 0);
}

#[test]
fn walk_frame_counts_from_the_start_of_motion() {
    assert_eq!(walk_frame(1000, Some(1000)), 0);
    assert_eq!(walk_frame(1149, Some(1000)), 0);
    assert_eq!(walk_frame(1150, Some(1000)), 1);
    assert_eq!(walk_frame(1300, Some(1000)), 2);
    assert_eq!(walk_frame(1450, Some(1000)), 0);
}

#[test]
fn elapsed_is_zero_while_idle() {
    assert_eq!(elapsed(500, None), 0);
    assert_eq!(elapsed(500, Some(200)), 300);
    assert_eq!(elapsed(500, Some(500)), 0);
}

#[test]
fn clock_only_runs_forward() {
    assert_eq!(advance(0, 0), 0);
    assert_eq!(advance(10, 8), 18);
    assert_eq!(advance(u32::MAX - 5, 5), u32::MAX);
}

#[test]
fn walk_constants() {
    assert_eq!(WALK_PERIOD_MS, 150);
    assert_eq!(WALK_FRAMES, 3);
}
