use ball_game::effects::Sound;
use ball_game::geometry::{Point, Viewport, MICRO};
use ball_game::random::{
    bounce_sound, draw_direction, draw_position, draw_unit, place, place_point, unit_from_bits,
    DRAW_RANGE, SPAWN_INSET,
};

#[test]
fn unit_draws_stay_below_the_range() {
    let mut seen_low = false;
    let mut seen_high = false;
    let first = draw_unit();
    let mut all_equal = true;
    for _ in 0..10_000 {
        let draw = draw_unit();
        assert!(draw < DRAW_RANGE);
        if draw < DRAW_RANGE / 2 {
            seen_low = true;
        } else {
            seen_high = true;
        }
        if draw != first {
            all_equal = false;
        }
    }
    assert!(seen_low && seen_high);
    assert!(!all_equal);
}

#[test]
fn draw_stands_for_a_part_of_the_extent() {
    let extent = 1000 * MICRO as u64;
    assert_eq!(DRAW_RANGE, 1 << 24);
    assert_eq!(place(0, extent, 0), 0);
    assert_eq!(place(DRAW_RANGE / 2, extent, 0), 500 * MICRO);
    assert_eq!(place(DRAW_RANGE / 4, extent, SPAWN_INSET), 240 * MICRO);
    assert_eq!(place(0, extent, SPAWN_INSET), -10 * MICRO);
    assert_eq!(place(DRAW_RANGE - 1, extent, 0), 999_999_940);
    assert_eq!(place(1, extent, 0), 59);
    assert_eq!(place(DRAW_RANGE - 1, u64::MAX, 0), i64::MAX);
    assert_eq!(place(0, 0, i64::MAX), -i64::MAX);
    assert_eq!(place(0, 0, i64::MIN), i64::MAX);
}

#[test]
fn two_draws_stand_for_a_point() {
    let viewport = Viewport { width: 1000 * MICRO as u64, height: 800 * MICRO as u64 };
    assert_eq!(
        place_point(&viewport, DRAW_RANGE / 2, DRAW_RANGE / 4, SPAWN_INSET),
        Point { x: 490 * MICRO, y: 190 * MICRO }
    );
    assert_eq!(place_point(&viewport, 0, 0, 0), Point { x: 0, y: 0 });
}

#[test]
fn drawn_positions_lie_in_the_viewport() {
    let viewport = Viewport { width: 1000 * MICRO as u64, height: 800 * MICRO as u64 };
    for _ in 0..1_000 {
        let point = draw_position(&viewport, SPAWN_INSET);
        assert!(-10 * MICRO <= point.x && point.x < 990 * MICRO);
        assert!(-10 * MICRO <= point.y && point.y < 790 * MICRO);
    }
}

#[test]
fn drawn_directions_have_unit_length() {
    for _ in 0..1_000 {
        let d = draw_direction();
        let dx = d.dx() as i128;
        let dy = d.dy() as i128;
        assert!(dx >= 0 && dy >= 0);
        assert!(dx * dx + dy * dy <= 1_000_000_000_000);
        assert!((dx + 1) * (dx + 1) + (dy + 1) * (dy + 1) > 1_000_000_000_000);
    }
}

#[test]
fn bounce_sound_is_picked_at_one_half() {
    assert_eq!(bounce_sound(0), Sound::BounceTwo);
    assert_eq!(bounce_sound(8_388_608), Sound::BounceTwo);
    assert_eq!(bounce_sound(8_388_609), Sound::BounceOne);
    assert_eq!(bounce_sound(DRAW_RANGE - 1), Sound::BounceOne);
}

#[test]
fn unit_draw_is_the_upper_bits() {
    assert_eq!(unit_from_bits(0), 0);
    assert_eq!(unit_from_bits(255), 0);
    assert_eq!(unit_from_bits(256), 1);
    assert_eq!(unit_from_bits(0x8000_0000), DRAW_RANGE / 2);
    assert_eq!(unit_from_bits(0x1234_5678), 0x12_3456);
    assert_eq!(unit_from_bits(u32::MAX), DRAW_RANGE - 1);
}
