use ball_game::geometry::{
    confine, floor_sqrt, is_outside, saturate, Direction, Point, Viewport, MICRO,
};

fn field() -> Viewport {
    Viewport { width: 1000 * MICRO as u64, height: 800 * MICRO as u64 }
}

#[test]
fn saturate_stops_at_the_ends() {
    assert_eq!(saturate(0), 0);
    assert_eq!(saturate(-5), -5);
    assert_eq!(saturate(i64::MAX as i128), i64::MAX);
    assert_eq!(saturate(i64::MAX as i128 + 1), i64::MAX);
    assert_eq!(saturate(i64::MIN as i128 - 1), i64::MIN);
    assert_eq!(saturate(i128::MAX), i64::MAX);
    assert_eq!(saturate(i128::MIN), i64::MIN);
}

#[test]
fn floor_sqrt_rounds_down() {
    assert_eq!(floor_sqrt(0), 0);
    assert_eq!(floor_sqrt(1), 1);
    assert_eq!(floor_sqrt(3), 1);
    assert_eq!(floor_sqrt(4), 2);
    assert_eq!(floor_sqrt(99), 9);
    assert_eq!(floor_sqrt(100), 10);
    assert_eq!(floor_sqrt(500_000_000_000), 707_106);
    assert_eq!(floor_sqrt(1_000_000_000_000), 1_000_000);
    assert_eq!(floor_sqrt(u64::MAX), 4_294_967_295);
}

#[test]
fn normalized_scales_to_unit_length() {
    let d = Direction::normalized(3, 4).unwrap();
    assert_eq!((d.dx(), d.dy()), (600_000, 800_000));
    let d = Direction::normalized(-3, 4).unwrap();
    assert_eq!((d.dx(), d.dy()), (-600_000, 800_000));
    let d = Direction::normalized(0, -7).unwrap();
    assert_eq!((d.dx(), d.dy()), (0, -1_000_000));
    let d = Direction::normalized(1, 1).unwrap();
    assert_eq!((d.dx(), d.dy()), (707_106, 707_106));
    assert_eq!(d, Direction::diagonal());
    let d = Direction::normalized(i32::MIN, i32::MIN).unwrap();
    assert_eq!((d.dx(), d.dy()), (-707_106, -707_106));
    let d = Direction::normalized(1, 16_777_215).unwrap();
    assert_eq!((d.dx(), d.dy()), (0, 999_999));
}

#[test]
fn zero_vector_has_no_direction() {
    assert_eq!(Direction::normalized(0, 0), None);
}

#[test]
fn flipping_twice_restores_the_direction() {
    let d = Direction::normalized(5, -12).unwrap();
    assert_eq!((d.flip_x().dx(), d.flip_x().dy()), (-d.dx(), d.dy()));
    assert_eq!((d.flip_y().dx(), d.flip_y().dy()), (d.dx(), -d.dy()));
    assert_eq!(d.flip_x().flip_x(), d);
    assert_eq!(d.flip_y().flip_y(), d);
}

#[test]
fn confine_clamps_each_coordinate() {
    let extent = 1000 * MICRO as u64;
    let half = 32 * MICRO;
    assert_eq!(confine(0, extent, half), half);
    assert_eq!(confine(half - 1, extent, half), half);
    assert_eq!(confine(half, extent, half), half);
    assert_eq!(confine(500 * MICRO, extent, half), 500 * MICRO);
    assert_eq!(confine(968 * MICRO, extent, half), 968 * MICRO);
    assert_eq!(confine(968 * MICRO + 1, extent, half), 968 * MICRO);
    assert_eq!(confine(i64::MAX, extent, half), 968 * MICRO);
    assert_eq!(confine(i64::MIN, extent, half), half);
    assert_eq!(confine(i64::MAX, u64::MAX, half), i64::MAX);
}

#[test]
fn confine_is_idempotent_where_the_disc_fits() {
    let viewport = field();
    let samples =
        [i64::MIN, -1, 0, 31_999_999, 32_000_000, 500_000_000, 968_000_000, 968_000_001, i64::MAX];
    for x in samples {
        let point = Point { x, y: x };
        let once = point.confine(&viewport, 32 * MICRO);
        assert_eq!(once.confine(&viewport, 32 * MICRO), once);
        assert!(!is_outside(once.x, viewport.width, 32 * MICRO));
        assert!(!is_outside(once.y, viewport.height, 32 * MICRO));
    }
}

#[test]
fn confine_in_a_viewport_too_narrow_takes_the_lower_bound_first() {
    let narrow = Viewport { width: 40 * MICRO as u64, height: 800 * MICRO as u64 };
    let point = Point { x: 0, y: 400 * MICRO };
    let once = point.confine(&narrow, 32 * MICRO);
    assert_eq!(once.x, 32 * MICRO);
    let twice = once.confine(&narrow, 32 * MICRO);
    assert_eq!(twice.x, 8 * MICRO);
}

#[test]
fn outside_is_strict() {
    let extent = 1000 * MICRO as u64;
    let half = 32 * MICRO;
    assert!(is_outside(half - 1, extent, half));
    assert!(!is_outside(half, extent, half));
    assert!(!is_outside(968 * MICRO, extent, half));
    assert!(is_outside(968 * MICRO + 1, extent, half));
}

#[test]
fn within_is_strict() {
    let a = Point { x: 500 * MICRO, y: 400 * MICRO };
    assert!(a.is_within(&Point { x: 520 * MICRO, y: 400 * MICRO }, 47_000_000));
    assert!(a.is_within(&Point { x: 547 * MICRO - 1, y: 400 * MICRO }, 47_000_000));
    assert!(!a.is_within(&Point { x: 547 * MICRO, y: 400 * MICRO }, 47_000_000));
    assert!(!a.is_within(&Point { x: 500 * MICRO, y: 353 * MICRO }, 47_000_000));
    assert!(a.is_within(&Point { x: 528_200_000, y: 437_600_000 }, 47_000_001));
    assert!(!a.is_within(&Point { x: 528_200_000, y: 437_600_000 }, 47_000_000));
    assert!(!a.is_within(&a, 0));
    assert!(a.is_within(&a, 1));
    let far = Point { x: i64::MAX, y: i64::MIN };
    let other = Point { x: i64::MIN, y: i64::MAX };
    assert!(!far.is_within(&other, u32::MAX));
}

#[test]
fn middle_of_the_viewport() {
    assert_eq!(field().middle(), Point { x: 500 * MICRO, y: 400 * MICRO });
    let odd = Viewport { width: 5, height: 0 };
    assert_eq!(odd.middle(), Point { x: 2, y: 0 });
    let huge = Viewport { width: u64::MAX, height: u64::MAX };
    assert_eq!(huge.middle(), Point { x: i64::MAX, y: i64::MAX });
}
