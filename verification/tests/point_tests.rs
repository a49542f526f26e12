use traveling_salesman::point::{isqrt, Point, MAX_DISTANCE};

#[test]
fn isqrt_rounds_down() {
    assert_eq!(isqrt(0), 0);
    assert_eq!(isqrt(1), 1);
    assert_eq!(isqrt(2), 1);
    assert_eq!(isqrt(3), 1);
    assert_eq!(isqrt(4), 2);
    assert_eq!(isqrt(15), 3);
    assert_eq!(isqrt(16), 4);
    assert_eq!(isqrt(17), 4);
    assert_eq!(isqrt(1_000_000), 1_000);
    assert_eq!(isqrt(999_999), 999);
}

#[test]
fn isqrt_of_the_largest_number() {
    assert_eq!(isqrt(u128::MAX), u64::MAX);
    assert_eq!(isqrt(1u128 << 64), 1u64 << 32);
    assert_eq!(isqrt((1u128 << 64) - 1), (1u64 << 32) - 1);
}

#[test]
fn distance_of_a_three_four_five_triangle() {
    let a = Point::new(0, 0);
    let b = Point::new(3_000, 4_000);
    assert_eq!(Point::distance_between(&a, &b), 5_000);
    assert_eq!(a.distance_to(&b), 5_000);
}

#[test]
fn distance_is_rounded_down() {
    let a = Point::new(0, 0);
    assert_eq!(a.distance_to(&Point::new(1, 1)), 1);
    assert_eq!(a.distance_to(&Point::new(2, 2)), 2);
    assert_eq!(a.distance_to(&Point::new(1_000, 2_000)), 2_236);
    assert_eq!(a.distance_to(&Point::new(-7_000, 3_000)), 7_615);
}

#[test]
fn distance_is_symmetric() {
    let a = Point::new(-17, 2_500);
    let b = Point::new(981, -44);
    assert_eq!(a.distance_to(&b), b.distance_to(&a));
    assert_eq!(Point::distance_between(&a, &b), Point::distance_between(&b, &a));
}

#[test]
fn distance_is_zero_only_between_equal_points() {
    let a = Point::new(12, -9);
    assert_eq!(a.distance_to(&a), 0);
    assert_eq!(a.distance_to(&Point::new(12, -9)), 0);
    assert!(a.distance_to(&Point::new(13, -9)) > 0);
    assert!(a.distance_to(&Point::new(12, -10)) > 0);
}

#[test]
fn distance_across_the_whole_grid() {
    let a = Point::new(i32::MIN, i32::MIN);
    let b = Point::new(i32::MAX, i32::MAX);
    assert_eq!(a.distance_to(&b), 6_074_000_998);
    assert_eq!(MAX_DISTANCE, 6_074_000_998);
    assert!(a.distance_to(&b) <= MAX_DISTANCE);
}

#[test]
fn points_are_equal_by_coordinates() {
    assert_eq!(Point::new(1, 2), Point::new(1, 2));
    assert_ne!(Point::new(1, 2), Point::new(2, 1));
    let p = Point::new(5, -6);
    assert_eq!(p.x, 5);
    assert_eq!(p.y, -6);
}

#[test]
fn to_value_gives_x_then_y() {
    assert_eq!(Point::new(7, -8).to_value(), [7, -8]);
}

#[test]
fn from_offsets_shifts_by_the_radius() {
    assert_eq!(Point::from_offsets(0, 0, 10), Point::new(-10, -10));
    assert_eq!(Point::from_offsets(19, 10, 10), Point::new(9, 0));
    assert_eq!(
        Point::from_offsets(0, 4_294_967_293, i32::MAX),
        Point::new(-i32::MAX, i32::MAX - 1)
    );
}

#[test]
fn random_points_lie_in_the_square() {
    for _ in 0..2_000 {
        let p = Point::generate_random(10);
        assert!(-10 <= p.x && p.x < 10);
        assert!(-10 <= p.y && p.y < 10);
    }
}

#[test]
fn random_points_of_radius_one_take_both_values() {
    let mut low = false;
    let mut high = false;
    for _ in 0..400 {
        let p = Point::generate_random(1);
        assert!(p.x == -1 || p.x == 0);
        assert!(p.y == -1 || p.y == 0);
        if p.x == -1 {
            low = true;
        }
        if p.x == 0 {
            high = true;
        }
    }
    assert!(low && high);
}

#[test]
fn squared_distance_is_exact() {
    let a = Point::new(0, 0);
    assert_eq!(Point::squared_distance_between(&a, &Point::new(1, 1)), 2);
    assert_eq!(Point::squared_distance_between(&a, &Point::new(-3, 4)), 25);
    assert_eq!(Point::squared_distance_between(&a, &a), 0);
    let low = Point::new(i32::MIN, i32::MIN);
    let high = Point::new(i32::MAX, i32::MAX);
    assert_eq!(
        Point::squared_distance_between(&low, &high),
        2 * 4_294_967_295u128 * 4_294_967_295u128
    );
    assert_eq!(
        Point::squared_distance_between(&high, &low),
        Point::squared_distance_between(&low, &high)
    );
}
