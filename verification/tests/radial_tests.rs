use traveling_salesman::point::Point;
use traveling_salesman::point_manager::PointManager;
use traveling_salesman::radial::{
    generate_radial_path, generate_radial_path_step, insert_next_to_nearest, nearest_index,
};
use traveling_salesman::tour::Score;

fn grid(coordinates: &[(i32, i32)]) -> Vec<Point> {
    coordinates.iter().map(|&(x, y)| Point::new(x, y)).collect()
}

#[test]
fn nearest_index_takes_the_first_of_equals() {
    let tour = grid(&[(5_000, 0), (-5_000, 0)]);
    assert_eq!(nearest_index(&tour, &Point::new(0, 0)), 0);
    assert_eq!(nearest_index(&tour, &Point::new(-1, 0)), 1);
    assert_eq!(nearest_index(&tour, &Point::new(1, 0)), 0);
    let line = grid(&[(0, 0), (10, 0), (20, 0), (10, 0)]);
    assert_eq!(nearest_index(&line, &Point::new(11, 0)), 1);
    assert_eq!(nearest_index(&line, &Point::new(100, 0)), 2);
}

#[test]
fn a_point_joins_after_its_nearest() {
    let mut tour = Vec::new();
    insert_next_to_nearest(&mut tour, Point::new(1, 1));
    assert_eq!(tour, grid(&[(1, 1)]));
    insert_next_to_nearest(&mut tour, Point::new(9, 9));
    assert_eq!(tour, grid(&[(1, 1), (9, 9)]));
    insert_next_to_nearest(&mut tour, Point::new(2, 2));
    assert_eq!(tour, grid(&[(1, 1), (2, 2), (9, 9)]));
    insert_next_to_nearest(&mut tour, Point::new(10, 10));
    assert_eq!(tour, grid(&[(1, 1), (2, 2), (9, 9), (10, 10)]));
}

#[test]
fn one_pass_takes_the_points_outside_the_circle() {
    let mut remaining = grid(&[(0, 0), (3_000, 4_000), (100, 0), (0, -6_000), (4_999, 0)]);
    let mut path = Vec::new();
    generate_radial_path_step(&mut remaining, &mut path, 5_000);
    assert_eq!(remaining, grid(&[(0, 0), (100, 0), (4_999, 0)]));
    assert_eq!(path, grid(&[(3_000, 4_000), (0, -6_000)]));
    generate_radial_path_step(&mut remaining, &mut path, 5_000);
    assert_eq!(remaining, grid(&[(0, 0), (100, 0), (4_999, 0)]));
    assert_eq!(path, grid(&[(3_000, 4_000), (0, -6_000)]));
    generate_radial_path_step(&mut remaining, &mut path, 0);
    assert_eq!(remaining, Vec::<Point>::new());
    assert_eq!(path.len(), 5);
}

#[test]
fn radial_path_of_three_points_on_a_line() {
    let points = grid(&[(0, 0), (5_000, 0), (-5_000, 0)]);
    let path = generate_radial_path(&points, 20_000, 10);
    assert_eq!(path, grid(&[(5_000, 0), (0, 0), (-5_000, 0)]));
}

#[test]
fn radial_construction_of_three_points() {
    let mut pm = PointManager::default();
    assert!(pm.add_point(Point::new(0, 0)));
    assert!(pm.add_point(Point::new(5_000, 0)));
    assert!(pm.add_point(Point::new(-5_000, 0)));
    assert_eq!(pm.radius(), 10_000);
    pm.set_radial_path();
    assert_eq!(pm.best_path().len(), 3);
    for p in pm.points() {
        assert_eq!(pm.best_path().iter().filter(|q| *q == p).count(), 1);
    }
    assert_eq!(pm.best_path(), &grid(&[(5_000, 0), (0, 0), (-5_000, 0)]));
    assert_eq!(pm.score(), Score::Finite(20_000));
    let first = pm.best_path().clone();
    pm.set_radial_path();
    assert_eq!(pm.best_path(), &first);
    assert_eq!(pm.score(), Score::Finite(20_000));
    assert_eq!(pm.current_path().len(), 0);
}

#[test]
fn radial_path_goes_from_the_outside_in() {
    let points = grid(&[(1_000, 0), (0, 9_000), (0, 3_000), (-6_000, 0)]);
    let path = generate_radial_path(&points, 20_000, 10);
    assert_eq!(path, grid(&[(0, 9_000), (0, 3_000), (1_000, 0), (-6_000, 0)]));
}

#[test]
fn radial_path_takes_every_point_when_the_step_misses_zero() {
    let points = grid(&[(0, 0), (2, 0), (0, -1), (700, 700)]);
    let path = generate_radial_path(&points, 1_000, 7);
    assert_eq!(path.len(), 4);
    for p in &points {
        assert_eq!(path.iter().filter(|q| *q == p).count(), 1);
    }
    let far = generate_radial_path(&points, 5, u64::MAX);
    assert_eq!(far.len(), 4);
}

#[test]
fn radial_path_of_no_points_is_empty() {
    assert_eq!(generate_radial_path(&Vec::new(), 20_000, 10), Vec::<Point>::new());
    let mut pm = PointManager::default();
    pm.set_radial_path();
    assert_eq!(pm.best_path().len(), 0);
    assert_eq!(pm.score(), Score::Finite(0));
}

#[test]
fn nearest_goes_by_the_exact_distance() {
    let tour = grid(&[(3, 3), (4, 1), (1, 4)]);
    assert_eq!(nearest_index(&tour, &Point::new(0, 0)), 1);
    let mut grown = tour.clone();
    insert_next_to_nearest(&mut grown, Point::new(0, 0));
    assert_eq!(grown, grid(&[(3, 3), (4, 1), (0, 0), (1, 4)]));
}

#[test]
fn radial_construction_of_a_house() {
    let mut pm = PointManager::default();
    for p in grid(&[(0, 0), (4_000, 0), (4_000, 3_000), (0, 3_000), (2_000, 5_000)]) {
        assert!(pm.add_point(p));
    }
    pm.set_radial_path();
    assert_eq!(
        pm.best_path(),
        &grid(&[(2_000, 5_000), (0, 3_000), (0, 0), (4_000, 3_000), (4_000, 0)])
    );
    assert_eq!(pm.score(), Score::Finite(2_828 + 3_000 + 5_000 + 3_000 + 5_385));
}

#[test]
fn a_step_of_zero_makes_one_pass() {
    let points = grid(&[(0, 0), (9_000, 0), (0, 100), (0, -8_000)]);
    assert_eq!(generate_radial_path(&points, 5_000, 0), grid(&[(9_000, 0), (0, -8_000)]));
    assert_eq!(generate_radial_path(&points, 0, 0).len(), 4);
}
