use traveling_salesman::controller::{redraw_due, RunController, RunMode, MAX_SWAP_N};
use traveling_salesman::point::Point;
use traveling_salesman::point_manager::PointManager;
use traveling_salesman::tour::{evaluate_path, Score};

fn manager_of_five() -> PointManager {
    let mut pm = PointManager::default();
    for (x, y) in [(0, 0), (4_000, 0), (4_000, 3_000), (0, 3_000), (2_000, 5_000)] {
        assert!(pm.add_point(Point::new(x, y)));
    }
    pm
}

#[test]
fn a_new_controller_is_at_rest() {
    let c = RunController::new();
    assert_eq!(c.mode(), RunMode::Idle);
    assert_eq!(c.swap_n(), 1);
}

#[test]
fn the_mode_changes_only_on_command() {
    let mut c = RunController::new();
    let mut pm = manager_of_five();
    c.set_mode(RunMode::GenerateRandom);
    c.step(&mut pm);
    c.step(&mut pm);
    assert_eq!(c.mode(), RunMode::GenerateRandom);
    c.set_mode(RunMode::RandomPathSwap);
    assert_eq!(c.mode(), RunMode::RandomPathSwap);
    c.set_mode(RunMode::RandomPointSwap);
    assert_eq!(c.mode(), RunMode::RandomPointSwap);
    c.set_mode(RunMode::Idle);
    assert_eq!(c.mode(), RunMode::Idle);
    assert_eq!(c.swap_n(), 1);
}

#[test]
fn swap_n_is_kept_in_its_range() {
    let mut c = RunController::new();
    assert_eq!(MAX_SWAP_N, 5);
    c.set_swap_n(3);
    assert_eq!(c.swap_n(), 3);
    c.set_swap_n(0);
    assert_eq!(c.swap_n(), 0);
    c.set_swap_n(5);
    assert_eq!(c.swap_n(), 5);
    c.set_swap_n(6);
    assert_eq!(c.swap_n(), 5);
    c.set_swap_n(-1);
    assert_eq!(c.swap_n(), 0);
    c.set_swap_n(i32::MAX);
    assert_eq!(c.swap_n(), 5);
    c.set_swap_n(i32::MIN);
    assert_eq!(c.swap_n(), 0);
    assert_eq!(c.mode(), RunMode::Idle);
}

#[test]
fn a_turn_at_rest_forgets_the_current_tour() {
    let mut c = RunController::new();
    let mut pm = manager_of_five();
    c.set_mode(RunMode::GenerateRandom);
    c.step(&mut pm);
    assert_eq!(pm.current_path().len(), 5);
    let best = pm.best_path().clone();
    let score = pm.score();
    c.set_mode(RunMode::Idle);
    c.step(&mut pm);
    assert_eq!(pm.current_path().len(), 0);
    assert_eq!(pm.best_path(), &best);
    assert_eq!(pm.score(), score);
}

#[test]
fn a_turn_of_the_blind_search_offers_all_points() {
    let mut c = RunController::new();
    let mut pm = manager_of_five();
    c.set_mode(RunMode::GenerateRandom);
    c.step(&mut pm);
    assert_eq!(pm.current_path().len(), 5);
    assert_eq!(pm.best_path(), pm.current_path());
    assert_eq!(pm.score(), Score::Finite(evaluate_path(pm.best_path())));
}

#[test]
fn a_turn_of_a_swap_search_needs_a_best_tour() {
    let mut c = RunController::new();
    let mut pm = manager_of_five();
    c.set_mode(RunMode::RandomPointSwap);
    c.step(&mut pm);
    assert_eq!(pm.current_path().len(), 0);
    assert_eq!(pm.score(), Score::Infinite);
    c.set_mode(RunMode::RandomPathSwap);
    c.step(&mut pm);
    assert_eq!(pm.current_path().len(), 0);
    assert_eq!(pm.score(), Score::Infinite);
    pm.set_radial_path();
    let before = pm.score();
    c.set_swap_n(4);
    c.step(&mut pm);
    assert_eq!(pm.current_path().len(), 5);
    assert!(pm.score().le(&before));
    c.set_mode(RunMode::RandomPointSwap);
    c.step(&mut pm);
    assert_eq!(pm.current_path().len(), 5);
    assert!(pm.score().le(&before));
}

#[test]
fn a_redraw_is_due_after_a_millisecond() {
    assert!(!redraw_due(0));
    assert!(!redraw_due(999));
    assert!(redraw_due(1_000));
    assert!(redraw_due(u64::MAX));
}

#[test]
fn stopping_forgets_the_current_tour_at_once() {
    let mut c = RunController::new();
    let mut pm = manager_of_five();
    c.set_mode(RunMode::GenerateRandom);
    c.set_swap_n(2);
    c.step(&mut pm);
    let best = pm.best_path().clone();
    let score = pm.score();
    c.stop(&mut pm);
    assert_eq!(c.mode(), RunMode::Idle);
    assert_eq!(c.swap_n(), 2);
    assert_eq!(pm.current_path().len(), 0);
    assert_eq!(pm.best_path(), &best);
    assert_eq!(pm.score(), score);
    assert_eq!(pm.points().len(), 5);
}
