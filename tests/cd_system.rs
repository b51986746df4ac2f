use bntm::cd_system::{get_collision_axis, get_collisions, CDSystem, CollisionAxis};
use bntm::geometry::{Rect, Vec2, UNITS_PER_PIXEL};
use bntm::movable::Movable;
use bntm::pair_set::PairSet;
use std::collections::HashSet;

/// 0.0165 s in microseconds.
const DT: u32 = 16_500;

fn px(v: f64) -> i64 {
    (v * UNITS_PER_PIXEL as f64).round() as i64
}

/// Pixels per second, in millipixels per second.
fn pps(v: f64) -> i64 {
    (v * 1000.).round() as i64
}

fn set(p: &PairSet) -> HashSet<(usize, usize)> {
    p.to_vec().into_iter().collect()
}

fn create() -> CDSystem {
    CDSystem::new()
}

#[test]
fn cd_system_update() {
    let mut cd = create();
    let collisions: HashSet<(usize, usize)> = HashSet::from([(0, 1), (1, 2)]);
    let collisions2: HashSet<(usize, usize)> = HashSet::from([(3, 4)]);

    cd.update(PairSet::from_vec(vec![(0, 1), (1, 2)]));
    assert_eq!(set(&cd.get_collided()), collisions);

    cd.update(PairSet::from_vec(vec![(3, 4)]));
    assert_eq!(set(&cd.get_previous()), collisions);
    assert_eq!(set(&cd.get_collided()), collisions2);
}

#[test]
fn just_collided() {
    let mut cd = create();
    cd.update(PairSet::from_vec(vec![(0, 1), (1, 2)]));
    cd.update(PairSet::from_vec(vec![(3, 4), (0, 1)]));
    assert_eq!(set(&cd.get_just_collided()), HashSet::from([(3, 4)]));
}

#[test]
fn just_collided_single_pair() {
    let mut cd = create();
    assert!(!cd.just_collided((5, 6)));
    cd.update(PairSet::from_vec(vec![(0, 1), (1, 2)]));
    assert!(!cd.just_collided((5, 6)));
    assert!(cd.just_collided((1, 0)));
    cd.update(PairSet::from_vec(vec![(3, 4), (2, 1)]));
    assert!(!cd.just_collided((2, 1)));
    assert!(!cd.just_collided((0, 1)));
    assert!(cd.just_collided((4, 3)));
}

#[test]
fn memory_forgets_older_steps() {
    let mut cd = create();
    cd.update(PairSet::from_vec(vec![(0, 1)]));
    cd.update(PairSet::from_vec(vec![(2, 3)]));
    cd.update(PairSet::from_vec(vec![(0, 1)]));
    assert_eq!(set(&cd.get_just_collided()), HashSet::from([(0, 1)]));
    assert_eq!(set(&cd.get_previous()), HashSet::from([(2, 3)]));
}

#[test]
fn pairs_are_unordered() {
    let p = PairSet::from_vec(vec![(4, 3), (3, 4), (1, 2)]);
    assert_eq!(p.len(), 2);
    assert!(p.contains(3, 4));
    assert!(p.contains(4, 3));
    assert_eq!(set(&p), HashSet::from([(3, 4), (1, 2)]));
    let q = PairSet::from_vec(vec![(2, 1), (7, 8)]);
    assert_eq!(set(&p.union(&q)), HashSet::from([(3, 4), (1, 2), (7, 8)]));
    assert_eq!(set(&p.difference(&q)), HashSet::from([(3, 4)]));
}

#[test]
fn pairwise_test_skips_touching_and_equal_ids() {
    let elems = vec![
        (0, Rect::new(0, 0, 10, 10)),
        (1, Rect::new(10, 0, 10, 10)),
        (2, Rect::new(5, 5, 10, 10)),
        (2, Rect::new(6, 6, 2, 2)),
        (3, Rect::new(0, 10, 10, 10)),
    ];
    let found: HashSet<(usize, usize)> = get_collisions(&elems).to_vec().into_iter().collect();
    assert_eq!(found, HashSet::from([(0, 2), (1, 2), (2, 3)]));
}

#[test]
fn collision_y() {
    let ma = Movable::new()
        .with_size((px(16.), px(16.)))
        .with_pos(Vec2::new(px(630.0), px(446.0633)))
        .with_vel(Vec2::new(pps(0.0), pps(-50.0)));
    let mb = Movable::new()
        .with_size((px(16.), px(16.)))
        .with_pos(Vec2::new(px(636.0), px(430.0)));

    let ca = get_collision_axis(&ma, &mb, DT);

    assert_eq!(ca, CollisionAxis::Y);
}

#[test]
fn collision_corner() {
    let ma = Movable::new()
        .with_size((px(16.), px(16.)))
        .with_pos(Vec2::new(px(619.72003), px(413.71997)))
        .with_vel(Vec2::new(pps(50.0), pps(50.0)));
    let mb = Movable::new()
        .with_size((px(16.), px(16.)))
        .with_pos(Vec2::new(px(636.0), px(430.0)));

    let ca = get_collision_axis(&ma, &mb, DT);

    assert_eq!(ca, CollisionAxis::Both);
}

#[test]
fn collision_x() {
    let ma = Movable::new()
        .with_size((px(16.), px(16.)))
        .with_pos(Vec2::new(px(619.9), px(430.0)))
        .with_vel(Vec2::new(pps(50.0), pps(0.0)));
    let mb = Movable::new()
        .with_size((px(16.), px(16.)))
        .with_pos(Vec2::new(px(636.0), px(430.0)));

    assert_eq!(get_collision_axis(&ma, &mb, DT), CollisionAxis::X);
}

#[test]
fn collision_overlapping_both() {
    let ma = Movable::new().with_size((px(16.), px(16.))).with_pos(Vec2::new(px(630.), px(430.)));
    let mb = Movable::new().with_size((px(16.), px(16.))).with_pos(Vec2::new(px(636.0), px(430.0)));
    assert_eq!(get_collision_axis(&ma, &mb, DT), CollisionAxis::Both);
}
