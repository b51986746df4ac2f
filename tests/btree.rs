use bntm::btree::{BTree, BTreeSplit, MAX_DEPTH};
use bntm::cd_system::get_collisions;
use bntm::geometry::{Rect, Vec2, UNITS_PER_PIXEL};
use bntm::movable::Movable;
use std::collections::HashSet;

const W: i64 = 64 * UNITS_PER_PIXEL;
const H: i64 = 32 * UNITS_PER_PIXEL;
const SIZE: i64 = 8 * UNITS_PER_PIXEL;

fn px(v: f64) -> i64 {
    (v * UNITS_PER_PIXEL as f64).round() as i64
}

fn create() -> BTree {
    BTree::new(0, Rect::new(0, 0, W, H), 2, BTreeSplit::Vertical)
}

fn create_rect(pos: Vec2) -> Rect {
    Movable::new().with_pos(pos).with_size((SIZE, SIZE)).bounds()
}

fn pairs(p: &bntm::pair_set::PairSet) -> HashSet<(usize, usize)> {
    p.to_vec().into_iter().collect()
}

#[test]
fn insert() {
    let mut bt = create();
    let r = create_rect(Vec2::new(px(4.), px(4.)));
    bt.insert((1, r));

    assert_eq!(bt.elems().len(), 1);
    assert_eq!(bt.elems()[0].0, 1);
    assert!(bt.children().is_none());
}

#[test]
fn simple() {
    let mut bt = create();
    let r = create_rect(Vec2::new(px(4.), px(4.)));
    bt.insert((1, r));

    let r = create_rect(Vec2::new(px(16.), px(4.)));
    bt.insert((1, r));

    let r = create_rect(Vec2::new(px(40.), px(4.)));
    bt.insert((1, r));

    assert_eq!(bt.elems().len(), 0);
    assert!(bt.children().is_some());
    let children = bt.children().unwrap();

    assert_eq!(children.0.bounds().x, px(0.));
    assert_eq!(children.0.bounds().y, px(0.));
    assert_eq!(children.0.bounds().w, px(32.));
    assert_eq!(children.0.bounds().h, px(32.));

    assert_eq!(children.1.bounds().x, px(32.));
    assert_eq!(children.1.bounds().y, px(0.));
    assert_eq!(children.1.bounds().w, px(32.));
    assert_eq!(children.1.bounds().h, px(32.));

    assert_eq!(children.0.elems().len(), 2);
    assert_eq!(children.1.elems().len(), 1);
}

#[test]
fn one_in_two_trees() {
    let mut bt = create();
    let r = create_rect(Vec2::new(px(4.), px(4.)));
    bt.insert((1, r));

    let r = create_rect(Vec2::new(px(56.), px(4.)));
    bt.insert((2, r));

    let r = create_rect(Vec2::new(px(32.), px(24.)));
    bt.insert((3, r));

    assert_eq!(bt.elems().len(), 0);
    assert!(bt.children().is_some());
    let children = bt.children().unwrap();

    assert_eq!(children.0.elems().len(), 2);
    assert_eq!(children.1.elems().len(), 2);
}

#[test]
fn max_depth() {
    let mut bt = create();
    let r = create_rect(Vec2::new(px(0.), px(0.)));
    bt.insert((1, r));

    let r = create_rect(Vec2::new(px(0.), px(0.)));
    bt.insert((2, r));

    let r = create_rect(Vec2::new(px(0.), px(0.)));
    bt.insert((3, r));

    assert_eq!(bt.elems().len(), 0);
    assert!(bt.children().is_some());

    let mut node = &bt;
    for _ in 0..MAX_DEPTH {
        node = node.children().unwrap().0;
    }

    assert!(node.children().is_none());
    assert_eq!(node.elems().len(), 3);
}

#[test]
fn root_halves_longer_side_first() {
    assert_eq!(BTree::root(Rect::new(0, 0, W, H), 4).orientation(), BTreeSplit::Vertical);
    assert_eq!(BTree::root(Rect::new(0, 0, H, W), 4).orientation(), BTreeSplit::Horizontal);
    assert_eq!(BTree::root(Rect::new(0, 0, H, H), 4).orientation(), BTreeSplit::Horizontal);
}

#[test]
fn split_odd_extent_is_exact() {
    let bt = BTree::new(0, Rect::new(-3, 10, 7, 5), 1, BTreeSplit::Vertical);
    let (a, b, s) = bt.split();
    assert_eq!(a, Rect::new(-3, 10, 3, 5));
    assert_eq!(b, Rect::new(0, 10, 4, 5));
    assert_eq!(a.w + b.w, 7);
    assert_eq!(s, BTreeSplit::Horizontal);

    let bt = BTree::new(0, Rect::new(-3, 10, 7, 5), 1, BTreeSplit::Horizontal);
    let (a, b, s) = bt.split();
    assert_eq!(a, Rect::new(-3, 10, 7, 2));
    assert_eq!(b, Rect::new(-3, 12, 7, 3));
    assert_eq!(s, BTreeSplit::Vertical);
}

#[test]
fn leaf_splits_only_over_threshold() {
    let mut bt = create();
    bt.insert((1, create_rect(Vec2::new(px(4.), px(4.)))));
    bt.insert((2, create_rect(Vec2::new(px(20.), px(4.)))));
    assert!(bt.children().is_none());
    assert_eq!(bt.elems().len(), 2);
    bt.insert((3, create_rect(Vec2::new(px(40.), px(20.)))));
    assert!(bt.children().is_some());
    bt.insert((4, Rect::new(W + 1, 0, SIZE, SIZE)));
    assert!(bt.children().is_some());
}

#[test]
fn insert_outside_region_is_ignored() {
    let mut bt = BTree::root(Rect::new(0, 0, W, H), 2);
    bt.insert((1, Rect::new(W, 0, SIZE, SIZE)));
    bt.insert((2, Rect::new(-SIZE, 0, SIZE, SIZE)));
    bt.insert((3, Rect::new(px(10.), H + 1, SIZE, SIZE)));
    assert!(bt.children().is_none());
    assert_eq!(bt.elems().len(), 0);
    assert_eq!(bt.get_collisions().len(), 0);
}

/// A small deterministic generator of pseudo-random numbers.
struct Lcg(u64);

impl Lcg {
    fn next(&mut self, bound: u64) -> u64 {
        self.0 = self.0.wrapping_mul(6364136223846793005).wrapping_add(1442695040888963407);
        (self.0 >> 33) % bound
    }
}

fn random_bodies(seed: u64, n: usize) -> Vec<(usize, Rect)> {
    let mut g = Lcg(seed);
    (0..n)
        .map(|id| {
            let w = px(1. + g.next(40) as f64);
            let h = px(1. + g.next(40) as f64);
            let x = px(g.next(600) as f64);
            let y = px(g.next(400) as f64);
            (id, Rect::new(x, y, w, h))
        })
        .collect()
}

fn check_leaves(node: &BTree, threshold: usize) {
    match node.children() {
        Some((a, b)) => {
            assert_eq!(node.elems().len(), 0);
            check_leaves(a, threshold);
            check_leaves(b, threshold);
        }
        None => {
            if node.depth() < MAX_DEPTH {
                assert!(node.elems().len() <= threshold);
            }
        }
    }
}

#[test]
fn tree_matches_pairwise_test() {
    for (seed, threshold) in [(1u64, 1usize), (7, 2), (42, 4), (1234, 8)] {
        let bodies = random_bodies(seed, 60);
        let mut bt = BTree::root(Rect::new(0, 0, px(640.), px(440.)), threshold);
        for b in &bodies {
            bt.insert(*b);
        }
        let from_tree = pairs(&bt.get_collisions());
        let brute = pairs(&get_collisions(&bodies));
        assert!(!brute.is_empty());
        assert_eq!(from_tree, brute);
        check_leaves(&bt, threshold);
    }
}

#[test]
fn built_tree_matches_pairwise_test() {
    let bodies = random_bodies(2024, 70);
    let bt = BTree::build(Rect::new(0, 0, px(640.), px(440.)), 3, &bodies);
    assert_eq!(bt.depth(), 0);
    assert_eq!(bt.threshold(), 3);
    assert_eq!(pairs(&bt.get_collisions()), pairs(&get_collisions(&bodies)));
    check_leaves(&bt, 3);
}

#[test]
fn every_reported_pair_overlaps() {
    let bodies = random_bodies(5, 80);
    let mut bt = BTree::root(Rect::new(0, 0, px(640.), px(440.)), 3);
    for b in &bodies {
        bt.insert(*b);
    }
    for (a, b) in bt.get_collisions().to_vec() {
        assert!(a < b);
        assert!(bodies[a].1.overlaps(&bodies[b].1));
    }
}

#[test]
fn leaves_respect_capacity_with_clusters() {
    let mut bt = BTree::root(Rect::new(0, 0, W, H), 2);
    for id in 0..10 {
        bt.insert((id, Rect::new(px(1.), px(1.), px(2.), px(2.))));
    }
    check_leaves(&bt, 2);
    assert_eq!(bt.get_collisions().len(), 45);
}
