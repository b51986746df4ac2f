use vstd::prelude::*;

use crate::cd_system::{get_collisions as pairwise_collisions, pairs_of, collision_in};
use crate::geometry::{Rect, fits_i64};
use crate::pair_set::PairSet;

verus! {

/// The depth below which nodes no longer split.
pub const MAX_DEPTH: usize = 16;

/// How a node cuts its region: `Horizontal` halves the height, `Vertical`
/// halves the width.
#[derive(Clone, Copy, Debug, PartialEq, Eq, Structural)]
pub enum BTreeSplit {
    Horizontal,
    Vertical,
}

pub open spec fn next_split(s: BTreeSplit) -> BTreeSplit {
    match s {
        BTreeSplit::Horizontal => BTreeSplit::Vertical,
        BTreeSplit::Vertical => BTreeSplit::Horizontal,
    }
}

/// The orientation a root starts with: the longer side is halved first,
/// and a square is cut horizontally.
pub open spec fn root_split(r: Rect) -> BTreeSplit {
    if r.w > r.h {
        BTreeSplit::Vertical
    } else {
        BTreeSplit::Horizontal
    }
}

/// The two halves of `r` cut along `s`; the second takes the odd unit.
pub open spec fn halves(r: Rect, s: BTreeSplit) -> (Rect, Rect) {
    match s {
        BTreeSplit::Horizontal => (
            Rect { x: r.x, y: r.y, w: r.w, h: (r.h / 2) as i64 },
            Rect { x: r.x, y: (r.y + r.h / 2) as i64, w: r.w, h: (r.h - r.h / 2) as i64 },
        ),
        BTreeSplit::Vertical => (
            Rect { x: r.x, y: r.y, w: (r.w / 2) as i64, h: r.h },
            Rect { x: (r.x + r.w / 2) as i64, y: r.y, w: (r.w - r.w / 2) as i64, h: r.h },
        ),
    }
}

/// The elements whose bounds overlap `r`.
pub open spec fn within(r: Rect) -> spec_fn((usize, Rect)) -> bool {
    |e: (usize, Rect)| r.overlaps_spec(e.1)
}

proof fn lemma_filter_push(s: Seq<(usize, Rect)>, v: (usize, Rect), p: spec_fn((usize, Rect)) -> bool)
    ensures
        s.push(v).filter(p) == (if p(v) {
            s.filter(p).push(v)
        } else {
            s.filter(p)
        }),
{
    reveal(Seq::filter);
    assert(s.push(v).drop_last() =~= s);
}

/// A node of the partition tree over a region. A leaf holds its elements in
/// the order they came; an inner node holds none and has two children over
/// the halves of its region, each holding the elements that overlap it.
pub struct BTree {
    depth: usize,
    bounds: Rect,
    split: BTreeSplit,
    elems: Vec<(usize, Rect)>,
    children: Option<(Box<BTree>, Box<BTree>)>,
    threshold: usize,
    contents: Ghost<Seq<(usize, Rect)>>,
}

impl View for BTree {
    type V = Seq<(usize, Rect)>;

    /// The inserted elements that overlap the region, in order of insertion.
    closed spec fn view(&self) -> Seq<(usize, Rect)> {
        self.contents@
    }
}

impl BTree {
    pub closed spec fn spec_region(self) -> Rect {
        self.bounds
    }

    pub closed spec fn spec_depth(self) -> nat {
        self.depth as nat
    }

    pub closed spec fn spec_threshold(self) -> nat {
        self.threshold as nat
    }

    pub closed spec fn spec_split(self) -> BTreeSplit {
        self.split
    }

    pub closed spec fn is_leaf(self) -> bool {
        self.children is None
    }

    pub closed spec fn wf(self) -> bool
        decreases self,
    {
        &&& self.depth <= MAX_DEPTH
        &&& self.bounds.is_valid()
        &&& forall|i: int|
            0 <= i < self.contents@.len() ==> self.bounds.overlaps_spec(#[trigger] self.contents@[i].1)
        &&& match self.children {
            None => {
                &&& self.elems@ == self.contents@
                &&& self.depth < MAX_DEPTH ==> self.elems@.len() <= self.threshold
            },
            Some((a, b)) => {
                &&& self.depth < MAX_DEPTH
                &&& self.contents@.len() > self.threshold
                &&& self.elems@.len() == 0
                &&& (a.bounds, b.bounds) == halves(self.bounds, self.split)
                &&& a.split == next_split(self.split)
                &&& b.split == next_split(self.split)
                &&& a.depth == self.depth + 1
                &&& b.depth == self.depth + 1
                &&& a.threshold == self.threshold
                &&& b.threshold == self.threshold
                &&& a.contents@ == self.contents@.filter(within(a.bounds))
                &&& b.contents@ == self.contents@.filter(within(b.bounds))
                &&& a.wf()
                &&& b.wf()
            },
        }
    }

    /// The pairs that the leaves find, each by testing its own elements.
    pub closed spec fn found_pairs(self) -> Set<(usize, usize)>
        decreases self,
    {
        match self.children {
            None => pairs_of(self.elems@),
            Some((a, b)) => a.found_pairs().union(b.found_pairs()),
        }
    }

    /// An empty root over `bounds`, halving its longer side first.
    pub fn root(bounds: Rect, threshold: usize) -> (r: BTree)
        requires
            bounds.is_valid(),
        ensures
            r.wf(),
            r@ == Seq::<(usize, Rect)>::empty(),
            r.is_leaf(),
            r.spec_region() == bounds,
            r.spec_depth() == 0,
            r.spec_threshold() == threshold,
            r.spec_split() == root_split(bounds),
    {
        let split = if bounds.w > bounds.h {
            BTreeSplit::Vertical
        } else {
            BTreeSplit::Horizontal
        };
        BTree::new(0, bounds, threshold, split)
    }

    /// An empty node at `depth` over `bounds`.
    pub fn new(depth: usize, bounds: Rect, threshold: usize, split: BTreeSplit) -> (r: BTree)
        requires
            depth <= MAX_DEPTH,
            bounds.is_valid(),
        ensures
            r.wf(),
            r@ == Seq::<(usize, Rect)>::empty(),
            r.is_leaf(),
            r.spec_region() == bounds,
            r.spec_depth() == depth,
            r.spec_threshold() == threshold,
            r.spec_split() == split,
    {
        BTree {
            depth,
            bounds,
            split,
            elems: Vec::new(),
            children: None,
            threshold,
            contents: Ghost(Seq::empty()),
        }
    }

    /// The halves of this node's region and the orientation of its children.
    pub fn split(&self) -> (r: (Rect, Rect, BTreeSplit))
        requires
            self.spec_region().is_valid(),
        ensures
            (r.0, r.1) == halves(self.spec_region(), self.spec_split()),
            r.2 == next_split(self.spec_split()),
            r.0.is_valid(),
            r.1.is_valid(),
    {
        match self.split {
            BTreeSplit::Horizontal => {
                let half = self.bounds.h / 2;
                let ra = Rect::new(self.bounds.x, self.bounds.y, self.bounds.w, half);
                let rb = Rect::new(self.bounds.x, self.bounds.y + half, self.bounds.w, self.bounds.h - half);
                (ra, rb, BTreeSplit::Vertical)
            },
            BTreeSplit::Vertical => {
                let half = self.bounds.w / 2;
                let ra = Rect::new(self.bounds.x, self.bounds.y, half, self.bounds.h);
                let rb = Rect::new(self.bounds.x + half, self.bounds.y, self.bounds.w - half, self.bounds.h);
                (ra, rb, BTreeSplit::Horizontal)
            },
        }
    }
}

impl BTree {
    /// Adds an element. It is kept only if its bounds overlap the region; a
    /// leaf that would go over the threshold splits in two, unless it is at
    /// the maximal depth.
    pub fn insert(&mut self, value: (usize, Rect))
        requires
            old(self).wf(),
        ensures
            final(self).wf(),
            final(self)@ == (if old(self).spec_region().overlaps_spec(value.1) {
                old(self)@.push(value)
            } else {
                old(self)@
            }),
            final(self).spec_region() == old(self).spec_region(),
            final(self).spec_depth() == old(self).spec_depth(),
            final(self).spec_threshold() == old(self).spec_threshold(),
            final(self).spec_split() == old(self).spec_split(),
            !old(self).spec_region().overlaps_spec(value.1) ==> *final(self) == *old(self),
            old(self).is_leaf() && old(self).spec_region().overlaps_spec(value.1) ==> (final(self).is_leaf() <==> (
            old(self)@.len() < old(self).spec_threshold() || old(self).spec_depth() == MAX_DEPTH)),
            !old(self).is_leaf() ==> !final(self).is_leaf(),
        decreases MAX_DEPTH - old(self).spec_depth(),
    {
        if !self.bounds.overlaps(&value.1) {
            return;
        }
        let ghost old_contents = self.contents@;
        let children = self.children.take();
        match children {
            Some((mut a, mut b)) => {
                (&mut *a).insert(value);
                (&mut *b).insert(value);
                self.children = Some((a, b));
                self.contents = Ghost(old_contents.push(value));
                proof {
                    lemma_filter_push(old_contents, value, within(a.bounds));
                    lemma_filter_push(old_contents, value, within(b.bounds));
                }
            },
            None => {
                if self.elems.len() >= self.threshold && self.depth < MAX_DEPTH {
                    let (ra, rb, split) = self.split();
                    let mut bta = BTree::new(self.depth + 1, ra, self.threshold, split);
                    let mut btb = BTree::new(self.depth + 1, rb, self.threshold, split);
                    let mut i: usize = 0;
                    proof {
                        reveal(Seq::filter);
                        assert(old_contents.take(0) =~= Seq::<(usize, Rect)>::empty());
                    }
                    while i < self.elems.len()
                        invariant
                            i <= self.elems@.len(),
                            self.depth == old(self).depth,
                            self.elems@ == old_contents,
                            self.depth < MAX_DEPTH,
                            bta.wf(),
                            btb.wf(),
                            bta.bounds == ra,
                            btb.bounds == rb,
                            bta.depth == self.depth + 1,
                            btb.depth == self.depth + 1,
                            bta.threshold == self.threshold,
                            btb.threshold == self.threshold,
                            bta.split == split,
                            btb.split == split,
                            bta.contents@ == old_contents.take(i as int).filter(within(ra)),
                            btb.contents@ == old_contents.take(i as int).filter(within(rb)),
                        decreases self.elems@.len() - i,
                    {
                        let e = self.elems[i];
                        bta.insert(e);
                        btb.insert(e);
                        proof {
                            assert(old_contents.take(i + 1) == old_contents.take(i as int).push(e));
                            lemma_filter_push(old_contents.take(i as int), e, within(ra));
                            lemma_filter_push(old_contents.take(i as int), e, within(rb));
                        }
                        i = i + 1;
                    }
                    proof {
                        assert(old_contents.take(i as int) == old_contents);
                    }
                    self.elems = Vec::new();
                    bta.insert(value);
                    btb.insert(value);
                    self.children = Some((Box::new(bta), Box::new(btb)));
                    self.contents = Ghost(old_contents.push(value));
                    proof {
                        lemma_filter_push(old_contents, value, within(ra));
                        lemma_filter_push(old_contents, value, within(rb));
                    }
                } else {
                    self.elems.push(value);
                    self.contents = Ghost(old_contents.push(value));
                }
            },
        }
    }
}

/// The pairs of a sequence are among those of any sequence holding all its
/// elements.
proof fn lemma_pairs_of_subset(s1: Seq<(usize, Rect)>, s2: Seq<(usize, Rect)>)
    requires
        forall|e: (usize, Rect)| s1.contains(e) ==> s2.contains(e),
    ensures
        pairs_of(s1).subset_of(pairs_of(s2)),
{
    assert forall|p: (usize, usize)| pairs_of(s1).contains(p) implies pairs_of(s2).contains(p) by {
        let (e1, e2) = choose|e1: (usize, Rect), e2: (usize, Rect)|
            #![trigger s1.contains(e1), s1.contains(e2)]
            s1.contains(e1) && s1.contains(e2) && e1.0 != e2.0 && e1.1.overlaps_spec(e2.1) && p
                == crate::pair_set::pair_of(e1.0, e2.0);
        assert(s2.contains(e1) && s2.contains(e2));
        assert(collision_in(s2, p));
    }
}

/// Two elements that overlap each other and a region, both with area, both
/// overlap one of its halves.
proof fn lemma_halves_keep_pair(r: Rect, s: BTreeSplit, e1: Rect, e2: Rect)
    requires
        r.is_valid(),
        e1.has_area(),
        e2.has_area(),
        e1.overlaps_spec(e2),
        r.overlaps_spec(e1),
        r.overlaps_spec(e2),
    ensures
        (halves(r, s).0.overlaps_spec(e1) && halves(r, s).0.overlaps_spec(e2)) || (halves(r, s).1.overlaps_spec(e1)
            && halves(r, s).1.overlaps_spec(e2)),
{
    let (a, b) = halves(r, s);
    match s {
        BTreeSplit::Horizontal => {
            if e1.y < a.y + a.h && e2.y < a.y + a.h {
                assert(a.overlaps_spec(e1) && a.overlaps_spec(e2));
            } else {
                assert(b.overlaps_spec(e1) && b.overlaps_spec(e2));
            }
        },
        BTreeSplit::Vertical => {
            if e1.x < a.x + a.w && e2.x < a.x + a.w {
                assert(a.overlaps_spec(e1) && a.overlaps_spec(e2));
            } else {
                assert(b.overlaps_spec(e1) && b.overlaps_spec(e2));
            }
        },
    }
}

impl BTree {
    /// No false positives: every pair a well-formed tree finds is a pair of
    /// its elements, with distinct identifiers and overlapping bounds.
    pub proof fn lemma_found_pairs_sound(&self)
        requires
            self.wf(),
        ensures
            self.found_pairs().subset_of(pairs_of(self@)),
        decreases self,
    {
        match self.children {
            None => {},
            Some((a, b)) => {
                a.lemma_found_pairs_sound();
                b.lemma_found_pairs_sound();
                assert forall|e: (usize, Rect)| a.contents@.contains(e) implies self.contents@.contains(e) by {
                    self.contents@.lemma_filter_contains_rev(within(a.bounds), e);
                }
                assert forall|e: (usize, Rect)| b.contents@.contains(e) implies self.contents@.contains(e) by {
                    self.contents@.lemma_filter_contains_rev(within(b.bounds), e);
                }
                lemma_pairs_of_subset(a.contents@, self.contents@);
                lemma_pairs_of_subset(b.contents@, self.contents@);
            },
        }
    }

    /// Completeness: when every element has area, a well-formed tree finds
    /// every pair of its elements with distinct identifiers and overlapping
    /// bounds, wherever its leaves cut the region.
    pub proof fn lemma_found_pairs_complete(&self)
        requires
            self.wf(),
            forall|i: int| 0 <= i < self@.len() ==> (#[trigger] self@[i]).1.has_area(),
        ensures
            pairs_of(self@).subset_of(self.found_pairs()),
        decreases self,
    {
        match self.children {
            None => {},
            Some((a, b)) => {
                let s = self.contents@;
                assert forall|e: (usize, Rect)| a.contents@.contains(e) implies s.contains(e) by {
                    s.lemma_filter_contains_rev(within(a.bounds), e);
                }
                assert forall|e: (usize, Rect)| b.contents@.contains(e) implies s.contains(e) by {
                    s.lemma_filter_contains_rev(within(b.bounds), e);
                }
                assert forall|i: int| 0 <= i < a@.len() implies (#[trigger] a@[i]).1.has_area() by {
                    assert(a.contents@.contains(a@[i]));
                    assert(s.contains(a@[i]));
                    let k = choose|k: int| 0 <= k < s.len() && s[k] == a@[i];
                    assert(self@[k].1.has_area());
                }
                assert forall|i: int| 0 <= i < b@.len() implies (#[trigger] b@[i]).1.has_area() by {
                    assert(b.contents@.contains(b@[i]));
                    assert(s.contains(b@[i]));
                    let k = choose|k: int| 0 <= k < s.len() && s[k] == b@[i];
                    assert(self@[k].1.has_area());
                }
                a.lemma_found_pairs_complete();
                b.lemma_found_pairs_complete();
                assert forall|p: (usize, usize)| pairs_of(s).contains(p) implies self.found_pairs().contains(p) by {
                    let (e1, e2) = choose|e1: (usize, Rect), e2: (usize, Rect)|
                        #![trigger s.contains(e1), s.contains(e2)]
                        s.contains(e1) && s.contains(e2) && e1.0 != e2.0 && e1.1.overlaps_spec(e2.1) && p
                            == crate::pair_set::pair_of(e1.0, e2.0);
                    let i = choose|i: int| 0 <= i < s.len() && s[i] == e1;
                    let j = choose|j: int| 0 <= j < s.len() && s[j] == e2;
                    assert(self@[i].1.has_area());
                    assert(self@[j].1.has_area());
                    assert(self.bounds.overlaps_spec(s[i].1));
                    assert(self.bounds.overlaps_spec(s[j].1));
                    lemma_halves_keep_pair(self.bounds, self.split, e1.1, e2.1);
                    if a.bounds.overlaps_spec(e1.1) && a.bounds.overlaps_spec(e2.1) {
                        s.lemma_filter_contains(within(a.bounds), i);
                        s.lemma_filter_contains(within(a.bounds), j);
                        assert(collision_in(a.contents@, p));
                        assert(a.found_pairs().contains(p));
                    } else {
                        s.lemma_filter_contains(within(b.bounds), i);
                        s.lemma_filter_contains(within(b.bounds), j);
                        assert(collision_in(b.contents@, p));
                        assert(b.found_pairs().contains(p));
                    }
                }
            },
        }
    }

    /// The colliding pairs the leaves find, each leaf testing its own
    /// elements; an element in two leaves gives the same pair in both.
    pub fn get_collisions(&self) -> (r: PairSet)
        requires
            self.wf(),
        ensures
            r.wf(),
            r@ == self.found_pairs(),
            r@.subset_of(pairs_of(self@)),
            (forall|i: int| 0 <= i < self@.len() ==> (#[trigger] self@[i]).1.has_area()) ==> r@ == pairs_of(
                self@,
            ),
        decreases MAX_DEPTH - self.spec_depth(),
    {
        proof {
            self.lemma_found_pairs_sound();
            if forall|i: int| 0 <= i < self@.len() ==> (#[trigger] self@[i]).1.has_area() {
                self.lemma_found_pairs_complete();
            }
        }
        match &self.children {
            Some((a, b)) => {
                let ra = a.get_collisions();
                let rb = b.get_collisions();
                ra.union(&rb)
            },
            None => pairwise_collisions(&self.elems),
        }
    }
}

/// Filtering by a predicate that every element meets keeps the sequence.
proof fn lemma_filter_all(s: Seq<(usize, Rect)>, p: spec_fn((usize, Rect)) -> bool)
    requires
        forall|i: int| 0 <= i < s.len() ==> p(#[trigger] s[i]),
    ensures
        s.filter(p) == s,
    decreases s.len(),
{
    reveal(Seq::filter);
    if s.len() > 0 {
        lemma_filter_all(s.drop_last(), p);
        assert(s.drop_last().push(s.last()) =~= s);
    }
}

/// Over elements that all have area and overlap the region, a tree built
/// from them finds exactly the pairs that the pairwise test finds: none is
/// missed and none is added, whatever the threshold.
pub proof fn lemma_tree_agrees_with_pairwise(t: BTree, elems: Seq<(usize, Rect)>)
    requires
        t.wf(),
        t@ == elems.filter(within(t.spec_region())),
        forall|i: int|
            0 <= i < elems.len() ==> (#[trigger] elems[i]).1.has_area() && t.spec_region().overlaps_spec(
                elems[i].1,
            ),
    ensures
        t.found_pairs() == pairs_of(elems),
{
    lemma_filter_all(elems, within(t.spec_region()));
    t.lemma_found_pairs_sound();
    t.lemma_found_pairs_complete();
    assert(t.found_pairs() =~= pairs_of(elems));
}

/// Bisection is exact: the two halves of a region cover it, share no point,
/// and their extents along the cut add up to the region's.
pub proof fn lemma_halves_exact(r: Rect, s: BTreeSplit)
    requires
        r.is_valid(),
    ensures
        halves(r, s).0.is_valid(),
        halves(r, s).1.is_valid(),
        s == BTreeSplit::Horizontal ==> halves(r, s).0.h + halves(r, s).1.h == r.h,
        s == BTreeSplit::Vertical ==> halves(r, s).0.w + halves(r, s).1.w == r.w,
        forall|px: int, py: int|
            r.contains_point(px, py) == (halves(r, s).0.contains_point(px, py) || halves(
                r,
                s,
            ).1.contains_point(px, py)),
        forall|px: int, py: int|
            !(halves(r, s).0.contains_point(px, py) && halves(r, s).1.contains_point(px, py)),
{
}

impl BTree {
    /// A root over `region` holding `elems`, inserted in order.
    pub fn build(region: Rect, threshold: usize, elems: &Vec<(usize, Rect)>) -> (r: BTree)
        requires
            region.is_valid(),
        ensures
            r.wf(),
            r@ == elems@.filter(within(region)),
            r.spec_region() == region,
            r.spec_depth() == 0,
            r.spec_threshold() == threshold,
            r.spec_split() == root_split(region),
    {
        let mut t = BTree::root(region, threshold);
        let mut i: usize = 0;
        proof {
            reveal(Seq::filter);
            assert(elems@.take(0) =~= Seq::<(usize, Rect)>::empty());
        }
        while i < elems.len()
            invariant
                i <= elems@.len(),
                t.wf(),
                t@ == elems@.take(i as int).filter(within(region)),
                t.spec_region() == region,
                t.spec_depth() == 0,
                t.spec_threshold() == threshold,
                t.spec_split() == root_split(region),
            decreases elems@.len() - i,
        {
            t.insert(elems[i]);
            proof {
                assert(elems@.take(i + 1) == elems@.take(i as int).push(elems@[i as int]));
                lemma_filter_push(elems@.take(i as int), elems@[i as int], within(region));
            }
            i = i + 1;
        }
        proof {
            assert(elems@.take(i as int) == elems@);
        }
        t
    }

    /// The shape of a node: no deeper than the maximal depth, and a leaf
    /// exactly when it holds at most the threshold or is at the maximal depth.
    pub proof fn lemma_node_shape(&self)
        requires
            self.wf(),
        ensures
            self.spec_depth() <= MAX_DEPTH,
            self.spec_depth() == MAX_DEPTH ==> self.is_leaf(),
            !self.is_leaf() ==> self.spec_depth() < MAX_DEPTH,
            self.is_leaf() <==> (self@.len() <= self.spec_threshold() || self.spec_depth() == MAX_DEPTH),
    {
    }

    /// Capacity: a leaf shallower than the maximal depth holds at most the
    /// threshold; only at the maximal depth may a leaf hold more.
    pub proof fn lemma_leaf_capacity(&self)
        requires
            self.wf(),
        ensures
            self.is_leaf() && self.spec_depth() < MAX_DEPTH ==> self@.len() <= self.spec_threshold(),
    {
    }

    pub fn bounds(&self) -> (r: Rect)
        ensures
            r == self.spec_region(),
    {
        self.bounds
    }

    pub fn depth(&self) -> (r: usize)
        ensures
            r == self.spec_depth(),
    {
        self.depth
    }

    pub fn threshold(&self) -> (r: usize)
        ensures
            r == self.spec_threshold(),
    {
        self.threshold
    }

    pub fn orientation(&self) -> (r: BTreeSplit)
        ensures
            r == self.spec_split(),
    {
        self.split
    }

    /// The elements a leaf holds; an inner node holds none.
    pub fn elems(&self) -> (r: &Vec<(usize, Rect)>)
        requires
            self.wf(),
        ensures
            r@ == (if self.is_leaf() {
                self@
            } else {
                Seq::<(usize, Rect)>::empty()
            }),
    {
        &self.elems
    }

    /// The two children of an inner node.
    pub fn children(&self) -> (r: Option<(&BTree, &BTree)>)
        requires
            self.wf(),
        ensures
            r is None <==> self.is_leaf(),
            r matches Some((a, b)) ==> {
                &&& a.wf()
                &&& b.wf()
                &&& (a.spec_region(), b.spec_region()) == halves(self.spec_region(), self.spec_split())
                &&& a@ == self@.filter(within(a.spec_region()))
                &&& b@ == self@.filter(within(b.spec_region()))
                &&& a.spec_depth() == self.spec_depth() + 1
                &&& b.spec_depth() == self.spec_depth() + 1
                &&& a.spec_split() == next_split(self.spec_split())
                &&& b.spec_split() == next_split(self.spec_split())
                &&& a.spec_threshold() == self.spec_threshold()
                &&& b.spec_threshold() == self.spec_threshold()
            },
    {
        match &self.children {
            Some((a, b)) => Some((&**a, &**b)),
            None => None,
        }
    }
}

} // verus!
