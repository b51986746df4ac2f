use vstd::prelude::*;

verus! {

/// The canonical form of an unordered pair of identifiers: the smaller first.
pub open spec fn pair_of(a: usize, b: usize) -> (usize, usize) {
    if a <= b {
        (a, b)
    } else {
        (b, a)
    }
}

pub open spec fn is_canonical(p: (usize, usize)) -> bool {
    p.0 <= p.1
}

fn canonical(a: usize, b: usize) -> (r: (usize, usize))
    ensures
        r == pair_of(a, b),
{
    if a <= b {
        (a, b)
    } else {
        (b, a)
    }
}

/// A set of unordered identifier pairs, each held once and in canonical form.
pub struct PairSet {
    pairs: Vec<(usize, usize)>,
}

impl View for PairSet {
    type V = Set<(usize, usize)>;

    closed spec fn view(&self) -> Set<(usize, usize)> {
        self.pairs@.to_set()
    }
}

impl PairSet {
    pub closed spec fn wf(self) -> bool {
        &&& self.pairs@.no_duplicates()
        &&& forall|i: int| 0 <= i < self.pairs@.len() ==> is_canonical(#[trigger] self.pairs@[i])
    }

    pub fn new() -> (r: PairSet)
        ensures
            r.wf(),
            r@ == Set::<(usize, usize)>::empty(),
    {
        let r = PairSet { pairs: Vec::new() };
        assert(r@ =~= Set::<(usize, usize)>::empty());
        r
    }

    /// The set of the canonical forms of the given pairs.
    pub fn from_vec(v: Vec<(usize, usize)>) -> (r: PairSet)
        ensures
            r.wf(),
            r@ == Set::new(|p: (usize, usize)| exists|i: int| 0 <= i < v@.len() && p == pair_of(#[trigger] v@[i].0, v@[i].1)),
    {
        let mut r = PairSet::new();
        let mut i: usize = 0;
        while i < v.len()
            invariant
                i <= v@.len(),
                r.wf(),
                r@ == Set::new(|p: (usize, usize)| exists|k: int| 0 <= k < i && p == pair_of(#[trigger] v@[k].0, v@[k].1)),
            decreases v@.len() - i,
        {
            let ghost before = r@;
            r.insert(v[i].0, v[i].1);
            assert(r@ =~= Set::new(|p: (usize, usize)| exists|k: int| 0 <= k < i + 1 && p == pair_of(#[trigger] v@[k].0, v@[k].1))) by {
                assert forall|p: (usize, usize)| r@.contains(p) implies exists|k: int| 0 <= k < i + 1 && p == pair_of(#[trigger] v@[k].0, v@[k].1) by {
                    if p == pair_of(v@[i as int].0, v@[i as int].1) {
                        assert(0 <= i < i + 1);
                    } else {
                        assert(before.contains(p));
                    }
                }
            }
            i = i + 1;
        }
        r
    }

    pub fn contains(&self, a: usize, b: usize) -> (r: bool)
        requires
            self.wf(),
        ensures
            r == self@.contains(pair_of(a, b)),
    {
        let c = canonical(a, b);
        let mut i: usize = 0;
        while i < self.pairs.len()
            invariant
                i <= self.pairs@.len(),
                c == pair_of(a, b),
                forall|k: int| 0 <= k < i ==> self.pairs@[k] != c,
            decreases self.pairs@.len() - i,
        {
            if self.pairs[i].0 == c.0 && self.pairs[i].1 == c.1 {
                assert(self.pairs@[i as int] == c);
                assert(self.pairs@.contains(c));
                assert(self@.contains(c));
                return true;
            }
            i = i + 1;
        }
        false
    }

    /// Adds the unordered pair of `a` and `b`.
    pub fn insert(&mut self, a: usize, b: usize)
        requires
            old(self).wf(),
        ensures
            final(self).wf(),
            final(self)@ == old(self)@.insert(pair_of(a, b)),
    {
        if !self.contains(a, b) {
            let c = canonical(a, b);
            self.pairs.push(c);
            assert(self.pairs@.no_duplicates()) by {
                assert forall|i: int, j: int| 0 <= i < j < self.pairs@.len() implies self.pairs@[i] != self.pairs@[j] by {
                    if j == self.pairs@.len() - 1 {
                        assert(old(self).pairs@.contains(old(self).pairs@[i]));
                    }
                }
            }
        }
        assert(self@ =~= old(self)@.insert(pair_of(a, b))) by {
            if self.pairs@.len() > old(self).pairs@.len() {
                old(self).pairs@.lemma_push_to_set_commute(pair_of(a, b));
            }
            assert forall|p: (usize, usize)| self@.contains(p) implies old(self)@.insert(pair_of(a, b)).contains(p) by {
                let k = choose|k: int| 0 <= k < self.pairs@.len() && self.pairs@[k] == p;
                if k < old(self).pairs@.len() {
                    assert(old(self).pairs@[k] == p);
                }
            }
            assert forall|p: (usize, usize)| old(self)@.insert(pair_of(a, b)).contains(p) implies self@.contains(p) by {
                if p != pair_of(a, b) {
                    let k = choose|k: int| 0 <= k < old(self).pairs@.len() && old(self).pairs@[k] == p;
                    assert(self.pairs@[k] == p);
                }
            }
        }
    }

    /// A copy of this set.
    pub fn copied(&self) -> (r: PairSet)
        requires
            self.wf(),
        ensures
            r.wf(),
            r@ == self@,
    {
        let mut r = PairSet::new();
        let mut i: usize = 0;
        while i < self.pairs.len()
            invariant
                self.wf(),
                i <= self.pairs@.len(),
                r.wf(),
                r@ == self.pairs@.take(i as int).to_set(),
            decreases self.pairs@.len() - i,
        {
            r.insert(self.pairs[i].0, self.pairs[i].1);
            assert(self.pairs@.take(i + 1) == self.pairs@.take(i as int).push(self.pairs@[i as int]));
            proof { self.pairs@.take(i as int).lemma_push_to_set_commute(self.pairs@[i as int]); }
            assert(r@ =~= self.pairs@.take(i + 1).to_set());
            i = i + 1;
        }
        assert(self.pairs@.take(i as int) == self.pairs@);
        r
    }

    /// The pairs of either set.
    pub fn union(&self, other: &PairSet) -> (r: PairSet)
        requires
            self.wf(),
            other.wf(),
        ensures
            r.wf(),
            r@ == self@.union(other@),
    {
        let mut r = self.copied();
        let mut i: usize = 0;
        while i < other.pairs.len()
            invariant
                other.wf(),
                i <= other.pairs@.len(),
                r.wf(),
                r@ == self@.union(other.pairs@.take(i as int).to_set()),
            decreases other.pairs@.len() - i,
        {
            r.insert(other.pairs[i].0, other.pairs[i].1);
            assert(other.pairs@.take(i + 1) == other.pairs@.take(i as int).push(other.pairs@[i as int]));
            proof { other.pairs@.take(i as int).lemma_push_to_set_commute(other.pairs@[i as int]); }
            assert(r@ =~= self@.union(other.pairs@.take(i + 1).to_set()));
            i = i + 1;
        }
        assert(other.pairs@.take(i as int) == other.pairs@);
        r
    }

    /// The pairs of this set that are not in `other`.
    pub fn difference(&self, other: &PairSet) -> (r: PairSet)
        requires
            self.wf(),
            other.wf(),
        ensures
            r.wf(),
            r@ == self@.difference(other@),
    {
        let mut r = PairSet::new();
        let mut i: usize = 0;
        while i < self.pairs.len()
            invariant
                self.wf(),
                other.wf(),
                i <= self.pairs@.len(),
                r.wf(),
                r@ == self.pairs@.take(i as int).to_set().difference(other@),
            decreases self.pairs@.len() - i,
        {
            let p = self.pairs[i];
            assert(self.pairs@.take(i + 1) == self.pairs@.take(i as int).push(p));
            proof { self.pairs@.take(i as int).lemma_push_to_set_commute(p); }
            assert(is_canonical(p));
            if !other.contains(p.0, p.1) {
                r.insert(p.0, p.1);
            }
            assert(r@ =~= self.pairs@.take(i + 1).to_set().difference(other@));
            i = i + 1;
        }
        assert(self.pairs@.take(i as int) == self.pairs@);
        r
    }

    /// The pairs, each once, in no particular order.
    pub fn to_vec(&self) -> (r: Vec<(usize, usize)>)
        requires
            self.wf(),
        ensures
            r@.to_set() == self@,
            r@.no_duplicates(),
    {
        let mut r: Vec<(usize, usize)> = Vec::new();
        let mut i: usize = 0;
        while i < self.pairs.len()
            invariant
                i <= self.pairs@.len(),
                r@ == self.pairs@.take(i as int),
            decreases self.pairs@.len() - i,
        {
            r.push(self.pairs[i]);
            assert(self.pairs@.take(i + 1) == self.pairs@.take(i as int).push(self.pairs@[i as int]));
            proof { self.pairs@.take(i as int).lemma_push_to_set_commute(self.pairs@[i as int]); }
            i = i + 1;
        }
        assert(self.pairs@.take(i as int) == self.pairs@);
        r
    }

    /// The number of pairs.
    pub fn len(&self) -> (r: usize)
        requires
            self.wf(),
        ensures
            r == self@.len(),
    {
        proof {
            self.pairs@.unique_seq_to_set();
        }
        self.pairs.len()
    }
}

} // verus!
