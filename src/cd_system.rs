use vstd::prelude::*;

use crate::geometry::{Rect, Vec2};
use crate::movable::Movable;
use crate::pair_set::{PairSet, pair_of};

verus! {

/// The factor, per second, that turns a velocity exchange or a separation
/// into an impulse.
pub const BOUNCE_VALUE: i64 = 4;

/// The axis on which two bodies are about to collide.
#[derive(Clone, Copy, Debug, PartialEq, Eq, Structural)]
pub enum CollisionAxis {
    X,
    Y,
    Both,
}

/// The axis given which single-axis projections overlap; when neither does,
/// both axes, so that the pair is always resolved.
pub open spec fn axis_of(x_overlaps: bool, y_overlaps: bool) -> CollisionAxis {
    if x_overlaps && y_overlaps {
        CollisionAxis::Both
    } else if x_overlaps {
        CollisionAxis::X
    } else if y_overlaps {
        CollisionAxis::Y
    } else {
        CollisionAxis::Both
    }
}

/// `r` moved by `dx`, `dy`.
pub open spec fn shifted(r: Rect, dx: int, dy: int) -> Rect {
    Rect { x: (r.x + dx) as i64, y: (r.y + dy) as i64, w: r.w, h: r.h }
}

/// The axis on which `ma` and `mb` collide over `dt`: each body's bounds are
/// moved by its displacement along one axis at a time, and the two moved
/// bounds are tested for overlap.
pub open spec fn collision_axis(ma: Movable, mb: Movable, dt: int) -> CollisionAxis {
    axis_of(
        shifted(ma.spec_bounds(), ma.spec_step(dt).0, 0).overlaps_spec(
            shifted(mb.spec_bounds(), mb.spec_step(dt).0, 0),
        ),
        shifted(ma.spec_bounds(), 0, ma.spec_step(dt).1).overlaps_spec(
            shifted(mb.spec_bounds(), 0, mb.spec_step(dt).1),
        ),
    )
}

/// Whether `p` is the pair of two elements of `s`, with distinct identifiers,
/// whose bounds overlap.
pub open spec fn collision_in(s: Seq<(usize, Rect)>, p: (usize, usize)) -> bool {
    exists|e1: (usize, Rect), e2: (usize, Rect)|
        #![trigger s.contains(e1), s.contains(e2)]
        s.contains(e1) && s.contains(e2) && e1.0 != e2.0 && e1.1.overlaps_spec(e2.1) && p == pair_of(
            e1.0,
            e2.0,
        )
}

/// The colliding pairs among the elements of `s`, as the exhaustive pairwise
/// test finds them.
pub open spec fn pairs_of(s: Seq<(usize, Rect)>) -> Set<(usize, usize)> {
    Set::new(|p: (usize, usize)| collision_in(s, p))
}

/// Finds the colliding pairs by testing every two elements.
pub fn get_collisions(elems: &Vec<(usize, Rect)>) -> (r: PairSet)
    ensures
        r.wf(),
        r@ == pairs_of(elems@),
{
    let s = Ghost(elems@);
    let n = elems.len();
    let mut collisions = PairSet::new();
    let mut a: usize = 0;
    while a < n
        invariant
            s@ == elems@,
            n == s@.len(),
            a <= n,
            collisions.wf(),
            forall|p: (usize, usize)| collisions@.contains(p) ==> collision_in(s@, p),
            forall|i: int, j: int|
                #![trigger s@[i], s@[j]]
                0 <= i < a && i < j < n && s@[i].0 != s@[j].0 && s@[i].1.overlaps_spec(s@[j].1)
                    ==> collisions@.contains(pair_of(s@[i].0, s@[j].0)),
        decreases n - a,
    {
        let mut b: usize = a + 1;
        while b < n
            invariant
                s@ == elems@,
                n == s@.len(),
                a < n,
                a + 1 <= b <= n,
                collisions.wf(),
                forall|p: (usize, usize)| collisions@.contains(p) ==> collision_in(s@, p),
                forall|i: int, j: int|
                    #![trigger s@[i], s@[j]]
                    0 <= i < a && i < j < n && s@[i].0 != s@[j].0 && s@[i].1.overlaps_spec(s@[j].1)
                        ==> collisions@.contains(pair_of(s@[i].0, s@[j].0)),
                forall|j: int|
                    #![trigger s@[j]]
                    a < j < b && s@[a as int].0 != s@[j].0 && s@[a as int].1.overlaps_spec(s@[j].1)
                        ==> collisions@.contains(pair_of(s@[a as int].0, s@[j].0)),
            decreases n - b,
        {
            if elems[a].0 != elems[b].0 && elems[a].1.overlaps(&elems[b].1) {
                let ghost before = collisions@;
                collisions.insert(elems[a].0, elems[b].0);
                proof {
                    let e1 = s@[a as int];
                    let e2 = s@[b as int];
                    assert(s@.contains(e1));
                    assert(s@.contains(e2));
                    assert(collision_in(s@, pair_of(e1.0, e2.0)));
                    assert forall|p: (usize, usize)| collisions@.contains(p) implies collision_in(s@, p) by {
                        if p != pair_of(e1.0, e2.0) {
                            assert(before.contains(p));
                        }
                    }
                }
            }
            b = b + 1;
        }
        a = a + 1;
    }
    proof {
        assert forall|p: (usize, usize)| pairs_of(s@).contains(p) implies collisions@.contains(p) by {
            let (e1, e2) = choose|e1: (usize, Rect), e2: (usize, Rect)|
                #![trigger s@.contains(e1), s@.contains(e2)]
                s@.contains(e1) && s@.contains(e2) && e1.0 != e2.0 && e1.1.overlaps_spec(e2.1) && p
                    == pair_of(e1.0, e2.0);
            let i = choose|i: int| 0 <= i < s@.len() && s@[i] == e1;
            let j = choose|j: int| 0 <= j < s@.len() && s@[j] == e2;
            if i < j {
                assert(collisions@.contains(pair_of(s@[i].0, s@[j].0)));
            } else {
                assert(s@[j].1.overlaps_spec(s@[i].1));
                assert(collisions@.contains(pair_of(s@[j].0, s@[i].0)));
            }
        }
        assert(collisions@ =~= pairs_of(s@));
    }
    collisions
}

/// Finds the axis on which two bodies collide over `delta_t` microseconds.
pub fn get_collision_axis(ma: &Movable, mb: &Movable, delta_t: u32) -> (r: CollisionAxis)
    requires
        ma.wf(),
        mb.wf(),
        ma.can_project(delta_t as int),
        mb.can_project(delta_t as int),
    ensures
        r == collision_axis(*ma, *mb, delta_t as int),
{
    let da = ma.next_vel_imp(delta_t).0;
    let db = mb.next_vel_imp(delta_t).0;
    let ra = ma.offset_bounds(Vec2::new(da.x, 0));
    let rb = mb.offset_bounds(Vec2::new(db.x, 0));
    let x_overlaps = ra.overlaps(&rb);

    let ra = ma.offset_bounds(Vec2::new(0, da.y));
    let rb = mb.offset_bounds(Vec2::new(0, db.y));
    let y_overlaps = ra.overlaps(&rb);

    if x_overlaps && y_overlaps {
        return CollisionAxis::Both;
    }
    if x_overlaps {
        return CollisionAxis::X;
    }
    if y_overlaps {
        return CollisionAxis::Y;
    }
    CollisionAxis::Both
}

/// The two-step memory of colliding pairs: those of the last update and those
/// of the update before it.
pub struct CDSystem {
    last_step: PairSet,
    act_step: PairSet,
}

impl CDSystem {
    pub closed spec fn wf(self) -> bool {
        self.last_step.wf() && self.act_step.wf()
    }

    /// The pairs handed to the update before the last one.
    pub closed spec fn previous(self) -> Set<(usize, usize)> {
        self.last_step@
    }

    /// The pairs handed to the last update.
    pub closed spec fn current(self) -> Set<(usize, usize)> {
        self.act_step@
    }

    pub fn new() -> (r: CDSystem)
        ensures
            r.wf(),
            r.previous() == Set::<(usize, usize)>::empty(),
            r.current() == Set::<(usize, usize)>::empty(),
    {
        CDSystem { last_step: PairSet::new(), act_step: PairSet::new() }
    }

    /// Installs the pairs of this step; those of the last step become the
    /// previous ones.
    pub fn update(&mut self, collisions: PairSet)
        requires
            old(self).wf(),
            collisions.wf(),
        ensures
            final(self).wf(),
            final(self).previous() == old(self).current(),
            final(self).current() == collisions@,
    {
        let mut incoming = collisions;
        std::mem::swap(&mut self.act_step, &mut incoming);
        self.last_step = incoming;
    }

    /// The pairs of the last update.
    pub fn get_collided(&self) -> (r: PairSet)
        requires
            self.wf(),
        ensures
            r.wf(),
            r@ == self.current(),
    {
        self.act_step.copied()
    }

    /// The pairs of the update before the last one.
    pub fn get_previous(&self) -> (r: PairSet)
        requires
            self.wf(),
        ensures
            r.wf(),
            r@ == self.previous(),
    {
        self.last_step.copied()
    }

    /// The pairs that collide now and did not at the step before.
    pub fn get_just_collided(&self) -> (r: PairSet)
        requires
            self.wf(),
        ensures
            r.wf(),
            r@ == self.current().difference(self.previous()),
    {
        self.act_step.difference(&self.last_step)
    }

    /// Whether the pair collides now and did not at the step before.
    pub fn just_collided(&self, value: (usize, usize)) -> (r: bool)
        requires
            self.wf(),
        ensures
            r == (self.current().contains(pair_of(value.0, value.1)) && !self.previous().contains(
                pair_of(value.0, value.1),
            )),
    {
        self.act_step.contains(value.0, value.1) && !self.last_step.contains(value.0, value.1)
    }
}

} // verus!
