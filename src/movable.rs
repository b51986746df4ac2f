use vstd::prelude::*;
use vstd::arithmetic::power::pow;

use crate::cd_system::{BOUNCE_VALUE, CollisionAxis, collision_axis, get_collision_axis};
use crate::geometry::{Rect, Vec2, div_toward_zero, fits, fits_i64, integer_sqrt, isqrt, lemma_isqrt, quot};

verus! {

/// Friction is a factor in thousandths.
pub const FRICTION_SCALE: u32 = 1000;

/// A decayed impulse whose squared length, in (millipixels per second)
/// squared, is not above this is dropped: 0.004 (pixels per second) squared.
pub const IMPULSE_EPSILON: u128 = 4000;

/// Nanopixels in one millipixel.
pub const NANOS_PER_MILLI: i64 = 1_000_000;

/// Short directions are magnified by this factor before their length is
/// taken, so that rounding the root to an integer costs a negligible share.
pub const MAGNIFY: i64 = 0x8000_0000;

/// The same direction, magnified where both components are at most
/// `MAGNIFY` in magnitude.
pub open spec fn magnified(v: Vec2) -> Vec2 {
    if abs(v.x as int) <= MAGNIFY && abs(v.y as int) <= MAGNIFY {
        Vec2 { x: (v.x * MAGNIFY) as i64, y: (v.y * MAGNIFY) as i64 }
    } else {
        v
    }
}

/// `v` scaled to length `speed`: each component of the magnified direction
/// times `speed`, divided by the integer root of its squared length, rounded
/// toward zero. The zero vector stays zero.
pub open spec fn scale_to(v: Vec2, speed: int) -> Vec2 {
    let u = magnified(v);
    let len = isqrt(u.length_sq() as nat) as int;
    if len == 0 {
        Vec2 { x: 0, y: 0 }
    } else {
        Vec2 { x: quot(u.x * speed, len) as i64, y: quot(u.y * speed, len) as i64 }
    }
}

/// Each component times the friction factor, rounded toward zero.
pub open spec fn damped(imp: Vec2, friction: int) -> Vec2 {
    Vec2 {
        x: quot(imp.x * friction, FRICTION_SCALE as int) as i64,
        y: quot(imp.y * friction, FRICTION_SCALE as int) as i64,
    }
}

/// The impulse one step later: each component times the friction factor,
/// rounded toward zero, and dropped altogether once negligible.
pub open spec fn decayed(imp: Vec2, friction: int) -> Vec2 {
    let d = damped(imp, friction);
    if d.length_sq() > IMPULSE_EPSILON {
        d
    } else {
        Vec2 { x: 0, y: 0 }
    }
}

/// The impulse after `n` steps.
pub open spec fn decayed_times(imp: Vec2, friction: int, n: nat) -> Vec2
    decreases n,
{
    if n == 0 {
        imp
    } else {
        decayed_times(decayed(imp, friction), friction, (n - 1) as nat)
    }
}

/// The bounds of extents `w`, `h` centred on `pos`.
pub open spec fn placed(pos: Vec2, w: int, h: int) -> Rect {
    Rect { x: (pos.x - w / 2) as i64, y: (pos.y - h / 2) as i64, w: w as i64, h: h as i64 }
}

/// Bounds of extents `w`, `h` centred on `pos` can be represented.
pub open spec fn placeable(pos: Vec2, w: int, h: int) -> bool {
    &&& 0 <= w <= i64::MAX
    &&& 0 <= h <= i64::MAX
    &&& fits_i64(pos.x - w / 2)
    &&& fits_i64(pos.x - w / 2 + w)
    &&& fits_i64(pos.y - h / 2)
    &&& fits_i64(pos.y - h / 2 + h)
}

pub open spec fn abs(v: int) -> int {
    if v < 0 {
        -v
    } else {
        v
    }
}

/// A moving body: its position, its own velocity, an impulse that decays,
/// and bounds kept centred on the position.
#[derive(Debug)]
pub struct Movable {
    pos: Vec2,
    vel: Vec2,
    pub imp: Vec2,
    /// Millipixels per second.
    pub speed: u32,
    /// Thousandths.
    pub friction: u32,
    pub weight: u32,
    bounds: Rect,
}

impl Movable {
    pub closed spec fn spec_pos(self) -> Vec2 {
        self.pos
    }

    pub closed spec fn spec_vel(self) -> Vec2 {
        self.vel
    }

    pub closed spec fn spec_bounds(self) -> Rect {
        self.bounds
    }

    pub closed spec fn spec_imp(self) -> Vec2 {
        self.imp
    }

    pub closed spec fn spec_speed(self) -> u32 {
        self.speed
    }

    pub closed spec fn spec_friction(self) -> u32 {
        self.friction
    }

    pub closed spec fn spec_weight(self) -> u32 {
        self.weight
    }

    /// The bounds are centred on the position, the friction does not
    /// amplify, and the velocity stays within the range of a speed.
    pub open spec fn wf(self) -> bool {
        &&& placeable(self.spec_pos(), self.spec_bounds().w as int, self.spec_bounds().h as int)
        &&& self.spec_bounds() == placed(
            self.spec_pos(),
            self.spec_bounds().w as int,
            self.spec_bounds().h as int,
        )
        &&& self.spec_friction() <= FRICTION_SCALE
        &&& abs(self.spec_vel().x as int) <= u32::MAX
        &&& abs(self.spec_vel().y as int) <= u32::MAX
    }

    /// The displacement over `dt` microseconds.
    pub open spec fn spec_step(self, dt: int) -> (int, int) {
        ((self.spec_vel().x + self.spec_imp().x) * dt, (self.spec_vel().y + self.spec_imp().y) * dt)
    }

    /// The displacement over `dt`, and the bounds moved by it, fit the
    /// coordinate type.
    pub open spec fn can_project(self, dt: int) -> bool {
        &&& self.step_fits(dt)
        &&& fits_i64(self.spec_bounds().x + self.spec_step(dt).0)
        &&& fits_i64(self.spec_bounds().y + self.spec_step(dt).1)
    }

    /// The body can advance by `dt`: the displacement, the new position and
    /// the bounds around it fit the coordinate type.
    pub open spec fn advance_fits(self, dt: int) -> bool {
        &&& self.step_fits(dt)
        &&& fits_i64(self.spec_pos().x + self.spec_step(dt).0)
        &&& fits_i64(self.spec_pos().y + self.spec_step(dt).1)
        &&& placeable(
            Vec2 {
                x: (self.spec_pos().x + self.spec_step(dt).0) as i64,
                y: (self.spec_pos().y + self.spec_step(dt).1) as i64,
            },
            self.spec_bounds().w as int,
            self.spec_bounds().h as int,
        )
    }

    /// Whether the body is well formed.
    pub fn is_wf(&self) -> (r: bool)
        ensures
            r == self.wf(),
    {
        if !is_placeable(self.pos, self.bounds.w, self.bounds.h) {
            return false;
        }
        self.bounds.x == self.pos.x - self.bounds.w / 2 && self.bounds.y == self.pos.y - self.bounds.h / 2
            && self.friction <= FRICTION_SCALE && -(u32::MAX as i128) <= self.vel.x as i128 && self.vel.x as i128
            <= u32::MAX as i128 && -(u32::MAX as i128) <= self.vel.y as i128 && self.vel.y as i128 <= u32::MAX as i128
    }

    /// Whether the bounds can be moved by the displacement over `delta_t`.
    pub fn can_project_by(&self, delta_t: u32) -> (r: bool)
        ensures
            r == self.can_project(delta_t as int),
    {
        let dx = travel(self.vel.x, self.imp.x, delta_t);
        let dy = travel(self.vel.y, self.imp.y, delta_t);
        fits(dx) && fits(dy) && fits(self.bounds.x as i128 + dx) && fits(self.bounds.y as i128 + dy)
    }

    /// Whether the body can advance by `delta_t`.
    pub fn can_update(&self, delta_t: u32) -> (r: bool)
        ensures
            r == self.advance_fits(delta_t as int),
    {
        let dx = travel(self.vel.x, self.imp.x, delta_t);
        let dy = travel(self.vel.y, self.imp.y, delta_t);
        if !fits(dx) || !fits(dy) {
            return false;
        }
        let nx: i128 = self.pos.x as i128 + dx;
        let ny: i128 = self.pos.y as i128 + dy;
        if !fits(nx) || !fits(ny) {
            return false;
        }
        is_placeable(Vec2::new(nx as i64, ny as i64), self.bounds.w, self.bounds.h)
    }

    /// The displacement over `dt` fits the coordinate type.
    pub open spec fn step_fits(self, dt: int) -> bool {
        fits_i64(self.spec_step(dt).0) && fits_i64(self.spec_step(dt).1)
    }

    /// A body at rest at the origin, four pixels wide and high.
    pub fn new() -> (r: Movable)
        ensures
            r.wf(),
            r.spec_pos() == Vec2::zero_spec(),
            r.spec_vel() == Vec2::zero_spec(),
            r.spec_imp() == Vec2::zero_spec(),
            r.spec_friction() == 750,
            r.spec_speed() == 50_000,
            r.spec_weight() == 80,
            r.spec_bounds() == placed(Vec2::zero_spec(), 4_000_000_000, 4_000_000_000),
    {
        let size: (i64, i64) = (4_000_000_000, 4_000_000_000);
        let pos = Vec2::zero();
        let mut m = Movable {
            pos,
            vel: Vec2::zero(),
            imp: Vec2::zero(),
            friction: 750,
            speed: 50_000,
            weight: 80,
            bounds: Rect::new(pos.x, pos.y, size.0, size.1),
        };
        m.update_bounds();
        m
    }

    fn update_bounds(&mut self)
        requires
            placeable(old(self).pos, old(self).bounds.w as int, old(self).bounds.h as int),
        ensures
            final(self).bounds == placed(old(self).pos, old(self).bounds.w as int, old(self).bounds.h as int),
            final(self).pos == old(self).pos,
            final(self).vel == old(self).vel,
            final(self).spec_imp() == old(self).spec_imp(),
            final(self).spec_speed() == old(self).spec_speed(),
            final(self).spec_friction() == old(self).spec_friction(),
            final(self).spec_weight() == old(self).spec_weight(),
    {
        self.bounds.x = self.pos.x - self.bounds.w / 2;
        self.bounds.y = self.pos.y - self.bounds.h / 2;
    }

    /// The same body with extents `size`.
    pub fn with_size(self, size: (i64, i64)) -> (r: Movable)
        requires
            self.wf(),
            placeable(self.spec_pos(), size.0 as int, size.1 as int),
        ensures
            r.wf(),
            r.spec_bounds() == placed(self.spec_pos(), size.0 as int, size.1 as int),
            r.spec_pos() == self.spec_pos(),
            r.spec_vel() == self.spec_vel(),
            r.spec_imp() == self.spec_imp(),
            r.spec_speed() == self.spec_speed(),
            r.spec_friction() == self.spec_friction(),
            r.spec_weight() == self.spec_weight(),
    {
        let mut m = self;
        m.bounds.w = size.0;
        m.bounds.h = size.1;
        m.update_bounds();
        m
    }

    /// The same body with `speed`, its velocity rescaled to it.
    pub fn with_speed(self, speed: u32) -> (r: Movable)
        requires
            self.wf(),
        ensures
            r.wf(),
            r.spec_vel() == scale_to(self.spec_vel(), speed as int),
            r.spec_speed() == speed,
            r.spec_pos() == self.spec_pos(),
            r.spec_bounds() == self.spec_bounds(),
            r.spec_imp() == self.spec_imp(),
            r.spec_friction() == self.spec_friction(),
            r.spec_weight() == self.spec_weight(),
    {
        let mut m = self;
        m.speed = speed;
        m.vel = scaled(m.vel, speed);
        m
    }

    /// The same body moved to `pos`.
    pub fn with_pos(self, pos: Vec2) -> (r: Movable)
        requires
            self.wf(),
            placeable(pos, self.spec_bounds().w as int, self.spec_bounds().h as int),
        ensures
            r.wf(),
            r.spec_pos() == pos,
            r.spec_bounds() == placed(pos, self.spec_bounds().w as int, self.spec_bounds().h as int),
            r.spec_vel() == self.spec_vel(),
            r.spec_imp() == self.spec_imp(),
            r.spec_speed() == self.spec_speed(),
            r.spec_friction() == self.spec_friction(),
            r.spec_weight() == self.spec_weight(),
    {
        let mut m = self;
        m.pos = pos;
        m.update_bounds();
        m
    }

    /// The same body heading along `vel` at its speed.
    pub fn with_vel(self, vel: Vec2) -> (r: Movable)
        requires
            self.wf(),
        ensures
            r.wf(),
            r.spec_vel() == scale_to(vel, self.spec_speed() as int),
            r.spec_pos() == self.spec_pos(),
            r.spec_bounds() == self.spec_bounds(),
            r.spec_imp() == self.spec_imp(),
            r.spec_speed() == self.spec_speed(),
            r.spec_friction() == self.spec_friction(),
            r.spec_weight() == self.spec_weight(),
    {
        let mut m = self;
        m.set_vel(vel);
        m
    }

    /// The squared distance from the position to `target`.
    pub fn distance_to_squared(&self, target: Vec2) -> (r: u128)
        requires
            (self.spec_pos().x - target.x) * (self.spec_pos().x - target.x) + (self.spec_pos().y - target.y) * (
            self.spec_pos().y - target.y) <= u128::MAX,
        ensures
            r == (self.spec_pos().x - target.x) * (self.spec_pos().x - target.x) + (self.spec_pos().y - target.y)
                * (self.spec_pos().y - target.y),
    {
        let dx: i128 = self.pos.x as i128 - target.x as i128;
        let dy: i128 = self.pos.y as i128 - target.y as i128;
        square(dx) + square(dy)
    }

    /// Heads toward `target` at the body's speed.
    pub fn set_vel_to_target(&mut self, target: Vec2)
        requires
            fits_i64(target.x - old(self).spec_pos().x),
            fits_i64(target.y - old(self).spec_pos().y),
        ensures
            old(self).wf() ==> final(self).wf(),
            final(self).spec_vel() == scale_to(
                Vec2 {
                    x: (target.x - old(self).spec_pos().x) as i64,
                    y: (target.y - old(self).spec_pos().y) as i64,
                },
                old(self).spec_speed() as int,
            ),
            final(self).spec_pos() == old(self).spec_pos(),
            final(self).spec_bounds() == old(self).spec_bounds(),
            final(self).spec_imp() == old(self).spec_imp(),
            final(self).spec_speed() == old(self).spec_speed(),
            final(self).spec_friction() == old(self).spec_friction(),
            final(self).spec_weight() == old(self).spec_weight(),
    {
        let d = Vec2::new(target.x - self.pos.x, target.y - self.pos.y);
        self.set_vel(d);
    }

    /// Heads along `vel` at the body's speed.
    pub fn set_vel(&mut self, vel: Vec2)
        ensures
            old(self).wf() ==> final(self).wf(),
            final(self).spec_vel() == scale_to(vel, old(self).spec_speed() as int),
            final(self).spec_pos() == old(self).spec_pos(),
            final(self).spec_bounds() == old(self).spec_bounds(),
            final(self).spec_imp() == old(self).spec_imp(),
            final(self).spec_speed() == old(self).spec_speed(),
            final(self).spec_friction() == old(self).spec_friction(),
            final(self).spec_weight() == old(self).spec_weight(),
    {
        self.vel = scaled(vel, self.speed);
    }

    /// Adds to the accumulated impulse.
    pub fn add_impuls(&mut self, imp: Vec2)
        requires
            fits_i64(old(self).spec_imp().x + imp.x),
            fits_i64(old(self).spec_imp().y + imp.y),
        ensures
            old(self).wf() ==> final(self).wf(),
            final(self).spec_imp() == (Vec2 { x: (old(self).spec_imp().x + imp.x) as i64, y: (old(self).spec_imp().y + imp.y) as i64 }),
            final(self).spec_pos() == old(self).spec_pos(),
            final(self).spec_vel() == old(self).spec_vel(),
            final(self).spec_bounds() == old(self).spec_bounds(),
            final(self).spec_speed() == old(self).spec_speed(),
            final(self).spec_friction() == old(self).spec_friction(),
            final(self).spec_weight() == old(self).spec_weight(),
    {
        self.imp = Vec2::new(self.imp.x + imp.x, self.imp.y + imp.y);
    }

    pub fn bounds(&self) -> (r: Rect)
        ensures
            r == self.spec_bounds(),
    {
        self.bounds
    }

    pub fn pos(&self) -> (r: Vec2)
        ensures
            r == self.spec_pos(),
    {
        self.pos
    }

    pub fn vel(&self) -> (r: Vec2)
        ensures
            r == self.spec_vel(),
    {
        self.vel
    }

    pub fn weight(&self) -> (r: u32)
        ensures
            r == self.spec_weight(),
    {
        self.weight
    }

    pub fn imp(&self) -> (r: Vec2)
        ensures
            r == self.spec_imp(),
    {
        self.imp
    }

    /// The bounds moved by `offset`.
    pub fn offset_bounds(&self, offset: Vec2) -> (r: Rect)
        requires
            fits_i64(self.spec_bounds().x + offset.x),
            fits_i64(self.spec_bounds().y + offset.y),
        ensures
            r == (Rect {
                x: (self.spec_bounds().x + offset.x) as i64,
                y: (self.spec_bounds().y + offset.y) as i64,
                w: self.spec_bounds().w,
                h: self.spec_bounds().h,
            }),
    {
        self.bounds.offset(offset)
    }

    /// The displacement over `delta_t` microseconds, from velocity and
    /// impulse together, and the impulse one step later.
    pub fn next_vel_imp(&self, delta_t: u32) -> (r: (Vec2, Vec2))
        requires
            self.spec_friction() <= FRICTION_SCALE,
            self.step_fits(delta_t as int),
        ensures
            r.0.x == self.spec_step(delta_t as int).0,
            r.0.y == self.spec_step(delta_t as int).1,
            r.1 == decayed(self.spec_imp(), self.spec_friction() as int),
    {
        let dx: i128 = (self.vel.x as i128 + self.imp.x as i128) * delta_t as i128;
        let dy: i128 = (self.vel.y as i128 + self.imp.y as i128) * delta_t as i128;
        (Vec2::new(dx as i64, dy as i64), decay(self.imp, self.friction))
    }

    /// Advances the body by `delta_t` microseconds and decays its impulse.
    pub fn update(&mut self, delta_t: u32)
        requires
            old(self).wf(),
            old(self).advance_fits(delta_t as int),
        ensures
            final(self).wf(),
            final(self).spec_pos().x == old(self).spec_pos().x + old(self).spec_step(delta_t as int).0,
            final(self).spec_pos().y == old(self).spec_pos().y + old(self).spec_step(delta_t as int).1,
            final(self).spec_imp() == decayed(old(self).spec_imp(), old(self).spec_friction() as int),
            old(self).spec_imp() == Vec2::zero_spec() ==> final(self).spec_imp() == Vec2::zero_spec(),
            old(self).spec_friction() < FRICTION_SCALE && old(self).spec_imp() != Vec2::zero_spec()
                ==> final(self).spec_imp().length_sq() < old(self).spec_imp().length_sq(),
            final(self).spec_bounds() == placed(
                final(self).spec_pos(),
                old(self).spec_bounds().w as int,
                old(self).spec_bounds().h as int,
            ),
            final(self).spec_vel() == old(self).spec_vel(),
            final(self).spec_speed() == old(self).spec_speed(),
            final(self).spec_friction() == old(self).spec_friction(),
            final(self).spec_weight() == old(self).spec_weight(),
    {
        proof {
            lemma_decay_shrinks(self.imp, self.friction as int);
        }
        let (d, imp) = self.next_vel_imp(delta_t);
        self.imp = imp;
        self.pos = Vec2::new(self.pos.x + d.x, self.pos.y + d.y);
        self.update_bounds();
    }
}

impl Vec2 {
    pub open spec fn zero_spec() -> Vec2 {
        Vec2 { x: 0, y: 0 }
    }
}

/// The sum of two vectors fits the coordinate type.
pub open spec fn sum_fits(a: Vec2, b: Vec2) -> bool {
    fits_i64(a.x + b.x) && fits_i64(a.y + b.y)
}

pub open spec fn plus(a: Vec2, b: Vec2) -> Vec2 {
    Vec2 { x: (a.x + b.x) as i64, y: (a.y + b.y) as i64 }
}

/// The impulse that pushes a body at `from` away from a body at `other`:
/// the offset between them times the bounce factor, in velocity units.
pub open spec fn shove_impulse(from: Vec2, other: Vec2) -> Vec2 {
    Vec2 {
        x: quot((from.x - other.x) * BOUNCE_VALUE, NANOS_PER_MILLI as int) as i64,
        y: quot((from.y - other.y) * BOUNCE_VALUE, NANOS_PER_MILLI as int) as i64,
    }
}

/// The velocities the two bodies take from each other on `axis`: the
/// component along the axis is exchanged and the other kept, or both are
/// exchanged.
pub open spec fn exchanged(axis: CollisionAxis, va: Vec2, vb: Vec2) -> (Vec2, Vec2) {
    match axis {
        CollisionAxis::X => (Vec2 { x: vb.x, y: va.y }, Vec2 { x: va.x, y: vb.y }),
        CollisionAxis::Y => (Vec2 { x: va.x, y: vb.y }, Vec2 { x: vb.x, y: va.y }),
        CollisionAxis::Both => (vb, va),
    }
}

/// A velocity turned into an impulse: divided by the mass, times the bounce
/// factor.
pub open spec fn bounce_impulse(v: Vec2, weight: int) -> Vec2 {
    Vec2 {
        x: quot(v.x * BOUNCE_VALUE, weight) as i64,
        y: quot(v.y * BOUNCE_VALUE, weight) as i64,
    }
}

/// The impulses of the bounce of `ma` and `mb` over `dt`.
pub open spec fn bounce_impulses(ma: Movable, mb: Movable, dt: int) -> (Vec2, Vec2) {
    let (va, vb) = exchanged(collision_axis(ma, mb, dt), ma.spec_vel(), mb.spec_vel());
    (bounce_impulse(va, ma.spec_weight() as int), bounce_impulse(vb, mb.spec_weight() as int))
}

proof fn lemma_quot_by_positive(a: int, b: int)
    requires
        b > 0,
    ensures
        abs(quot(a, b)) == abs(a) / b,
        abs(quot(a, b)) <= abs(a),
{
    assert(abs(a) / b <= abs(a)) by (nonlinear_arith)
        requires b > 0;
}

/// Whether the sum of two vectors fits the coordinate type.
pub fn sum_fits_exec(a: Vec2, b: Vec2) -> (r: bool)
    ensures
        r == sum_fits(a, b),
{
    fits(a.x as i128 + b.x as i128) && fits(a.y as i128 + b.y as i128)
}

/// The impulse that pushes a body at `from` away from one at `other`.
pub fn shove_impulse_of(from: Vec2, other: Vec2) -> (r: Vec2)
    ensures
        r == shove_impulse(from, other),
{
    let ox: i128 = from.x as i128 - other.x as i128;
    let oy: i128 = from.y as i128 - other.y as i128;
    let b: i128 = BOUNCE_VALUE as i128;
    assert(b == 4);
    let dx: i128 = ox * b;
    let dy: i128 = oy * b;
    proof {
        lemma_quot_by_positive(dx as int, NANOS_PER_MILLI as int);
        lemma_quot_by_positive(dy as int, NANOS_PER_MILLI as int);
        assert(abs(dx as int) / 1_000_000 < 0x8000_0000_0000_0000) by (nonlinear_arith)
            requires abs(dx as int) < 0x4_0000_0000_0000_0000;
        assert(abs(dy as int) / 1_000_000 < 0x8000_0000_0000_0000) by (nonlinear_arith)
            requires abs(dy as int) < 0x4_0000_0000_0000_0000;
    }
    let x = div_toward_zero(dx, NANOS_PER_MILLI as i128);
    let y = div_toward_zero(dy, NANOS_PER_MILLI as i128);
    Vec2::new(x as i64, y as i64)
}

fn bounce_vec(v: Vec2, weight: u32) -> (r: Vec2)
    requires
        weight > 0,
        abs(v.x as int) <= u32::MAX,
        abs(v.y as int) <= u32::MAX,
    ensures
        r == bounce_impulse(v, weight as int),
{
    let b: i128 = BOUNCE_VALUE as i128;
    assert(b == 4);
    let bx: i128 = v.x as i128 * b;
    let by: i128 = v.y as i128 * b;
    proof {
        lemma_quot_by_positive(bx as int, weight as int);
        lemma_quot_by_positive(by as int, weight as int);
    }
    let x = div_toward_zero(bx, weight as i128);
    let y = div_toward_zero(by, weight as i128);
    Vec2::new(x as i64, y as i64)
}

/// The impulses of the bounce of `ma` and `mb` over `delta_t`.
pub fn bounce_impulses_of(ma: &Movable, mb: &Movable, delta_t: u32) -> (r: (Vec2, Vec2))
    requires
        ma.wf(),
        mb.wf(),
        ma.spec_weight() > 0,
        mb.spec_weight() > 0,
        ma.can_project(delta_t as int),
        mb.can_project(delta_t as int),
    ensures
        r == bounce_impulses(*ma, *mb, delta_t as int),
{
    let (va, vb) = match get_collision_axis(ma, mb, delta_t) {
        CollisionAxis::X => (Vec2::new(mb.vel.x, ma.vel.y), Vec2::new(ma.vel.x, mb.vel.y)),
        CollisionAxis::Y => (Vec2::new(ma.vel.x, mb.vel.y), Vec2::new(mb.vel.x, ma.vel.y)),
        CollisionAxis::Both => (mb.vel, ma.vel),
    };
    (bounce_vec(va, ma.weight), bounce_vec(vb, mb.weight))
}

/// Pushes two bodies apart along the line between their positions.
pub fn shove_resolution(ma: &mut Movable, mb: &mut Movable)
    requires
        sum_fits(old(ma).spec_imp(), shove_impulse(old(ma).spec_pos(), old(mb).spec_pos())),
        sum_fits(old(mb).spec_imp(), shove_impulse(old(mb).spec_pos(), old(ma).spec_pos())),
    ensures
        final(ma).spec_imp() == plus(old(ma).spec_imp(), shove_impulse(old(ma).spec_pos(), old(mb).spec_pos())),
        final(mb).spec_imp() == plus(old(mb).spec_imp(), shove_impulse(old(mb).spec_pos(), old(ma).spec_pos())),
        final(ma).spec_pos() == old(ma).spec_pos(),
        final(mb).spec_pos() == old(mb).spec_pos(),
        final(ma).spec_vel() == old(ma).spec_vel(),
        final(mb).spec_vel() == old(mb).spec_vel(),
        final(ma).spec_bounds() == old(ma).spec_bounds(),
        final(mb).spec_bounds() == old(mb).spec_bounds(),
        final(ma).spec_speed() == old(ma).spec_speed(),
        final(mb).spec_speed() == old(mb).spec_speed(),
        final(ma).spec_friction() == old(ma).spec_friction(),
        final(mb).spec_friction() == old(mb).spec_friction(),
        final(ma).spec_weight() == old(ma).spec_weight(),
        final(mb).spec_weight() == old(mb).spec_weight(),
        old(ma).wf() ==> final(ma).wf(),
        old(mb).wf() ==> final(mb).wf(),
{
    let ia = shove_impulse_of(ma.pos, mb.pos);
    let ib = shove_impulse_of(mb.pos, ma.pos);
    ma.add_impuls(ia);
    mb.add_impuls(ib);
}

/// Bounces two colliding bodies: on the axis they collide on they exchange
/// velocities, which become impulses scaled by mass and the bounce factor;
/// their own velocities stop.
pub fn bounce_resolution(ma: &mut Movable, mb: &mut Movable, delta_t: u32)
    requires
        old(ma).wf(),
        old(mb).wf(),
        old(ma).spec_weight() > 0,
        old(mb).spec_weight() > 0,
        old(ma).can_project(delta_t as int),
        old(mb).can_project(delta_t as int),
        sum_fits(old(ma).spec_imp(), bounce_impulses(*old(ma), *old(mb), delta_t as int).0),
        sum_fits(old(mb).spec_imp(), bounce_impulses(*old(ma), *old(mb), delta_t as int).1),
    ensures
        final(ma).wf(),
        final(mb).wf(),
        final(ma).spec_imp() == plus(old(ma).spec_imp(), bounce_impulses(*old(ma), *old(mb), delta_t as int).0),
        final(mb).spec_imp() == plus(old(mb).spec_imp(), bounce_impulses(*old(ma), *old(mb), delta_t as int).1),
        final(ma).spec_vel() == Vec2::zero_spec(),
        final(mb).spec_vel() == Vec2::zero_spec(),
        final(ma).spec_pos() == old(ma).spec_pos(),
        final(mb).spec_pos() == old(mb).spec_pos(),
        final(ma).spec_bounds() == old(ma).spec_bounds(),
        final(mb).spec_bounds() == old(mb).spec_bounds(),
        final(ma).spec_speed() == old(ma).spec_speed(),
        final(mb).spec_speed() == old(mb).spec_speed(),
        final(ma).spec_friction() == old(ma).spec_friction(),
        final(mb).spec_friction() == old(mb).spec_friction(),
        final(ma).spec_weight() == old(ma).spec_weight(),
        final(mb).spec_weight() == old(mb).spec_weight(),
{
    let (ia, ib) = bounce_impulses_of(ma, mb, delta_t);

    ma.set_vel(Vec2::zero());
    ma.add_impuls(ia);

    mb.set_vel(Vec2::zero());
    mb.add_impuls(ib);
}

fn square(v: i128) -> (r: u128)
    requires
        -0x1_0000_0000_0000_0000 < v < 0x1_0000_0000_0000_0000,
    ensures
        r == v * v,
        -0x8000_0000_0000_0000 <= v <= 0x8000_0000_0000_0000 ==> r <= 0x4000_0000_0000_0000_0000_0000_0000_0000,
{
    let a: u128 = if v < 0 { (-v) as u128 } else { v as u128 };
    assert(a <= 0x8000_0000_0000_0000 ==> a * a <= 0x8000_0000_0000_0000 * 0x8000_0000_0000_0000) by (nonlinear_arith);
    assert(a * a < 0x1_0000_0000_0000_0000 * 0x1_0000_0000_0000_0000) by (nonlinear_arith)
        requires a < 0x1_0000_0000_0000_0000;
    assert(a * a == v * v) by (nonlinear_arith)
        requires a == v || a == -v;
    a * a
}

/// The distance covered at `vel + imp` over `dt`.
fn travel(vel: i64, imp: i64, dt: u32) -> (r: i128)
    ensures
        r == (vel + imp) * dt,
{
    let v: i128 = vel as i128 + imp as i128;
    assert(-0x1_0000_0000_0000_0000 * 0x1_0000_0000 <= v * dt <= 0x1_0000_0000_0000_0000 * 0x1_0000_0000)
        by (nonlinear_arith)
        requires -0x1_0000_0000_0000_0000 <= v <= 0x1_0000_0000_0000_0000, 0 <= dt <= 0x1_0000_0000;
    v * dt as i128
}

/// Whether bounds of extents `w`, `h` centred on `pos` can be represented.
pub fn is_placeable(pos: Vec2, w: i64, h: i64) -> (r: bool)
    ensures
        r == placeable(pos, w as int, h as int),
{
    if w < 0 || h < 0 {
        return false;
    }
    let left: i128 = pos.x as i128 - (w / 2) as i128;
    let top: i128 = pos.y as i128 - (h / 2) as i128;
    fits(left) && fits(left + w as i128) && fits(top) && fits(top + h as i128)
}

/// The squared distance between two points, or `None` where it does not
/// fit a `u128`.
pub fn squared_distance(a: Vec2, b: Vec2) -> (r: Option<u128>)
    ensures
        r matches Some(v) ==> v == (a.x - b.x) * (a.x - b.x) + (a.y - b.y) * (a.y - b.y),
        r is None ==> (a.x - b.x) * (a.x - b.x) + (a.y - b.y) * (a.y - b.y) > u128::MAX,
{
    let sx = square(a.x as i128 - b.x as i128);
    let sy = square(a.y as i128 - b.y as i128);
    if sx > u128::MAX - sy {
        None
    } else {
        Some(sx + sy)
    }
}

/// The magnified direction of `v`.
fn magnify(v: Vec2) -> (r: Vec2)
    ensures
        r == magnified(v),
{
    let m = MAGNIFY;
    if -m <= v.x && v.x <= m && -m <= v.y && v.y <= m {
        assert(-0x4000_0000_0000_0000 <= v.x * m <= 0x4000_0000_0000_0000) by (nonlinear_arith)
            requires -m <= v.x <= m, m == 0x8000_0000;
        assert(-0x4000_0000_0000_0000 <= v.y * m <= 0x4000_0000_0000_0000) by (nonlinear_arith)
            requires -m <= v.y <= m, m == 0x8000_0000;
        Vec2::new(v.x * m, v.y * m)
    } else {
        v
    }
}

/// `v` scaled to length `speed`.
fn scaled(v: Vec2, speed: u32) -> (r: Vec2)
    ensures
        r == scale_to(v, speed as int),
        abs(r.x as int) <= speed,
        abs(r.y as int) <= speed,
{
    let v = magnify(v);
    let n: u128 = square(v.x as i128) + square(v.y as i128);
    let len = integer_sqrt(n);
    if len == 0 {
        return Vec2::zero();
    }
    proof {
        lemma_isqrt(n as nat);
        lemma_component_within_length(v.x as int, v.y as int, len as int);
        lemma_component_within_length(v.y as int, v.x as int, len as int);
        lemma_scaled_bound(v.x as int, speed as int, len as int);
        lemma_scaled_bound(v.y as int, speed as int, len as int);
    }
    let x = div_toward_zero(v.x as i128 * speed as i128, len as i128);
    let y = div_toward_zero(v.y as i128 * speed as i128, len as i128);
    Vec2::new(x as i64, y as i64)
}

proof fn lemma_component_within_length(a: int, b: int, len: int)
    requires
        len >= 0,
        a * a + b * b < (len + 1) * (len + 1),
    ensures
        abs(a) <= len,
{
    assert(a * a <= a * a + b * b) by (nonlinear_arith);
    if abs(a) > len {
        assert((len + 1) * (len + 1) <= abs(a) * abs(a)) by (nonlinear_arith)
            requires abs(a) >= len + 1, len >= 0;
        assert(abs(a) * abs(a) == a * a) by (nonlinear_arith);
    }
}

proof fn lemma_scaled_bound(c: int, speed: int, len: int)
    requires
        len > 0,
        abs(c) <= len,
        0 <= speed <= u32::MAX,
        abs(c) < 0x8000_0000_0000_0001,
    ensures
        abs(quot(c * speed, len)) <= speed,
        abs(c * speed) < 0x1_0000_0000_0000_0000_0000_0000,
{
    assert(abs(c * speed) == abs(c) * speed) by (nonlinear_arith)
        requires speed >= 0;
    assert(abs(c) * speed <= len * speed) by (nonlinear_arith)
        requires abs(c) <= len, speed >= 0;
    assert(abs(c) * speed < 0x1_0000_0000_0000_0000_0000_0000) by (nonlinear_arith)
        requires abs(c) < 0x8000_0000_0000_0001, 0 <= speed <= u32::MAX;
    assert((abs(c) * speed) / len <= speed) by (nonlinear_arith)
        requires abs(c) * speed <= len * speed, len > 0, speed >= 0;
}

/// The impulse one step later.
fn decay(imp: Vec2, friction: u32) -> (r: Vec2)
    requires
        friction <= FRICTION_SCALE,
    ensures
        r == decayed(imp, friction as int),
{
    proof {
        lemma_shrinks(imp.x as int, friction as int);
        lemma_shrinks(imp.y as int, friction as int);
    }
    let x = div_toward_zero(imp.x as i128 * friction as i128, FRICTION_SCALE as i128);
    let y = div_toward_zero(imp.y as i128 * friction as i128, FRICTION_SCALE as i128);
    let d = Vec2::new(x as i64, y as i64);
    if square(x) + square(y) > IMPULSE_EPSILON {
        d
    } else {
        Vec2::zero()
    }
}

/// A component times a factor of at most one, rounded toward zero, is no
/// larger; below one it is smaller unless it is zero.
proof fn lemma_shrinks(c: int, friction: int)
    requires
        0 <= friction <= FRICTION_SCALE,
    ensures
        abs(quot(c * friction, FRICTION_SCALE as int)) <= abs(c),
        friction < FRICTION_SCALE && c != 0 ==> abs(quot(c * friction, FRICTION_SCALE as int)) < abs(c),
        quot(c * friction, FRICTION_SCALE as int) == 0 || (quot(c * friction, FRICTION_SCALE as int) < 0) == (c
            < 0),
{
    assert(abs(c * friction) == abs(c) * friction) by (nonlinear_arith)
        requires friction >= 0;
    assert(abs(c) * friction <= abs(c) * 1000) by (nonlinear_arith)
        requires friction <= 1000;
    assert((abs(c) * friction) / 1000 <= abs(c)) by (nonlinear_arith)
        requires abs(c) * friction <= abs(c) * 1000;
    if friction < 1000 && c != 0 {
        assert(abs(c) * friction < abs(c) * 1000) by (nonlinear_arith)
            requires friction < 1000, abs(c) > 0;
        assert((abs(c) * friction) / 1000 < abs(c)) by (nonlinear_arith)
            requires abs(c) * friction < abs(c) * 1000;
    }
    if c < 0 {
        assert(c * friction <= 0) by (nonlinear_arith)
            requires c < 0, friction >= 0;
    } else {
        assert(c * friction >= 0) by (nonlinear_arith)
            requires c >= 0, friction >= 0;
    }
}

/// The larger magnitude of the two components.
pub open spec fn max_abs(v: Vec2) -> nat {
    if abs(v.x as int) >= abs(v.y as int) {
        abs(v.x as int) as nat
    } else {
        abs(v.y as int) as nat
    }
}

proof fn lemma_square_monotone(a: int, b: int)
    requires
        abs(a) <= abs(b),
    ensures
        a * a <= b * b,
        abs(a) < abs(b) ==> a * a < b * b,
{
    assert(abs(a) * abs(a) <= abs(b) * abs(b)) by (nonlinear_arith)
        requires abs(a) <= abs(b), abs(a) >= 0;
    assert(abs(a) < abs(b) ==> abs(a) * abs(a) < abs(b) * abs(b)) by (nonlinear_arith)
        requires abs(a) >= 0;
    assert(abs(a) * abs(a) == a * a) by (nonlinear_arith);
    assert(abs(b) * abs(b) == b * b) by (nonlinear_arith);
}

/// Decay never amplifies an impulse; with a factor below one a nonzero
/// impulse strictly shrinks, and a zero one stays zero.
pub proof fn lemma_decay_shrinks(imp: Vec2, friction: int)
    requires
        0 <= friction <= FRICTION_SCALE,
    ensures
        abs(decayed(imp, friction).x as int) <= abs(imp.x as int),
        abs(decayed(imp, friction).y as int) <= abs(imp.y as int),
        decayed(imp, friction).length_sq() <= imp.length_sq(),
        imp == Vec2::zero_spec() ==> decayed(imp, friction) == Vec2::zero_spec(),
        friction < FRICTION_SCALE && imp != Vec2::zero_spec() ==> {
            &&& decayed(imp, friction).length_sq() < imp.length_sq()
            &&& max_abs(decayed(imp, friction)) < max_abs(imp)
        },
{
    lemma_shrinks(imp.x as int, friction);
    lemma_shrinks(imp.y as int, friction);
    let d = decayed(imp, friction);
    lemma_square_monotone(d.x as int, imp.x as int);
    lemma_square_monotone(d.y as int, imp.y as int);
}

/// An impulse decaying under a factor below one comes to rest within as many
/// steps as its larger component's magnitude, and stays at rest.
pub proof fn lemma_decay_reaches_rest(imp: Vec2, friction: int, n: nat)
    requires
        0 <= friction < FRICTION_SCALE,
        n >= max_abs(imp),
    ensures
        decayed_times(imp, friction, n) == Vec2::zero_spec(),
    decreases n,
{
    if n > 0 {
        lemma_decay_shrinks(imp, friction);
        lemma_decay_reaches_rest(decayed(imp, friction), friction, (n - 1) as nat);
    } else {
        assert(imp.x == 0 && imp.y == 0);
    }
}

proof fn lemma_pow_nonnegative(b: int, e: nat)
    requires
        b >= 0,
    ensures
        pow(b, e) >= 0,
    decreases e,
{
    reveal(pow);
    if e > 0 {
        lemma_pow_nonnegative(b, (e - 1) as nat);
        assert(b * pow(b, (e - 1) as nat) >= 0) by (nonlinear_arith)
            requires b >= 0, pow(b, (e - 1) as nat) >= 0;
    }
}

/// One step of decay shrinks the larger component at least by the friction
/// factor, before and after a negligible impulse is dropped.
pub proof fn lemma_decay_step_bound(imp: Vec2, friction: int)
    requires
        0 <= friction <= FRICTION_SCALE,
    ensures
        max_abs(damped(imp, friction)) * FRICTION_SCALE <= max_abs(imp) * friction,
        max_abs(decayed(imp, friction)) * FRICTION_SCALE <= max_abs(imp) * friction,
{
    let d = damped(imp, friction);
    lemma_shrinks(imp.x as int, friction);
    lemma_shrinks(imp.y as int, friction);
    let ax = abs(imp.x as int);
    let ay = abs(imp.y as int);
    let m = max_abs(imp) as int;
    assert(abs(imp.x * friction) == ax * friction) by (nonlinear_arith)
        requires friction >= 0, ax == abs(imp.x as int);
    assert(abs(imp.y * friction) == ay * friction) by (nonlinear_arith)
        requires friction >= 0, ay == abs(imp.y as int);
    assert((ax * friction) / 1000 * 1000 <= ax * friction) by (nonlinear_arith)
        requires ax * friction >= 0;
    assert((ay * friction) / 1000 * 1000 <= ay * friction) by (nonlinear_arith)
        requires ay * friction >= 0;
    assert(ax * friction <= m * friction) by (nonlinear_arith)
        requires ax <= m, friction >= 0;
    assert(ay * friction <= m * friction) by (nonlinear_arith)
        requires ay <= m, friction >= 0;
    assert(m * friction >= 0) by (nonlinear_arith)
        requires m >= 0, friction >= 0;
}

/// An impulse comes to rest within logarithmically many steps: after `n`
/// steps it is zero once its larger component times the factor to the `n`
/// falls below the drop threshold, 45 millipixels per second, times the
/// scale to the `n`.
pub proof fn lemma_decay_rest_after(imp: Vec2, friction: int, n: nat)
    requires
        0 <= friction <= FRICTION_SCALE,
        n >= 1,
        max_abs(imp) * pow(friction, n) < 45 * pow(FRICTION_SCALE as int, n),
    ensures
        decayed_times(imp, friction, n) == Vec2::zero_spec(),
    decreases n,
{
    lemma_decay_step_bound(imp, friction);
    let v1 = decayed(imp, friction);
    assert(decayed_times(imp, friction, n) == decayed_times(v1, friction, (n - 1) as nat));
    let m = max_abs(imp) as int;
    let m1 = max_abs(v1) as int;
    let pf = pow(friction, (n - 1) as nat);
    let ps = pow(FRICTION_SCALE as int, (n - 1) as nat);
    lemma_pow_nonnegative(friction, (n - 1) as nat);
    reveal(pow);
    assert(pow(friction, n) == friction * pf);
    assert(pow(FRICTION_SCALE as int, n) == 1000 * ps);
    if n == 1 {
        assert(pf == 1 && ps == 1);
        let d = damped(imp, friction);
        let md = max_abs(d) as int;
        assert(md * 1000 < 45 * 1000);
        assert(d.length_sq() <= 2 * 44 * 44) by (nonlinear_arith)
            requires md < 45, abs(d.x as int) <= md, abs(d.y as int) <= md, md >= 0;
        assert(v1 == Vec2::zero_spec());
        assert(decayed_times(v1, friction, 0) == v1);
    } else {
        assert(m * friction * pf == m * (friction * pf)) by (nonlinear_arith);
        assert(m1 * 1000 * pf <= m * friction * pf) by (nonlinear_arith)
            requires m1 * 1000 <= m * friction, pf >= 0;
        assert(m1 * pf < 45 * ps) by (nonlinear_arith)
            requires m1 * 1000 * pf <= m * (friction * pf), m * (friction * pf) < 45 * (1000 * ps);
        lemma_decay_rest_after(v1, friction, (n - 1) as nat);
    }
}

} // verus!
