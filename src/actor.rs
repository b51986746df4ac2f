use vstd::prelude::*;

use crate::geometry::{Vec2, fits, fits_i64};
use crate::movable::{
    Movable,
    scale_to,
    shove_impulse,
    shove_resolution,
    squared_distance,
    sum_fits,
    plus,
    bounce_impulses,
    bounce_resolution,
    shove_impulse_of,
    bounce_impulses_of,
    sum_fits_exec,
};

verus! {

/// The key of the player among the actors.
pub const PLAYER_KEY: usize = 0;

/// A squared distance, in nanopixels squared, under which a target counts as
/// reached: 0.004 pixels squared.
pub const DISTANCE_EPSILON: u128 = 4_000_000_000_000_000;

#[derive(Clone, Copy, Debug, PartialEq, Eq, Structural)]
pub enum ActorKind {
    Player,
    Enemy,
}

#[derive(Clone, Copy, Debug, PartialEq, Eq, Structural)]
pub enum ActorState {
    Idle,
    MovingTo(Vec2),
}

/// How a pair of actors responds to a collision.
#[derive(Clone, Copy, Debug, PartialEq, Eq, Structural)]
pub enum CollisionResponse {
    Shove,
    Bounce,
    Ignore,
}

pub open spec fn dist_sq(a: Vec2, b: Vec2) -> int {
    (a.x - b.x) * (a.x - b.x) + (a.y - b.y) * (a.y - b.y)
}

/// The response of each pair of kinds: every pair is shoved apart.
pub open spec fn response(a: ActorKind, b: ActorKind) -> CollisionResponse {
    match (a, b) {
        (ActorKind::Player, ActorKind::Player) => CollisionResponse::Shove,
        (ActorKind::Player, ActorKind::Enemy) => CollisionResponse::Shove,
        (ActorKind::Enemy, ActorKind::Player) => CollisionResponse::Shove,
        (ActorKind::Enemy, ActorKind::Enemy) => CollisionResponse::Shove,
    }
}

pub fn response_for(a: ActorKind, b: ActorKind) -> (r: CollisionResponse)
    ensures
        r == response(a, b),
{
    match (a, b) {
        (ActorKind::Player, ActorKind::Player) => CollisionResponse::Shove,
        (ActorKind::Player, ActorKind::Enemy) => CollisionResponse::Shove,
        (ActorKind::Enemy, ActorKind::Player) => CollisionResponse::Shove,
        (ActorKind::Enemy, ActorKind::Enemy) => CollisionResponse::Shove,
    }
}

/// A body with a kind and what it is doing.
pub struct Actor {
    pub movable: Movable,
    pub kind: ActorKind,
    pub state: ActorState,
}

impl Actor {
    /// The next state of an actor, where it changes. A player heads for a
    /// click that is not where it stands, and stops on reaching its target;
    /// an enemy heads for the player, where there is one.
    pub open spec fn decision(self, click: Option<Vec2>, player_pos: Option<Vec2>) -> Option<ActorState> {
        match self.kind {
            ActorKind::Player => {
                if click is Some && dist_sq(self.movable.spec_pos(), click->Some_0) > DISTANCE_EPSILON {
                    Some(ActorState::MovingTo(click->Some_0))
                } else if self.state is MovingTo && dist_sq(self.movable.spec_pos(), self.state->MovingTo_0)
                    < DISTANCE_EPSILON {
                    Some(ActorState::Idle)
                } else {
                    None
                }
            },
            ActorKind::Enemy => match player_pos {
                Some(p) => Some(ActorState::MovingTo(p)),
                None => None,
            },
        }
    }

    /// The state can be taken: the way to a target fits the coordinate type.
    pub open spec fn can_take(self, state: ActorState) -> bool {
        match state {
            ActorState::MovingTo(tp) => fits_i64(tp.x - self.movable.spec_pos().x) && fits_i64(
                tp.y - self.movable.spec_pos().y,
            ),
            ActorState::Idle => true,
        }
    }

    /// The velocity that taking `state` gives: toward the target at the
    /// body's speed, or none.
    pub open spec fn velocity_for(self, state: ActorState) -> Vec2 {
        match state {
            ActorState::MovingTo(tp) => scale_to(
                Vec2 {
                    x: (tp.x - self.movable.spec_pos().x) as i64,
                    y: (tp.y - self.movable.spec_pos().y) as i64,
                },
                self.movable.spec_speed() as int,
            ),
            ActorState::Idle => Vec2 { x: 0, y: 0 },
        }
    }

    pub fn new(movable: Movable, kind: ActorKind) -> (r: Actor)
        ensures
            r.movable == movable,
            r.kind == kind,
            r.state == ActorState::Idle,
    {
        Actor { movable, kind, state: ActorState::Idle }
    }

    pub fn new_player(movable: Movable) -> (r: Actor)
        ensures
            r.movable == movable,
            r.kind == ActorKind::Player,
            r.state == ActorState::Idle,
    {
        Self::new(movable, ActorKind::Player)
    }

    pub fn new_enemy(movable: Movable) -> (r: Actor)
        ensures
            r.movable == movable,
            r.kind == ActorKind::Enemy,
            r.state == ActorState::Idle,
    {
        Self::new(movable, ActorKind::Enemy)
    }

    /// Decides the next state from the click of this frame, if any, and the
    /// player's position, if there is a player.
    pub fn decide(&self, click: Option<Vec2>, player_pos: Option<Vec2>) -> (r: Option<ActorState>)
        ensures
            r == self.decision(click, player_pos),
    {
        match self.kind {
            ActorKind::Player => {
                if let Some(tp) = click {
                    if exceeds(self.movable.pos(), tp, DISTANCE_EPSILON) {
                        return Some(ActorState::MovingTo(tp));
                    }
                }
                if let ActorState::MovingTo(tp) = self.state {
                    if below(self.movable.pos(), tp, DISTANCE_EPSILON) {
                        return Some(ActorState::Idle);
                    }
                }
                None
            },
            ActorKind::Enemy => match player_pos {
                Some(p) => Some(ActorState::MovingTo(p)),
                None => None,
            },
        }
    }

    /// Whether `state` can be taken.
    pub fn can_take_state(&self, state: ActorState) -> (r: bool)
        ensures
            r == self.can_take(state),
    {
        match state {
            ActorState::MovingTo(tp) => fits(tp.x as i128 - self.movable.pos().x as i128) && fits(
                tp.y as i128 - self.movable.pos().y as i128,
            ),
            ActorState::Idle => true,
        }
    }

    /// Takes `state` and the velocity it gives.
    pub fn set_state(&mut self, state: ActorState)
        requires
            old(self).can_take(state),
        ensures
            final(self).state == state,
            final(self).kind == old(self).kind,
            final(self).movable.spec_vel() == old(self).velocity_for(state),
            final(self).movable.spec_pos() == old(self).movable.spec_pos(),
            final(self).movable.spec_bounds() == old(self).movable.spec_bounds(),
            final(self).movable.spec_imp() == old(self).movable.spec_imp(),
            final(self).movable.spec_speed() == old(self).movable.spec_speed(),
            final(self).movable.spec_friction() == old(self).movable.spec_friction(),
            final(self).movable.spec_weight() == old(self).movable.spec_weight(),
            old(self).movable.wf() ==> final(self).movable.wf(),
    {
        match state {
            ActorState::MovingTo(tp) => {
                self.movable.set_vel_to_target(tp);
            },
            ActorState::Idle => {
                self.movable.set_vel(Vec2::zero());
            },
        }
        self.state = state;
    }

    /// Advances the actor's body by `delta_t` microseconds.
    pub fn update(&mut self, delta_t: u32)
        requires
            old(self).movable.wf(),
            old(self).movable.advance_fits(delta_t as int),
        ensures
            final(self).kind == old(self).kind,
            final(self).state == old(self).state,
            final(self).movable.wf(),
            final(self).movable.spec_pos().x == old(self).movable.spec_pos().x + old(self).movable.spec_step(
                delta_t as int,
            ).0,
            final(self).movable.spec_pos().y == old(self).movable.spec_pos().y + old(self).movable.spec_step(
                delta_t as int,
            ).1,
            final(self).movable.spec_imp() == crate::movable::decayed(
                old(self).movable.spec_imp(),
                old(self).movable.spec_friction() as int,
            ),
            final(self).movable.spec_vel() == old(self).movable.spec_vel(),
            final(self).movable.spec_bounds() == crate::movable::placed(
                final(self).movable.spec_pos(),
                old(self).movable.spec_bounds().w as int,
                old(self).movable.spec_bounds().h as int,
            ),
            final(self).movable.spec_speed() == old(self).movable.spec_speed(),
            final(self).movable.spec_friction() == old(self).movable.spec_friction(),
            final(self).movable.spec_weight() == old(self).movable.spec_weight(),
    {
        self.movable.update(delta_t);
    }
}

/// The squared distance between `a` and `b` is above `eps`.
fn exceeds(a: Vec2, b: Vec2, eps: u128) -> (r: bool)
    ensures
        r == (dist_sq(a, b) > eps),
{
    match squared_distance(a, b) {
        Some(d) => d > eps,
        None => true,
    }
}

/// The squared distance between `a` and `b` is below `eps`.
fn below(a: Vec2, b: Vec2, eps: u128) -> (r: bool)
    ensures
        r == (dist_sq(a, b) < eps),
{
    match squared_distance(a, b) {
        Some(d) => d < eps,
        None => false,
    }
}

/// What resolving a collision between `aa` and `ab` over `dt` asks: the
/// impulses their response gives fit the coordinate type.
pub open spec fn can_resolve_spec(aa: Actor, ab: Actor, dt: int) -> bool {
    &&& response(aa.kind, ab.kind) == CollisionResponse::Shove ==> {
        &&& sum_fits(
            aa.movable.spec_imp(),
            shove_impulse(aa.movable.spec_pos(), ab.movable.spec_pos()),
        )
        &&& sum_fits(
            ab.movable.spec_imp(),
            shove_impulse(ab.movable.spec_pos(), aa.movable.spec_pos()),
        )
    }
    &&& response(aa.kind, ab.kind) == CollisionResponse::Bounce ==> {
        &&& aa.movable.wf()
        &&& ab.movable.wf()
        &&& aa.movable.spec_weight() > 0
        &&& ab.movable.spec_weight() > 0
        &&& aa.movable.can_project(dt)
        &&& ab.movable.can_project(dt)
        &&& sum_fits(
            aa.movable.spec_imp(),
            bounce_impulses(aa.movable, ab.movable, dt).0,
        )
        &&& sum_fits(
            ab.movable.spec_imp(),
            bounce_impulses(aa.movable, ab.movable, dt).1,
        )
    }
}

/// Whether a collision between `aa` and `ab` can be resolved over
/// `delta_t`.
pub fn can_resolve(aa: &Actor, ab: &Actor, delta_t: u32) -> (r: bool)
    ensures
        r == can_resolve_spec(*aa, *ab, delta_t as int),
{
    match response_for(aa.kind, ab.kind) {
        CollisionResponse::Shove => {
            let ia = shove_impulse_of(aa.movable.pos(), ab.movable.pos());
            let ib = shove_impulse_of(ab.movable.pos(), aa.movable.pos());
            sum_fits_exec(aa.movable.imp(), ia) && sum_fits_exec(ab.movable.imp(), ib)
        },
        CollisionResponse::Bounce => {
            if !(aa.movable.is_wf() && ab.movable.is_wf() && aa.movable.weight() > 0 && ab.movable.weight() > 0
                && aa.movable.can_project_by(delta_t) && ab.movable.can_project_by(delta_t)) {
                return false;
            }
            let (ia, ib) = bounce_impulses_of(&aa.movable, &ab.movable, delta_t);
            sum_fits_exec(aa.movable.imp(), ia) && sum_fits_exec(ab.movable.imp(), ib)
        },
        CollisionResponse::Ignore => true,
    }
}

/// Resolves a collision between two actors by the response of their kinds.
pub fn resolve_collision(aa: &mut Actor, ab: &mut Actor, delta_t: u32)
    requires
        can_resolve_spec(*old(aa), *old(ab), delta_t as int),
    ensures
        final(aa).kind == old(aa).kind,
        final(ab).kind == old(ab).kind,
        final(aa).state == old(aa).state,
        final(ab).state == old(ab).state,
        response(old(aa).kind, old(ab).kind) == CollisionResponse::Shove ==> {
            &&& final(aa).movable.spec_imp() == plus(
                old(aa).movable.spec_imp(),
                shove_impulse(old(aa).movable.spec_pos(), old(ab).movable.spec_pos()),
            )
            &&& final(ab).movable.spec_imp() == plus(
                old(ab).movable.spec_imp(),
                shove_impulse(old(ab).movable.spec_pos(), old(aa).movable.spec_pos()),
            )
            &&& final(aa).movable.spec_vel() == old(aa).movable.spec_vel()
            &&& final(ab).movable.spec_vel() == old(ab).movable.spec_vel()
        },
        response(old(aa).kind, old(ab).kind) == CollisionResponse::Bounce ==> {
            &&& final(aa).movable.spec_imp() == plus(
                old(aa).movable.spec_imp(),
                bounce_impulses(old(aa).movable, old(ab).movable, delta_t as int).0,
            )
            &&& final(ab).movable.spec_imp() == plus(
                old(ab).movable.spec_imp(),
                bounce_impulses(old(aa).movable, old(ab).movable, delta_t as int).1,
            )
            &&& final(aa).movable.spec_vel() == Vec2::zero_spec()
            &&& final(ab).movable.spec_vel() == Vec2::zero_spec()
        },
        response(old(aa).kind, old(ab).kind) == CollisionResponse::Ignore ==> {
            &&& final(aa).movable == old(aa).movable
            &&& final(ab).movable == old(ab).movable
        },
        final(aa).movable.spec_pos() == old(aa).movable.spec_pos(),
        final(ab).movable.spec_pos() == old(ab).movable.spec_pos(),
        final(aa).movable.spec_bounds() == old(aa).movable.spec_bounds(),
        final(ab).movable.spec_bounds() == old(ab).movable.spec_bounds(),
        final(aa).movable.spec_speed() == old(aa).movable.spec_speed(),
        final(ab).movable.spec_speed() == old(ab).movable.spec_speed(),
        final(aa).movable.spec_friction() == old(aa).movable.spec_friction(),
        final(ab).movable.spec_friction() == old(ab).movable.spec_friction(),
        final(aa).movable.spec_weight() == old(aa).movable.spec_weight(),
        final(ab).movable.spec_weight() == old(ab).movable.spec_weight(),
        old(aa).movable.wf() ==> final(aa).movable.wf(),
        old(ab).movable.wf() ==> final(ab).movable.wf(),
{
    match response_for(aa.kind, ab.kind) {
        CollisionResponse::Shove => shove_resolution(&mut aa.movable, &mut ab.movable),
        CollisionResponse::Bounce => bounce_resolution(&mut aa.movable, &mut ab.movable, delta_t),
        CollisionResponse::Ignore => {},
    }
}

} // verus!
