use vstd::prelude::*;

use crate::actor::{Actor, ActorState};
use crate::geometry::Vec2;

verus! {

/// What an actor can be told to do.
#[derive(Clone, Copy, Debug, PartialEq, Eq, Structural)]
pub enum Action {
    WalkTo(Vec2),
    Idle,
    Follow(usize),
}

/// The outcome of an action.
#[derive(Clone, Copy, Debug, PartialEq, Eq, Structural)]
pub enum ActionResult {
    Alter(Action),
    Succeed,
    Fail,
}

impl Action {
    /// Applies the action to `source`: walking sets it moving to the target;
    /// idling and following leave it as it is. Every action succeeds.
    pub fn apply(&self, source: &mut Actor) -> (r: ActionResult)
        requires
            *self matches Action::WalkTo(t) ==> old(source).can_take(ActorState::MovingTo(t)),
        ensures
            r == ActionResult::Succeed,
            match *self {
                Action::WalkTo(t) => {
                    &&& final(source).state == ActorState::MovingTo(t)
                    &&& final(source).kind == old(source).kind
                    &&& final(source).movable.spec_vel() == old(source).velocity_for(ActorState::MovingTo(t))
                    &&& final(source).movable.spec_pos() == old(source).movable.spec_pos()
                    &&& final(source).movable.spec_imp() == old(source).movable.spec_imp()
                    &&& final(source).movable.spec_bounds() == old(source).movable.spec_bounds()
                    &&& final(source).movable.spec_speed() == old(source).movable.spec_speed()
                    &&& final(source).movable.spec_friction() == old(source).movable.spec_friction()
                    &&& final(source).movable.spec_weight() == old(source).movable.spec_weight()
                    &&& old(source).movable.wf() ==> final(source).movable.wf()
                },
                _ => *final(source) == *old(source),
            },
    {
        match self {
            Action::WalkTo(target) => {
                source.set_state(ActorState::MovingTo(*target));
            },
            Action::Idle => {},
            Action::Follow(_ak) => {},
        };
        ActionResult::Succeed
    }
}

} // verus!
