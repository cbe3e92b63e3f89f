//! The simulated bodies and the arena they live in.

use vstd::prelude::*;
use crate::math::SAT;
use crate::vec2::{Vec2, V2M};

verus! {

/// Largest radius a body may have.
pub const RADIUS_MAX: i64 = 1_000_000;

/// Largest mass a body may have.
pub const MASS_MAX: i64 = 1_000_000;

/// Largest magnitude an arena bound may have.
pub const ARENA_MAX: i64 = 1_000_000;

/// Largest time step accepted per tick.
pub const DT_MAX: i64 = 1_000;

/// Largest gravity constant accepted.
pub const G_MAX: i64 = 1_000_000;

/// Sentinel for "no wall contact ahead": larger than any distance the
/// arena can hold, so an undamped fall is never slowed by it.
pub const SLACK_NONE: i64 = 100_000_000;

/// One simulated disk. Positions and velocities are fixed-point `i64`
/// (velocity in units per time unit); `radius` is half the rendered
/// diameter; `mass` only enters the momentum-conserving collision
/// resolution. `ground_contact_slack` is the remaining distance to the
/// next predicted wall contact, written by the boundary pass and read by
/// the ground-damped gravity variant.
#[derive(Clone, Copy, Debug, PartialEq, Eq, Structural)]
pub struct Ball {
    pub position: Vec2,
    pub velocity: Vec2,
    pub radius: i64,
    pub mass: i64,
    pub ground_contact_slack: i64,
}

/// The mathematical model of a body, over unbounded integers.
pub struct BallM {
    pub position: V2M,
    pub velocity: V2M,
    pub radius: int,
    pub mass: int,
    pub ground_contact_slack: int,
}

impl View for Ball {
    type V = BallM;

    open spec fn view(&self) -> BallM {
        BallM {
            position: self.position@,
            velocity: self.velocity@,
            radius: self.radius as int,
            mass: self.mass as int,
            ground_contact_slack: self.ground_contact_slack as int,
        }
    }
}

/// A well-formed body: positive radius and mass, every stored quantity
/// inside its fixed-point range. Constructors establish this and every
/// pass of the simulation step preserves it.
pub open spec fn wf_ball(b: BallM) -> bool {
    &&& -SAT <= b.position.x <= SAT
    &&& -SAT <= b.position.y <= SAT
    &&& -SAT <= b.velocity.x <= SAT
    &&& -SAT <= b.velocity.y <= SAT
    &&& 0 < b.radius <= RADIUS_MAX
    &&& 0 < b.mass <= MASS_MAX
    &&& 0 <= b.ground_contact_slack <= SLACK_NONE
}

impl Ball {
    /// A freshly spawned body at `position` with `velocity`, before its
    /// first tick (no wall contact predicted yet).
    pub fn new(position: Vec2, velocity: Vec2, radius: i64, mass: i64) -> (b: Ball)
        requires
            -SAT <= position.x <= SAT,
            -SAT <= position.y <= SAT,
            -SAT <= velocity.x <= SAT,
            -SAT <= velocity.y <= SAT,
            0 < radius <= RADIUS_MAX,
            0 < mass <= MASS_MAX,
        ensures
            b@ == (BallM {
                position: position@,
                velocity: velocity@,
                radius: radius as int,
                mass: mass as int,
                ground_contact_slack: SLACK_NONE as int,
            }),
            wf_ball(b@),
    {
        Ball { position, velocity, radius, mass, ground_contact_slack: SLACK_NONE }
    }
}

/// Current arena bounds, `[left, right] x [bottom, top]`, supplied anew
/// each tick (the caller may resize between ticks).
#[derive(Clone, Copy, Debug, PartialEq, Eq, Structural)]
pub struct Arena {
    pub left: i64,
    pub right: i64,
    pub bottom: i64,
    pub top: i64,
}

/// The mathematical model of the arena bounds.
pub struct ArenaM {
    pub left: int,
    pub right: int,
    pub bottom: int,
    pub top: int,
}

impl View for Arena {
    type V = ArenaM;

    open spec fn view(&self) -> ArenaM {
        ArenaM {
            left: self.left as int,
            right: self.right as int,
            bottom: self.bottom as int,
            top: self.top as int,
        }
    }
}

/// Arena bounds inside the fixed-point range.
pub open spec fn wf_arena(a: ArenaM) -> bool {
    &&& -ARENA_MAX <= a.left <= ARENA_MAX
    &&& -ARENA_MAX <= a.right <= ARENA_MAX
    &&& -ARENA_MAX <= a.bottom <= ARENA_MAX
    &&& -ARENA_MAX <= a.top <= ARENA_MAX
}

impl Arena {
    pub fn new(left: i64, right: i64, bottom: i64, top: i64) -> (a: Arena)
        requires
            -ARENA_MAX <= left <= ARENA_MAX,
            -ARENA_MAX <= right <= ARENA_MAX,
            -ARENA_MAX <= bottom <= ARENA_MAX,
            -ARENA_MAX <= top <= ARENA_MAX,
        ensures
            a@ == (ArenaM {
                left: left as int,
                right: right as int,
                bottom: bottom as int,
                top: top as int,
            }),
            wf_arena(a@),
    {
        Arena { left, right, bottom, top }
    }
}

/// The model of a whole body store: one `BallM` per stored `Ball`.
pub open spec fn models(s: Seq<Ball>) -> Seq<BallM> {
    Seq::new(s.len(), |i: int| s[i]@)
}

/// Every body in the sequence is well-formed.
pub open spec fn wf_all(s: Seq<BallM>) -> bool {
    forall|i: int| 0 <= i < s.len() ==> wf_ball(#[trigger] s[i])
}

} // verus!
