//! The simulation step, and the queries external collaborators make
//! when spawning or removing bodies.

use vstd::prelude::*;
use crate::body::{Arena, ArenaM, Ball, BallM, DT_MAX, G_MAX, RADIUS_MAX, models, wf_all, wf_arena, wf_ball};
use crate::bounds::{handle_for_edge_collisions, wall_pass};
use crate::collide::{handle_inter_ball_collision, pairs_from};
use crate::geom::{aabb_overlap, is_approx_colliding};
use crate::math::{SAT, lemma_mul_bound};
use crate::motion::{apply_gravity, apply_velocity, gravity_pass, integrate_pass};
use crate::vec2::{Vec2, V2M, dist2};

verus! {

/// One whole tick on the model: gravity, then pairwise collisions, then
/// the walls, then integration. The order is a design commitment:
/// collisions react to the velocity the body will actually have, a body
/// pushed toward a wall by another body is caught by the walls in the
/// same tick, and the position update reflects every velocity correction
/// made this tick.
pub open spec fn step_m(s: Seq<BallM>, a: ArenaM, g: int, dt: int, damped: bool) -> Seq<BallM> {
    integrate_pass(
        wall_pass(pairs_from(gravity_pass(s, g, dt, damped), 0, 1, dt), a, dt),
        dt,
    )
}

/// One simulation tick, mutating every body in place: gravity, pairwise
/// collision resolution, boundary collision resolution, integration, in
/// that fixed order. Callable every tick with fresh arena bounds; the
/// engine keeps no state of its own between ticks.
///
/// With `damped` set, gravity is capped by each body's ground-contact
/// slack (see [`crate::motion::gravity_impulse`]); otherwise plain
/// `g * dt` gravity applies.
pub fn step(balls: &mut Vec<Ball>, arena: &Arena, g: i64, dt: i64, damped: bool)
    requires
        wf_all(models(old(balls)@)),
        wf_arena(arena@),
        0 <= g <= G_MAX,
        0 <= dt <= DT_MAX,
    ensures
        models(final(balls)@) == step_m(
            models(old(balls)@),
            arena@,
            g as int,
            dt as int,
            damped,
        ),
        wf_all(models(final(balls)@)),
{
    apply_gravity(balls, g, dt, damped);
    handle_inter_ball_collision(balls, dt);
    handle_for_edge_collisions(balls, arena, dt);
    apply_velocity(balls, dt);
}

/// A spawn request is admissible when the new body's bounding box
/// overlaps no existing body's box.
pub open spec fn spawn_free(s: Seq<BallM>, p: V2M, radius: int) -> bool {
    forall|k: int|
        0 <= k < s.len() ==> !aabb_overlap((#[trigger] s[k]).position, s[k].radius, p, radius)
}

/// Whether a new body of the given radius may spawn at `p`: true iff its
/// bounding box is clear of every existing body's box (the same broad
/// test the collision sweep opens with).
pub fn can_spawn_at(balls: &Vec<Ball>, p: Vec2, radius: i64) -> (r: bool)
    requires
        wf_all(models(balls@)),
        -SAT <= p.x <= SAT,
        -SAT <= p.y <= SAT,
        0 < radius <= RADIUS_MAX,
    ensures
        r == spawn_free(models(balls@), p@, radius as int),
{
    let n = balls.len();
    let mut i: usize = 0;
    while i < n
        invariant
            i <= n,
            n == balls@.len(),
            wf_all(models(balls@)),
            -SAT <= p.x <= SAT,
            -SAT <= p.y <= SAT,
            0 < radius <= RADIUS_MAX,
            forall|k: int|
                0 <= k < i ==> !aabb_overlap(
                    (#[trigger] models(balls@)[k]).position,
                    models(balls@)[k].radius,
                    p@,
                    radius as int,
                ),
        decreases n - i,
    {
        let b = balls[i];
        proof {
            assert(b@ == models(balls@)[i as int]);
            assert(wf_ball(models(balls@)[i as int]));
        }
        if is_approx_colliding(b.position, b.radius, p, radius) {
            return false;
        }
        i = i + 1;
    }
    true
}

/// The point `p` lies strictly inside the body's disk.
pub open spec fn point_in_ball(b: BallM, p: V2M) -> bool {
    dist2(b.position, p) < b.radius * b.radius
}

/// The body under a point, if any: the lowest index whose disk strictly
/// contains `p`. This is the query a click-to-remove collaborator makes;
/// removal itself stays with the caller.
pub fn find_ball_at(balls: &Vec<Ball>, p: Vec2) -> (r: Option<usize>)
    requires
        wf_all(models(balls@)),
        -SAT <= p.x <= SAT,
        -SAT <= p.y <= SAT,
    ensures
        match r {
            Some(k) => {
                &&& k < balls@.len()
                &&& point_in_ball(models(balls@)[k as int], p@)
                &&& forall|m: int| 0 <= m < k ==> !point_in_ball(#[trigger] models(balls@)[m], p@)
            },
            None => forall|m: int|
                0 <= m < balls@.len() ==> !point_in_ball(#[trigger] models(balls@)[m], p@),
        },
{
    let n = balls.len();
    let mut i: usize = 0;
    while i < n
        invariant
            i <= n,
            n == balls@.len(),
            wf_all(models(balls@)),
            -SAT <= p.x <= SAT,
            -SAT <= p.y <= SAT,
            forall|m: int| 0 <= m < i ==> !point_in_ball(#[trigger] models(balls@)[m], p@),
        decreases n - i,
    {
        let b = balls[i];
        proof {
            assert(b@ == models(balls@)[i as int]);
            assert(wf_ball(models(balls@)[i as int]));
        }
        let dx = (p.x - b.position.x) as i128;
        let dy = (p.y - b.position.y) as i128;
        proof {
            lemma_mul_bound(dx as int, dx as int, 16_000_000, 16_000_000);
            lemma_mul_bound(dy as int, dy as int, 16_000_000, 16_000_000);
            lemma_mul_bound(b.radius as int, b.radius as int, RADIUS_MAX as int, RADIUS_MAX as int);
        }
        if dx * dx + dy * dy < (b.radius as i128) * (b.radius as i128) {
            return Some(i);
        }
        i = i + 1;
    }
    None
}

} // verus!
