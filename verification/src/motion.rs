//! Gravity and integration: the two per-body passes of a tick.

use vstd::prelude::*;
use crate::body::{Ball, BallM, DT_MAX, G_MAX, SLACK_NONE, models, wf_all, wf_ball};
use crate::math::{SAT, clamp_sat, div_t, sat_i};
use crate::vec2::{Vec2, V2M};

verus! {

/// The downward impulse one tick of gravity applies. The plain variant
/// is `g * dt`. The ground-damped variant caps it by
/// `ground_contact_slack / dt`, the speed beyond which the body would
/// cover more than its remaining distance to the floor within this tick;
/// away from any wall the slack is large and full gravity applies.
pub open spec fn gravity_impulse(slack: int, g: int, dt: int, damped: bool) -> int {
    if !damped {
        g * dt
    } else if dt == 0 {
        0
    } else if div_t(slack, dt) < g * dt {
        div_t(slack, dt)
    } else {
        g * dt
    }
}

/// One tick of gravity on one body: the vertical velocity drops by the
/// gravity impulse (saturating), and the slack is reset to "no contact
/// ahead" for the boundary pass to tighten again.
pub open spec fn gravity_ball(b: BallM, g: int, dt: int, damped: bool) -> BallM {
    BallM {
        velocity: V2M {
            x: b.velocity.x,
            y: sat_i(b.velocity.y - gravity_impulse(b.ground_contact_slack, g, dt, damped)),
        },
        ground_contact_slack: SLACK_NONE as int,
        ..b
    }
}

/// One tick of gravity across the whole body store.
pub open spec fn gravity_pass(s: Seq<BallM>, g: int, dt: int, damped: bool) -> Seq<BallM> {
    Seq::new(s.len(), |i: int| gravity_ball(s[i], g, dt, damped))
}

/// One tick of movement for one body: `position += velocity * dt`,
/// saturating at the coordinate range.
pub open spec fn integrate_ball(b: BallM, dt: int) -> BallM {
    BallM {
        position: V2M {
            x: sat_i(b.position.x + b.velocity.x * dt),
            y: sat_i(b.position.y + b.velocity.y * dt),
        },
        ..b
    }
}

/// One tick of movement across the whole body store.
pub open spec fn integrate_pass(s: Seq<BallM>, dt: int) -> Seq<BallM> {
    Seq::new(s.len(), |i: int| integrate_ball(s[i], dt))
}

/// Gravity on a single body. See [`gravity_ball`].
fn gravity_one(b: &Ball, g: i64, dt: i64, damped: bool) -> (r: Ball)
    requires
        wf_ball(b@),
        0 <= g <= G_MAX,
        0 <= dt <= DT_MAX,
    ensures
        r@ == gravity_ball(b@, g as int, dt as int, damped),
        wf_ball(r@),
{
    proof {
        assert(0 <= g * dt <= 1_000_000_000) by (nonlinear_arith)
            requires
                0 <= g <= G_MAX,
                0 <= dt <= DT_MAX,
        ;
    }
    let gdt = g * dt;
    let imp: i64 = if damped {
        if dt == 0 {
            0
        } else {
            let lim = ((b.ground_contact_slack as u64) / (dt as u64)) as i64;
            proof {
                vstd::arithmetic::div_mod::lemma_div_nonincreasing(
                    b.ground_contact_slack as int,
                    dt as int,
                );
                vstd::arithmetic::div_mod::lemma_div_pos_is_pos(
                    b.ground_contact_slack as int,
                    dt as int,
                );
            }
            if lim < gdt {
                lim
            } else {
                gdt
            }
        }
    } else {
        gdt
    };
    let vy = clamp_sat(b.velocity.y as i128 - imp as i128);
    Ball {
        velocity: Vec2 { x: b.velocity.x, y: vy },
        ground_contact_slack: SLACK_NONE,
        ..*b
    }
}

/// One tick of gravity, applied to every body in place.
///
/// With `damped` set, the impulse each body receives is capped by its
/// ground-contact slack from the previous tick, so a body resting on the
/// floor is not pumped full of downward velocity it has no room to
/// spend.
pub fn apply_gravity(balls: &mut Vec<Ball>, g: i64, dt: i64, damped: bool)
    requires
        wf_all(models(old(balls)@)),
        0 <= g <= G_MAX,
        0 <= dt <= DT_MAX,
    ensures
        models(final(balls)@) == gravity_pass(models(old(balls)@), g as int, dt as int, damped),
        wf_all(models(final(balls)@)),
{
    let ghost orig = models(balls@);
    let n = balls.len();
    let mut i: usize = 0;
    while i < n
        invariant
            i <= n,
            n == balls@.len(),
            orig.len() == n,
            wf_all(orig),
            0 <= g <= G_MAX,
            0 <= dt <= DT_MAX,
            forall|k: int|
                0 <= k < i ==> balls@[k]@ == gravity_ball(#[trigger] orig[k], g as int, dt as int, damped),
            forall|k: int| 0 <= k < i ==> wf_ball(#[trigger] balls@[k]@),
            forall|k: int| i <= k < n ==> #[trigger] balls@[k]@ == orig[k],
        decreases n - i,
    {
        let b = balls[i];
        let nb = gravity_one(&b, g, dt, damped);
        balls[i] = nb;
        i = i + 1;
    }
    assert(models(balls@) =~= gravity_pass(orig, g as int, dt as int, damped));
}

/// Movement of a single body. See [`integrate_ball`].
fn integrate_one(b: &Ball, dt: i64) -> (r: Ball)
    requires
        wf_ball(b@),
        0 <= dt <= DT_MAX,
    ensures
        r@ == integrate_ball(b@, dt as int),
        wf_ball(r@),
{
    proof {
        assert(-8_000_000_000int <= b.velocity.x * dt <= 8_000_000_000int) by (nonlinear_arith)
            requires
                -SAT <= b.velocity.x <= SAT,
                0 <= dt <= DT_MAX,
        ;
        assert(-8_000_000_000int <= b.velocity.y * dt <= 8_000_000_000int) by (nonlinear_arith)
            requires
                -SAT <= b.velocity.y <= SAT,
                0 <= dt <= DT_MAX,
        ;
    }
    let px = clamp_sat(b.position.x as i128 + (b.velocity.x as i128) * (dt as i128));
    let py = clamp_sat(b.position.y as i128 + (b.velocity.y as i128) * (dt as i128));
    Ball { position: Vec2 { x: px, y: py }, ..*b }
}

/// One tick of movement, applied to every body in place: each body's
/// position advances by `velocity * dt`. Runs last in the tick, so the
/// position reflects every velocity correction made before it
/// (semi-implicit Euler).
pub fn apply_velocity(balls: &mut Vec<Ball>, dt: i64)
    requires
        wf_all(models(old(balls)@)),
        0 <= dt <= DT_MAX,
    ensures
        models(final(balls)@) == integrate_pass(models(old(balls)@), dt as int),
        wf_all(models(final(balls)@)),
{
    let ghost orig = models(balls@);
    let n = balls.len();
    let mut i: usize = 0;
    while i < n
        invariant
            i <= n,
            n == balls@.len(),
            orig.len() == n,
            wf_all(orig),
            0 <= dt <= DT_MAX,
            forall|k: int|
                0 <= k < i ==> balls@[k]@ == integrate_ball(#[trigger] orig[k], dt as int),
            forall|k: int| 0 <= k < i ==> wf_ball(#[trigger] balls@[k]@),
            forall|k: int| i <= k < n ==> #[trigger] balls@[k]@ == orig[k],
        decreases n - i,
    {
        let b = balls[i];
        let nb = integrate_one(&b, dt);
        balls[i] = nb;
        i = i + 1;
    }
    assert(models(balls@) =~= integrate_pass(orig, dt as int));
}

} // verus!
