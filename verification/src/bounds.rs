//! Boundary collision: wall bounces, penetration repair, and the
//! ground-contact slack that feeds the damped gravity variant.

use vstd::prelude::*;
use crate::body::{Arena, ArenaM, Ball, BallM, DT_MAX, SLACK_NONE, models, wf_all, wf_arena, wf_ball};
use crate::geom::{calculate_edge, edge_of, next_frame_edge};
use crate::math::SAT;
use crate::vec2::{Vec2, V2M};

verus! {

/// Velocity after the wall check on one axis: if the body's outer edge,
/// extrapolated one tick ahead, lies beyond a bound and the body is
/// moving toward that bound, the velocity component is negated — a
/// perfectly elastic bounce. The direction check keeps a body that is
/// already past a wall from being reflected back and forth forever.
pub open spec fn wall_flip(pos: int, vel: int, radius: int, lo: int, hi: int, dt: int) -> int {
    let next_edge = edge_of(pos + vel * dt, radius);
    if (next_edge > hi && vel > 0) || (next_edge < lo && vel < 0) {
        -vel
    } else {
        vel
    }
}

/// Position after penetration repair on one axis: if the body's current
/// outer edge already lies beyond a bound, the position is clamped so
/// that the edge on the body's side of the origin sits exactly on the
/// bound. This repairs drift accumulated before a bounce took effect.
pub open spec fn wall_correct(pos: int, radius: int, lo: int, hi: int) -> int {
    let e = edge_of(pos, radius);
    if e > hi || e < lo {
        if pos > 0 {
            hi - radius
        } else {
            lo + radius
        }
    } else {
        pos
    }
}

/// Ground-contact slack after the wall check: when a bounce is detected
/// on the vertical axis, the slack tightens to the current gap between
/// the body's outer edge and the bound it bounced at; otherwise it is
/// left as the gravity pass reset it.
pub open spec fn wall_slack(b: BallM, a: ArenaM, dt: int) -> int {
    let next_edge = edge_of(b.position.y + b.velocity.y * dt, b.radius);
    let cur_edge = edge_of(b.position.y, b.radius);
    if next_edge > a.top && b.velocity.y > 0 {
        min_i(b.ground_contact_slack, abs_i(a.top - cur_edge))
    } else if next_edge < a.bottom && b.velocity.y < 0 {
        min_i(b.ground_contact_slack, abs_i(a.bottom - cur_edge))
    } else {
        b.ground_contact_slack
    }
}

/// Smaller of two integers.
pub open spec fn min_i(a: int, b: int) -> int {
    if a < b {
        a
    } else {
        b
    }
}

/// Absolute value of an integer.
pub open spec fn abs_i(a: int) -> int {
    if a < 0 {
        -a
    } else {
        a
    }
}

/// The whole wall check on one body: both axes are tested independently
/// (x against left/right, y against bottom/top), the velocity bounces
/// first, then the position is repaired from its pre-bounce value.
pub open spec fn wall_ball(b: BallM, a: ArenaM, dt: int) -> BallM {
    BallM {
        position: V2M {
            x: wall_correct(b.position.x, b.radius, a.left, a.right),
            y: wall_correct(b.position.y, b.radius, a.bottom, a.top),
        },
        velocity: V2M {
            x: wall_flip(b.position.x, b.velocity.x, b.radius, a.left, a.right, dt),
            y: wall_flip(b.position.y, b.velocity.y, b.radius, a.bottom, a.top, dt),
        },
        ground_contact_slack: wall_slack(b, a, dt),
        ..b
    }
}

/// The wall check across the whole body store.
pub open spec fn wall_pass(s: Seq<BallM>, a: ArenaM, dt: int) -> Seq<BallM> {
    Seq::new(s.len(), |i: int| wall_ball(s[i], a, dt))
}

/// Wall check for a single body. See [`wall_ball`].
fn wall_one(b: &Ball, arena: &Arena, dt: i64) -> (r: Ball)
    requires
        wf_ball(b@),
        wf_arena(arena@),
        0 <= dt <= DT_MAX,
    ensures
        r@ == wall_ball(b@, arena@, dt as int),
        wf_ball(r@),
{
    let next_edge_x = next_frame_edge(b.position.x, b.velocity.x, b.radius, dt);
    let next_edge_y = next_frame_edge(b.position.y, b.velocity.y, b.radius, dt);

    let vx = if (next_edge_x > arena.right && b.velocity.x > 0)
        || (next_edge_x < arena.left && b.velocity.x < 0) {
        -b.velocity.x
    } else {
        b.velocity.x
    };
    let vy = if (next_edge_y > arena.top && b.velocity.y > 0)
        || (next_edge_y < arena.bottom && b.velocity.y < 0) {
        -b.velocity.y
    } else {
        b.velocity.y
    };

    let cur_edge_y = calculate_edge(b.position.y, b.radius);
    let slack = if next_edge_y > arena.top && b.velocity.y > 0 {
        let gap = if arena.top >= cur_edge_y {
            arena.top - cur_edge_y
        } else {
            cur_edge_y - arena.top
        };
        if gap < b.ground_contact_slack {
            gap
        } else {
            b.ground_contact_slack
        }
    } else if next_edge_y < arena.bottom && b.velocity.y < 0 {
        let gap = if arena.bottom >= cur_edge_y {
            arena.bottom - cur_edge_y
        } else {
            cur_edge_y - arena.bottom
        };
        if gap < b.ground_contact_slack {
            gap
        } else {
            b.ground_contact_slack
        }
    } else {
        b.ground_contact_slack
    };

    let cur_edge_x = calculate_edge(b.position.x, b.radius);
    let px = if cur_edge_x > arena.right || cur_edge_x < arena.left {
        if b.position.x > 0 {
            arena.right - b.radius
        } else {
            arena.left + b.radius
        }
    } else {
        b.position.x
    };
    let py = if cur_edge_y > arena.top || cur_edge_y < arena.bottom {
        if b.position.y > 0 {
            arena.top - b.radius
        } else {
            arena.bottom + b.radius
        }
    } else {
        b.position.y
    };

    Ball {
        position: Vec2 { x: px, y: py },
        velocity: Vec2 { x: vx, y: vy },
        ground_contact_slack: slack,
        ..*b
    }
}

/// One tick of boundary handling, applied to every body in place: per
/// axis, a predicted wall hit reflects the velocity component, and a
/// body whose edge already lies outside the arena is set back onto the
/// bound. A bounce on the vertical axis also records the remaining gap
/// to that wall as the body's ground-contact slack.
pub fn handle_for_edge_collisions(balls: &mut Vec<Ball>, arena: &Arena, dt: i64)
    requires
        wf_all(models(old(balls)@)),
        wf_arena(arena@),
        0 <= dt <= DT_MAX,
    ensures
        models(final(balls)@) == wall_pass(models(old(balls)@), arena@, dt as int),
        wf_all(models(final(balls)@)),
{
    let ghost orig = models(balls@);
    let n = balls.len();
    let mut i: usize = 0;
    while i < n
        invariant
            i <= n,
            n == balls@.len(),
            orig.len() == n,
            wf_all(orig),
            wf_arena(arena@),
            0 <= dt <= DT_MAX,
            forall|k: int|
                0 <= k < i ==> balls@[k]@ == wall_ball(#[trigger] orig[k], arena@, dt as int),
            forall|k: int| 0 <= k < i ==> wf_ball(#[trigger] balls@[k]@),
            forall|k: int| i <= k < n ==> #[trigger] balls@[k]@ == orig[k],
        decreases n - i,
    {
        let b = balls[i];
        let nb = wall_one(&b, arena, dt);
        balls[i] = nb;
        i = i + 1;
    }
    assert(models(balls@) =~= wall_pass(orig, arena@, dt as int));
}

} // verus!
