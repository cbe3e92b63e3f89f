//! Pairwise collision: separation of overlapping bodies and the
//! mass-weighted elastic bounce, plus the ascending-index pair sweep.
//!
//! The bounce never normalizes the contact vector: projections onto the
//! center line are carried around scaled by `msum * dd`, where `msum` is
//! the mass sum and `dd` the squared center distance, and a single
//! truncating division lands each velocity change back on the grid. The
//! conservation laws of the unrounded update are proved in [`crate::laws`].

use vstd::prelude::*;
use crate::body::{Ball, BallM, DT_MAX, MASS_MAX, RADIUS_MAX, models, wf_all, wf_ball};
use crate::geom::{colliding, extrapolate, is_colliding, next_frame_coords, will_collide};
use crate::math::{
    SAT, clamp_sat, div_away, div_away_i128, div_t, div_trunc_i128, isqrt_u64, lemma_mul_bound,
    sat_i, sqrt_floor,
};
use crate::vec2::{Vec2, V2M};

verus! {

/// Largest magnitude of a projection of a stored velocity onto a center
/// line: `2 * SAT * (2 * SAT)`.
pub const PROJ_MAX: i128 = 256_000_000_000_000;

/// The 1-D elastic-collision formula along the contact normal, scaled by
/// the mass sum: the along-normal velocity of the first body after a
/// collision is `calc_speed(ma, mb, ua, ub) / (ma + mb)`, where `ua` and
/// `ub` are the bodies' along-normal velocities before it.
pub open spec fn calc_speed(m_a: int, m_b: int, u_a: int, u_b: int) -> int {
    (m_a - m_b) * u_a + 2 * m_b * u_b
}

/// The scaled 1-D elastic-collision formula. See [`calc_speed`].
pub fn calculate_speed_after_collision(m_a: i64, m_b: i64, u_a: i128, u_b: i128) -> (r: i128)
    requires
        0 < m_a <= MASS_MAX,
        0 < m_b <= MASS_MAX,
        -PROJ_MAX <= u_a <= PROJ_MAX,
        -PROJ_MAX <= u_b <= PROJ_MAX,
    ensures
        r == calc_speed(m_a as int, m_b as int, u_a as int, u_b as int),
        -3 * MASS_MAX * PROJ_MAX <= r <= 3 * MASS_MAX * PROJ_MAX,
{
    proof {
        lemma_mul_bound((m_a - m_b) as int, u_a as int, MASS_MAX as int, PROJ_MAX as int);
        lemma_mul_bound(2 * m_b, u_b as int, 2 * MASS_MAX as int, PROJ_MAX as int);
    }
    ((m_a as i128) - (m_b as i128)) * u_a + 2 * (m_b as i128) * u_b
}

/// The center-to-center vector of a pair, the contact normal's direction.
pub open spec fn contact_dx(a: BallM, b: BallM) -> int {
    b.position.x - a.position.x
}

/// See [`contact_dx`].
pub open spec fn contact_dy(a: BallM, b: BallM) -> int {
    b.position.y - a.position.y
}

/// Squared length of the center-to-center vector.
pub open spec fn contact_dd(a: BallM, b: BallM) -> int {
    contact_dx(a, b) * contact_dx(a, b) + contact_dy(a, b) * contact_dy(a, b)
}

/// Dot product of the first body's velocity with the center-to-center
/// vector: its along-normal velocity, scaled by the vector's length.
pub open spec fn proj_a(a: BallM, b: BallM) -> int {
    a.velocity.x * contact_dx(a, b) + a.velocity.y * contact_dy(a, b)
}

/// See [`proj_a`]; the second body's projection.
pub open spec fn proj_b(a: BallM, b: BallM) -> int {
    b.velocity.x * contact_dx(a, b) + b.velocity.y * contact_dy(a, b)
}

/// Numerator of the first body's velocity change in a bounce: its exact
/// change is `bounce_num_a * d / ((a.mass + b.mass) * contact_dd)`.
pub open spec fn bounce_num_a(a: BallM, b: BallM) -> int {
    calc_speed(a.mass, b.mass, proj_a(a, b), proj_b(a, b)) - (a.mass + b.mass) * proj_a(a, b)
}

/// See [`bounce_num_a`]; the second body's numerator.
pub open spec fn bounce_num_b(a: BallM, b: BallM) -> int {
    calc_speed(b.mass, a.mass, proj_b(a, b), proj_a(a, b)) - (a.mass + b.mass) * proj_b(a, b)
}

/// The mass-weighted elastic bounce between two bodies, on the model.
///
/// With `d` the vector between the centers, `dd == |d|^2`, and `sa`,
/// `sb` the velocities' dot products with `d`, each body's velocity
/// changes by `k * d / (msum * dd)` along the center line (`k` as below),
/// truncated to the grid and saturating; the orthogonal component is
/// untouched (frictionless, non-rotating). Two bodies with identical
/// centers have no contact normal and are left unchanged.
pub open spec fn bounce_m(a: BallM, b: BallM) -> (BallM, BallM) {
    let dx = contact_dx(a, b);
    let dy = contact_dy(a, b);
    let dd = contact_dd(a, b);
    if dd == 0 {
        (a, b)
    } else {
        let ka = bounce_num_a(a, b);
        let kb = bounce_num_b(a, b);
        let denom = (a.mass + b.mass) * dd;
        (
            BallM {
                velocity: V2M {
                    x: sat_i(a.velocity.x + div_t(ka * dx, denom)),
                    y: sat_i(a.velocity.y + div_t(ka * dy, denom)),
                },
                ..a
            },
            BallM {
                velocity: V2M {
                    x: sat_i(b.velocity.x + div_t(kb * dx, denom)),
                    y: sat_i(b.velocity.y + div_t(kb * dy, denom)),
                },
                ..b
            },
        )
    }
}

/// Separation of two overlapping bodies, on the model.
///
/// Each body moves half the penetration depth along the center line,
/// away from the other; the push is rounded away from zero so a
/// quantized separation always makes progress. Exactly touching bodies
/// (`gap == 0`) do not move, and bodies with identical centers have no
/// separation direction and are left unchanged.
pub open spec fn move_apart_m(a: BallM, b: BallM) -> (BallM, BallM) {
    let dx = b.position.x - a.position.x;
    let dy = b.position.y - a.position.y;
    let dd = dx * dx + dy * dy;
    if dd == 0 {
        (a, b)
    } else {
        let dist = sqrt_floor(dd);
        let gap = dist - (a.radius + b.radius);
        let sx = div_away(dx * gap, 2 * dist);
        let sy = div_away(dy * gap, 2 * dist);
        (
            BallM {
                position: V2M {
                    x: sat_i(a.position.x + sx),
                    y: sat_i(a.position.y + sy),
                },
                ..a
            },
            BallM {
                position: V2M {
                    x: sat_i(b.position.x - sx),
                    y: sat_i(b.position.y - sy),
                },
                ..b
            },
        )
    }
}

/// What one pair of bodies does in a tick: bodies overlapping now are
/// separated (and nothing else happens to them this tick); otherwise, if
/// their extrapolated positions one tick ahead meet, they bounce; else
/// the pair is left alone.
pub open spec fn resolve_pair_m(a: BallM, b: BallM, dt: int) -> (BallM, BallM) {
    if colliding(a.position, a.radius, b.position, b.radius) {
        move_apart_m(a, b)
    } else if colliding(
        extrapolate(a.position, a.velocity, dt),
        a.radius,
        extrapolate(b.position, b.velocity, dt),
        b.radius,
    ) {
        bounce_m(a, b)
    } else {
        (a, b)
    }
}

/// The mass-weighted elastic bounce. See [`bounce_m`].
pub fn bounce(a: &Ball, b: &Ball) -> (r: (Ball, Ball))
    requires
        wf_ball(a@),
        wf_ball(b@),
    ensures
        (r.0@, r.1@) == bounce_m(a@, b@),
        wf_ball(r.0@),
        wf_ball(r.1@),
{
    let dx = (b.position.x - a.position.x) as i128;
    let dy = (b.position.y - a.position.y) as i128;
    proof {
        lemma_mul_bound(dx as int, dx as int, 16_000_000, 16_000_000);
        lemma_mul_bound(dy as int, dy as int, 16_000_000, 16_000_000);
        assert(dx * dx >= 0 && dy * dy >= 0) by (nonlinear_arith);
    }
    let dd = dx * dx + dy * dy;
    if dd == 0 {
        (*a, *b)
    } else {
        proof {
            lemma_mul_bound(a.velocity.x as int, dx as int, SAT as int, 16_000_000);
            lemma_mul_bound(a.velocity.y as int, dy as int, SAT as int, 16_000_000);
            lemma_mul_bound(b.velocity.x as int, dx as int, SAT as int, 16_000_000);
            lemma_mul_bound(b.velocity.y as int, dy as int, SAT as int, 16_000_000);
        }
        let sa = (a.velocity.x as i128) * dx + (a.velocity.y as i128) * dy;
        let sb = (b.velocity.x as i128) * dx + (b.velocity.y as i128) * dy;
        let msum = (a.mass + b.mass) as i128;
        let na = calculate_speed_after_collision(a.mass, b.mass, sa, sb);
        let nb = calculate_speed_after_collision(b.mass, a.mass, sb, sa);
        proof {
            lemma_mul_bound(msum as int, sa as int, 2 * MASS_MAX as int, PROJ_MAX as int);
            lemma_mul_bound(msum as int, sb as int, 2 * MASS_MAX as int, PROJ_MAX as int);
        }
        let ka = na - msum * sa;
        let kb = nb - msum * sb;
        proof {
            lemma_mul_bound(ka as int, dx as int, 5 * MASS_MAX * PROJ_MAX as int, 16_000_000);
            lemma_mul_bound(ka as int, dy as int, 5 * MASS_MAX * PROJ_MAX as int, 16_000_000);
            lemma_mul_bound(kb as int, dx as int, 5 * MASS_MAX * PROJ_MAX as int, 16_000_000);
            lemma_mul_bound(kb as int, dy as int, 5 * MASS_MAX * PROJ_MAX as int, 16_000_000);
            lemma_mul_bound(msum as int, dd as int, 2 * MASS_MAX as int, 512_000_000_000_000);
            assert(msum * dd > 0) by (nonlinear_arith)
                requires
                    msum > 0,
                    dd > 0,
            ;
        }
        let denom = msum * dd;
        let qax = div_trunc_i128(ka * dx, denom);
        let qay = div_trunc_i128(ka * dy, denom);
        let qbx = div_trunc_i128(kb * dx, denom);
        let qby = div_trunc_i128(kb * dy, denom);
        let ra = Ball {
            velocity: Vec2 {
                x: clamp_sat(a.velocity.x as i128 + qax),
                y: clamp_sat(a.velocity.y as i128 + qay),
            },
            ..*a
        };
        let rb = Ball {
            velocity: Vec2 {
                x: clamp_sat(b.velocity.x as i128 + qbx),
                y: clamp_sat(b.velocity.y as i128 + qby),
            },
            ..*b
        };
        (ra, rb)
    }
}

/// Separation of two overlapping bodies. See [`move_apart_m`].
pub fn move_apart(a: &Ball, b: &Ball) -> (r: (Ball, Ball))
    requires
        wf_ball(a@),
        wf_ball(b@),
    ensures
        (r.0@, r.1@) == move_apart_m(a@, b@),
        wf_ball(r.0@),
        wf_ball(r.1@),
{
    let dx = b.position.x - a.position.x;
    let dy = b.position.y - a.position.y;
    proof {
        lemma_mul_bound(dx as int, dx as int, 16_000_000, 16_000_000);
        lemma_mul_bound(dy as int, dy as int, 16_000_000, 16_000_000);
        assert(dx * dx >= 0 && dy * dy >= 0) by (nonlinear_arith);
    }
    let dd = dx * dx + dy * dy;
    if dd == 0 {
        (*a, *b)
    } else {
        let dist = isqrt_u64(dd as u64) as i64;
        proof {
            assert(dist * dist <= dd);
            assert(dist <= 23_000_000) by (nonlinear_arith)
                requires
                    0 <= dist,
                    dist * dist <= 512_000_000_000_000int,
            ;
        }
        let gap = dist - (a.radius + b.radius);
        proof {
            lemma_mul_bound(dx as int, gap as int, 16_000_000, 25_000_000);
            lemma_mul_bound(dy as int, gap as int, 16_000_000, 25_000_000);
            if dist == 0 {
                assert(dd < (0 + 1) * (0 + 1));
            }
        }
        let sx = div_away_i128((dx as i128) * (gap as i128), 2 * (dist as i128));
        let sy = div_away_i128((dy as i128) * (gap as i128), 2 * (dist as i128));
        let ra = Ball {
            position: Vec2 {
                x: clamp_sat(a.position.x as i128 + sx),
                y: clamp_sat(a.position.y as i128 + sy),
            },
            ..*a
        };
        let rb = Ball {
            position: Vec2 {
                x: clamp_sat(b.position.x as i128 - sx),
                y: clamp_sat(b.position.y as i128 - sy),
            },
            ..*b
        };
        (ra, rb)
    }
}

/// What one pair of bodies does in a tick. See [`resolve_pair_m`].
pub fn resolve_pair(a: &Ball, b: &Ball, dt: i64) -> (r: (Ball, Ball))
    requires
        wf_ball(a@),
        wf_ball(b@),
        0 <= dt <= DT_MAX,
    ensures
        (r.0@, r.1@) == resolve_pair_m(a@, b@, dt as int),
        wf_ball(r.0@),
        wf_ball(r.1@),
{
    if is_colliding(a.position, a.radius, b.position, b.radius) {
        move_apart(a, b)
    } else if will_collide(a, b, dt) {
        bounce(a, b)
    } else {
        (*a, *b)
    }
}

/// One pair resolved inside the body store.
pub open spec fn resolve_pair_seq(s: Seq<BallM>, i: int, j: int, dt: int) -> Seq<BallM>
    recommends
        0 <= i < j < s.len(),
{
    let r = resolve_pair_m(s[i], s[j], dt);
    s.update(i, r.0).update(j, r.1)
}

/// The pair sweep from pair `(i, j)` onward, in ascending index order:
/// the tail of the whole tick's sweep. `pairs_from(s, 0, 1, dt)` is the
/// full pass; the enumeration order is part of the contract, since a
/// body mutated by one pair meets its later partners with its new state.
pub open spec fn pairs_from(s: Seq<BallM>, i: int, j: int, dt: int) -> Seq<BallM>
    decreases s.len() - i, s.len() - j,
{
    if i < 0 || j <= i {
        s
    } else if i >= s.len() {
        s
    } else if j >= s.len() {
        pairs_from(s, i + 1, i + 2, dt)
    } else {
        pairs_from(resolve_pair_seq(s, i, j, dt), i, j + 1, dt)
    }
}

/// One tick of pairwise collision handling, applied in place.
///
/// Every unordered pair is visited once, ascending `(i, j)` with
/// `i < j`: overlapping pairs are pushed apart, pairs about to meet
/// exchange momentum along the line of centers (mass-weighted, elastic).
/// A body changed by one pair takes part in its remaining pairs with the
/// changed state, in this fixed deterministic order.
pub fn handle_inter_ball_collision(balls: &mut Vec<Ball>, dt: i64)
    requires
        wf_all(models(old(balls)@)),
        0 <= dt <= DT_MAX,
    ensures
        models(final(balls)@) == pairs_from(models(old(balls)@), 0, 1, dt as int),
        wf_all(models(final(balls)@)),
{
    let ghost orig = models(balls@);
    let n = balls.len();
    let mut i: usize = 0;
    while i < n
        invariant
            i <= n,
            n == balls@.len(),
            wf_all(models(balls@)),
            0 <= dt <= DT_MAX,
            pairs_from(models(balls@), i as int, i as int + 1, dt as int)
                == pairs_from(orig, 0, 1, dt as int),
        decreases n - i,
    {
        let mut j: usize = i + 1;
        while j < n
            invariant
                i < j <= n,
                i < n,
                n == balls@.len(),
                wf_all(models(balls@)),
                0 <= dt <= DT_MAX,
                pairs_from(models(balls@), i as int, j as int, dt as int)
                    == pairs_from(orig, 0, 1, dt as int),
            decreases n - j,
        {
            let ghost pre = models(balls@);
            let a = balls[i];
            let b = balls[j];
            let r = resolve_pair(&a, &b, dt);
            balls[i] = r.0;
            balls[j] = r.1;
            proof {
                assert(models(balls@) =~= resolve_pair_seq(pre, i as int, j as int, dt as int));
                assert(pairs_from(pre, i as int, j as int, dt as int) == pairs_from(
                    models(balls@),
                    i as int,
                    j as int + 1,
                    dt as int,
                ));
            }
            j = j + 1;
        }
        i = i + 1;
    }
}

} // verus!
