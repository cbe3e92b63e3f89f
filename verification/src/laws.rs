//! The engine's conservation and stability laws, proved once and for
//! all inputs from the contracts in the other modules.

use vstd::prelude::*;
use crate::body::{ArenaM, BallM, wf_all, wf_ball};
use crate::bounds::wall_ball;
use crate::collide::{
    bounce_m, bounce_num_a, bounce_num_b, calc_speed, contact_dd, contact_dx, contact_dy,
    move_apart_m, pairs_from, proj_a, proj_b, resolve_pair_m, resolve_pair_seq,
};
use crate::geom::{colliding, edge_of, extrapolate};
use crate::math::{
    SAT, div_away, div_t, lemma_div_away_exact, lemma_div_t_error, lemma_sqrt_floor_unique,
    sat_i, sqrt_floor,
};
use crate::motion::gravity_ball;
use crate::sim::step_m;
use crate::vec2::dist2;

verus! {

/// Momentum conservation of the elastic exchange along the contact
/// normal: for any masses and along-normal speeds, the replacement
/// speeds of `calc_speed` (scaled by the mass sum) carry exactly the
/// momentum the pair carried before.
pub proof fn lemma_calc_speed_momentum(ma: int, mb: int, ua: int, ub: int)
    ensures
        ma * calc_speed(ma, mb, ua, ub) + mb * calc_speed(mb, ma, ub, ua) == (ma + mb) * (ma * ua
            + mb * ub),
{
    broadcast use vstd::arithmetic::mul::group_mul_is_commutative_and_distributive;

    assert(ma * ((ma - mb) * ua + 2 * mb * ub) == ma * ma * ua - ma * mb * ua + 2 * (ma * mb * ub))
        by (nonlinear_arith);
    assert(mb * ((mb - ma) * ub + 2 * ma * ua) == mb * mb * ub - ma * mb * ub + 2 * (ma * mb * ua))
        by (nonlinear_arith);
    assert((ma + mb) * (ma * ua + mb * ub) == ma * (ma * ua) + ma * (mb * ub) + mb * (ma * ua) + mb
        * (mb * ub));
    assert(ma * (ma * ua) == ma * ma * ua && ma * (mb * ub) == ma * mb * ub && mb * (ma * ua) == ma
        * mb * ua && mb * (mb * ub) == mb * mb * ub) by (nonlinear_arith);
}

/// Kinetic-energy conservation of the elastic exchange along the contact
/// normal: the replacement speeds of `calc_speed` (scaled by the mass
/// sum) carry exactly the kinetic energy the pair carried before.
pub proof fn lemma_calc_speed_energy(ma: int, mb: int, ua: int, ub: int)
    ensures
        ma * calc_speed(ma, mb, ua, ub) * calc_speed(ma, mb, ua, ub) + mb * calc_speed(
            mb,
            ma,
            ub,
            ua,
        ) * calc_speed(mb, ma, ub, ua) == (ma + mb) * (ma + mb) * (ma * ua * ua + mb * ub * ub),
{
    energy_exchange_identity(
        ma,
        mb,
        ua,
        ub,
        calc_speed(ma, mb, ua, ub),
        calc_speed(mb, ma, ub, ua),
    );
}

/// The polynomial identity behind [`lemma_calc_speed_energy`], walked
/// through monomial by monomial.
proof fn energy_exchange_identity(ma: int, mb: int, ua: int, ub: int, na: int, nb: int)
    requires
        na == (ma - mb) * ua + 2 * mb * ub,
        nb == (mb - ma) * ub + 2 * ma * ua,
    ensures
        ma * na * na + mb * nb * nb == (ma + mb) * (ma + mb) * (ma * ua * ua + mb * ub * ub),
{
    let e = ma - mb;
    let s = ma + mb;
    let uaa = ua * ua;
    let uab = ua * ub;
    let ubb = ub * ub;
    let p = e * ua;
    let q = mb * ub;
    let r = ma * ua;
    let t = e * ub;
    // the replacement speeds over the product atoms
    assert(na == p + 2 * q) by (nonlinear_arith)
        requires
            na == (ma - mb) * ua + 2 * mb * ub,
            p == (ma - mb) * ua,
            q == mb * ub,
    ;
    assert(nb == 2 * r - t) by (nonlinear_arith)
        requires
            nb == (mb - ma) * ub + 2 * ma * ua,
            r == ma * ua,
            t == (ma - mb) * ub,
    ;
    // their squares, degree two in the atoms
    assert(na * na == p * p + 4 * (p * q) + 4 * (q * q)) by (nonlinear_arith)
        requires
            na == p + 2 * q,
    ;
    assert(nb * nb == 4 * (r * r) - 4 * (r * t) + t * t) by (nonlinear_arith)
        requires
            nb == 2 * r - t,
    ;
    assert(ma * (na * na) == ma * (p * p) + 4 * (ma * (p * q)) + 4 * (ma * (q * q)))
        by (nonlinear_arith)
        requires
            na * na == p * p + 4 * (p * q) + 4 * (q * q),
    ;
    assert(mb * (nb * nb) == 4 * (mb * (r * r)) - 4 * (mb * (r * t)) + mb * (t * t))
        by (nonlinear_arith)
        requires
            nb * nb == 4 * (r * r) - 4 * (r * t) + t * t,
    ;
    // each monomial, rewritten over the base quantities
    assert(ma * (p * p) == (ma * (e * e)) * uaa) by (nonlinear_arith)
        requires
            p == e * ua,
            uaa == ua * ua,
    ;
    assert(ma * (q * q) == (ma * (mb * mb)) * ubb) by (nonlinear_arith)
        requires
            q == mb * ub,
            ubb == ub * ub,
    ;
    assert(ma * (p * q) == ((ma * mb) * e) * uab) by (nonlinear_arith)
        requires
            p == e * ua,
            q == mb * ub,
            uab == ua * ub,
    ;
    assert(mb * (r * r) == (mb * (ma * ma)) * uaa) by (nonlinear_arith)
        requires
            r == ma * ua,
            uaa == ua * ua,
    ;
    assert(mb * (r * t) == ((ma * mb) * e) * uab) by (nonlinear_arith)
        requires
            r == ma * ua,
            t == e * ub,
            uab == ua * ub,
    ;
    assert(mb * (t * t) == (mb * (e * e)) * ubb) by (nonlinear_arith)
        requires
            t == e * ub,
            ubb == ub * ub,
    ;
    // the cross terms cancel; the squares collect the mass-sum factor
    assert(ma * (e * e) + 4 * (mb * (ma * ma)) == ma * (s * s)) by (nonlinear_arith)
        requires
            e == ma - mb,
            s == ma + mb,
    ;
    assert(mb * (e * e) + 4 * (ma * (mb * mb)) == mb * (s * s)) by (nonlinear_arith)
        requires
            e == ma - mb,
            s == ma + mb,
    ;
    assert((ma * (e * e)) * uaa + 4 * ((mb * (ma * ma)) * uaa) == (ma * (s * s)) * uaa)
        by (nonlinear_arith)
        requires
            ma * (e * e) + 4 * (mb * (ma * ma)) == ma * (s * s),
    ;
    assert((mb * (e * e)) * ubb + 4 * ((ma * (mb * mb)) * ubb) == (mb * (s * s)) * ubb)
        by (nonlinear_arith)
        requires
            mb * (e * e) + 4 * (ma * (mb * mb)) == mb * (s * s),
    ;
    // reassemble both sides
    assert((ma * (s * s)) * uaa + (mb * (s * s)) * ubb == (s * s) * (ma * uaa + mb * ubb))
        by (nonlinear_arith);
    assert(ma * na * na == ma * (na * na) && mb * nb * nb == mb * (nb * nb)) by (nonlinear_arith);
    assert((ma + mb) * (ma + mb) * (ma * ua * ua + mb * ub * ub) == (s * s) * (ma * uaa + mb
        * ubb)) by (nonlinear_arith)
        requires
            s == ma + mb,
            uaa == ua * ua,
            ubb == ub * ub,
    ;
}

/// Momentum conservation of a whole bounce, before rounding: the two
/// velocity-change numerators cancel mass-weighted, so along both axes
/// the exact (unrounded) velocity changes `num * d / (msum * dd)` sum to
/// zero momentum.
pub proof fn lemma_bounce_momentum(a: BallM, b: BallM)
    ensures
        a.mass * bounce_num_a(a, b) + b.mass * bounce_num_b(a, b) == 0,
{
    let ma = a.mass;
    let mb = b.mass;
    let sa = proj_a(a, b);
    let sb = proj_b(a, b);
    let s = ma + mb;
    let ca = calc_speed(ma, mb, sa, sb);
    let cb = calc_speed(mb, ma, sb, sa);
    lemma_calc_speed_momentum(ma, mb, sa, sb);
    assert(ma * (ca - s * sa) == ma * ca - ma * (s * sa)) by (nonlinear_arith);
    assert(mb * (cb - s * sb) == mb * cb - mb * (s * sb)) by (nonlinear_arith);
    assert(s * (ma * sa + mb * sb) == ma * (s * sa) + mb * (s * sb)) by (nonlinear_arith);
}

/// Determinism: the step is a function of the body state, the arena, the
/// gravity constant and the time step alone. Two runs from equal inputs
/// produce equal outputs — together with [`crate::sim::step`]'s
/// postcondition, which pins its result to `step_m`, independent
/// executions of the engine coincide exactly.
pub proof fn lemma_step_deterministic(
    s1: Seq<BallM>,
    s2: Seq<BallM>,
    a1: ArenaM,
    a2: ArenaM,
    g: int,
    dt: int,
    damped: bool,
)
    requires
        s1 == s2,
        a1 == a2,
    ensures
        step_m(s1, a1, g, dt, damped) == step_m(s2, a2, g, dt, damped),
{
}

/// Idempotence of separation: a pair that rests exactly in touch, or
/// farther apart, is not moved and not deflected by the pair sweep.
/// Once two resting bodies reach `distance == radius_a + radius_b`,
/// repeated steps leave them there.
pub proof fn lemma_resolve_pair_separated(a: BallM, b: BallM, dt: int)
    requires
        wf_ball(a),
        wf_ball(b),
        a.velocity.x == 0 && a.velocity.y == 0,
        b.velocity.x == 0 && b.velocity.y == 0,
        dist2(a.position, b.position) >= (a.radius + b.radius) * (a.radius + b.radius),
    ensures
        resolve_pair_m(a, b, dt) == (a, b),
{
    let c = a.radius + b.radius;
    let dd = dist2(a.position, b.position);
    assert(dd == contact_dd(a, b));
    assert(c * c > 0) by (nonlinear_arith)
        requires
            c > 0,
    ;
    assert(extrapolate(a.position, a.velocity, dt) == a.position);
    assert(extrapolate(b.position, b.velocity, dt) == b.position);
    if colliding(a.position, a.radius, b.position, b.radius) {
        // the circles can only touch exactly; the separation push is zero
        assert(dd == c * c);
        assert(c * c < (c + 1) * (c + 1)) by (nonlinear_arith)
            requires
                c > 0,
        ;
        lemma_sqrt_floor_unique(dd, c);
        let dx = contact_dx(a, b);
        let dy = contact_dy(a, b);
        let dist = sqrt_floor(dd);
        assert(dist - c == 0);
        assert(dx * 0 == 2 * dist * 0 && dy * 0 == 2 * dist * 0) by (nonlinear_arith);
        lemma_div_away_exact(dx * 0, 2 * dist, 0);
        lemma_div_away_exact(dy * 0, 2 * dist, 0);
        assert(move_apart_m(a, b) == (a, b));
    }
}

/// Convergence of quantized separation, on the axis-aligned case: one
/// separation pushes two overlapping bodies with a shared `y` coordinate
/// to a center distance of exactly the radius sum — or one unit beyond
/// it when the overlap is odd, since half-units do not exist on the
/// grid — touching nothing else about them. Either way the pair is
/// separated, and by [`lemma_resolve_pair_separated`] a resting
/// separated pair stays put: overlapping bodies converge in one tick and
/// then hold their distance.
pub proof fn lemma_separation_axis_converges(a: BallM, b: BallM)
    requires
        wf_ball(a),
        wf_ball(b),
        a.position.y == b.position.y,
        a.position.x < b.position.x,
        -6_000_000 <= a.position.x,
        b.position.x <= 6_000_000,
        dist2(a.position, b.position) < (a.radius + b.radius) * (a.radius + b.radius),
    ensures
        move_apart_m(a, b).1.position.x - move_apart_m(a, b).0.position.x == a.radius + b.radius
            + (a.radius + b.radius - (b.position.x - a.position.x)) % 2,
        move_apart_m(a, b).0.position.y == a.position.y,
        move_apart_m(a, b).1.position.y == b.position.y,
        move_apart_m(a, b).0.velocity == a.velocity,
        move_apart_m(a, b).1.velocity == b.velocity,
        dist2(move_apart_m(a, b).0.position, move_apart_m(a, b).1.position) >= (a.radius
            + b.radius) * (a.radius + b.radius),
{
    let dx = contact_dx(a, b);
    let c = a.radius + b.radius;
    let g = c - dx;
    assert(contact_dy(a, b) == 0);
    assert(contact_dd(a, b) == dx * dx);
    assert(dx * dx > 0) by (nonlinear_arith)
        requires
            dx > 0,
    ;
    assert(dx * dx < (dx + 1) * (dx + 1)) by (nonlinear_arith)
        requires
            dx >= 0,
    ;
    lemma_sqrt_floor_unique(dx * dx, dx);
    assert(dx < c) by (nonlinear_arith)
        requires
            dx * dx < c * c,
            dx > 0,
            c > 0,
    ;
    let dist = sqrt_floor(contact_dd(a, b));
    assert(dist == dx);
    // the push is half the (odd-rounded) overlap, along x only
    crate::math::lemma_div_away_scale(dx - c, 2, dx);
    assert(dx * (dx - c) == dist * (dx - c) && 2 * dist == dx * 2) by (nonlinear_arith)
        requires
            dist == dx,
    ;
    assert(div_away(dx * (dist - c), 2 * dist) == div_away(dx - c, 2));
    lemma_div_away_exact(contact_dy(a, b) * (dist - c), 2 * dist, 0);
    assert(contact_dy(a, b) * (dist - c) == (2 * dist) * 0) by (nonlinear_arith)
        requires
            contact_dy(a, b) == 0,
    ;
    let sx = div_away(dx - c, 2);
    // half the overlap, rounded up in magnitude
    crate::math::lemma_div_away_bounds(g, 2);
    vstd::arithmetic::div_mod::lemma_fundamental_div_mod(g, 2);
    vstd::arithmetic::div_mod::lemma_mod_division_less_than_divisor(g, 2);
    assert(sx == -div_away(g, 2));
    assert(2 * div_away(g, 2) == g + g % 2);
    // no saturation: the push is at most the radius sum
    assert(0 <= div_away(g, 2) <= g);
    assert(-SAT <= a.position.x + sx <= SAT);
    assert(-SAT <= b.position.x - sx <= SAT);
    assert(move_apart_m(a, b).0.position.x == sat_i(a.position.x + div_away(
        dx * (dist - c),
        2 * dist,
    )));
    assert(move_apart_m(a, b).0.position.x == a.position.x + sx);
    assert(move_apart_m(a, b).1.position.x == b.position.x - sx);
    assert(move_apart_m(a, b).1.position.x - move_apart_m(a, b).0.position.x == c + g % 2);
    assert((c + g % 2) * (c + g % 2) >= c * c) by (nonlinear_arith)
        requires
            c > 0,
            0 <= g % 2,
    ;
    assert(dist2(move_apart_m(a, b).0.position, move_apart_m(a, b).1.position) == (c + g % 2) * (c
        + g % 2));
}

/// A pair resolution never touches a body's radius or mass, whichever
/// branch it takes.
proof fn lemma_resolve_pair_keeps_shape(a: BallM, b: BallM, dt: int)
    ensures
        resolve_pair_m(a, b, dt).0.radius == a.radius,
        resolve_pair_m(a, b, dt).0.mass == a.mass,
        resolve_pair_m(a, b, dt).1.radius == b.radius,
        resolve_pair_m(a, b, dt).1.mass == b.mass,
{
}

/// The pair sweep keeps the body count, and each body's radius and mass,
/// from wherever it starts.
proof fn lemma_pairs_from_keeps_shape(s: Seq<BallM>, i: int, j: int, dt: int)
    ensures
        pairs_from(s, i, j, dt).len() == s.len(),
        forall|k: int|
            0 <= k < s.len() ==> (#[trigger] pairs_from(s, i, j, dt)[k]).radius == s[k].radius
                && pairs_from(s, i, j, dt)[k].mass == s[k].mass,
    decreases s.len() - i, s.len() - j,
{
    if i < 0 || j <= i || i >= s.len() {
    } else if j >= s.len() {
        lemma_pairs_from_keeps_shape(s, i + 1, i + 2, dt);
    } else {
        lemma_resolve_pair_keeps_shape(s[i], s[j], dt);
        lemma_pairs_from_keeps_shape(resolve_pair_seq(s, i, j, dt), i, j + 1, dt);
    }
}

/// The engine only mutates bodies in place: a step never adds or removes
/// a body, and never changes a radius or a mass — creation and removal
/// belong to the caller alone.
pub proof fn lemma_step_keeps_bodies(s: Seq<BallM>, a: ArenaM, g: int, dt: int, damped: bool)
    ensures
        step_m(s, a, g, dt, damped).len() == s.len(),
        forall|k: int|
            0 <= k < s.len() ==> (#[trigger] step_m(s, a, g, dt, damped)[k]).radius == s[k].radius
                && step_m(s, a, g, dt, damped)[k].mass == s[k].mass,
{
    let after_gravity = crate::motion::gravity_pass(s, g, dt, damped);
    lemma_pairs_from_keeps_shape(after_gravity, 0, 1, dt);
}

/// Boundary containment: a body that fits the arena (and an arena that
/// spans the origin by at least one body radius per side, which the
/// origin-signed edge formula presumes) lies entirely inside the arena
/// after the wall pass — both edges on both axes. And whenever the
/// predicted outer edge crosses a bound with the velocity pointing at
/// it, the wall pass flips that velocity component.
pub proof fn lemma_wall_containment(b: BallM, a: ArenaM, dt: int)
    requires
        wf_ball(b),
        a.left + b.radius <= 0,
        0 <= a.right - b.radius,
        a.bottom + b.radius <= 0,
        0 <= a.top - b.radius,
    ensures
        a.left <= wall_ball(b, a, dt).position.x - b.radius,
        wall_ball(b, a, dt).position.x + b.radius <= a.right,
        a.bottom <= wall_ball(b, a, dt).position.y - b.radius,
        wall_ball(b, a, dt).position.y + b.radius <= a.top,
        edge_of(b.position.x + b.velocity.x * dt, b.radius) > a.right && b.velocity.x > 0
            ==> wall_ball(b, a, dt).velocity.x == -b.velocity.x,
        edge_of(b.position.x + b.velocity.x * dt, b.radius) < a.left && b.velocity.x < 0
            ==> wall_ball(b, a, dt).velocity.x == -b.velocity.x,
        edge_of(b.position.y + b.velocity.y * dt, b.radius) > a.top && b.velocity.y > 0
            ==> wall_ball(b, a, dt).velocity.y == -b.velocity.y,
        edge_of(b.position.y + b.velocity.y * dt, b.radius) < a.bottom && b.velocity.y < 0
            ==> wall_ball(b, a, dt).velocity.y == -b.velocity.y,
{
}

/// Momentum drift of the rounded bounce: the one truncating division per
/// velocity component costs less than one velocity unit per body, so as
/// long as the saturating clamp does not engage, the total momentum
/// moves by strictly less than `a.mass + b.mass` per axis — one grid
/// quantum of momentum. (The unrounded exchange is exact:
/// [`lemma_bounce_momentum`].)
pub proof fn lemma_bounce_momentum_drift(a: BallM, b: BallM)
    requires
        0 < a.mass,
        0 < b.mass,
        contact_dd(a, b) != 0,
        -SAT <= a.velocity.x + div_t(
            bounce_num_a(a, b) * contact_dx(a, b),
            (a.mass + b.mass) * contact_dd(a, b),
        ) <= SAT,
        -SAT <= a.velocity.y + div_t(
            bounce_num_a(a, b) * contact_dy(a, b),
            (a.mass + b.mass) * contact_dd(a, b),
        ) <= SAT,
        -SAT <= b.velocity.x + div_t(
            bounce_num_b(a, b) * contact_dx(a, b),
            (a.mass + b.mass) * contact_dd(a, b),
        ) <= SAT,
        -SAT <= b.velocity.y + div_t(
            bounce_num_b(a, b) * contact_dy(a, b),
            (a.mass + b.mass) * contact_dd(a, b),
        ) <= SAT,
    ensures
        -(a.mass + b.mass) < a.mass * (bounce_m(a, b).0.velocity.x - a.velocity.x) + b.mass * (
        bounce_m(a, b).1.velocity.x - b.velocity.x) < a.mass + b.mass,
        -(a.mass + b.mass) < a.mass * (bounce_m(a, b).0.velocity.y - a.velocity.y) + b.mass * (
        bounce_m(a, b).1.velocity.y - b.velocity.y) < a.mass + b.mass,
{
    let ma = a.mass;
    let mb = b.mass;
    let dx = contact_dx(a, b);
    let dy = contact_dy(a, b);
    let dd = contact_dd(a, b);
    let ka = bounce_num_a(a, b);
    let kb = bounce_num_b(a, b);
    assert(dx * dx >= 0 && dy * dy >= 0) by (nonlinear_arith);
    let kk = (ma + mb) * dd;
    assert(kk > 0) by (nonlinear_arith)
        requires
            ma + mb > 0,
            dd > 0,
            kk == (ma + mb) * dd,
    ;
    lemma_bounce_momentum(a, b);
    assert(ma * (ka * dx) + mb * (kb * dx) == 0) by (nonlinear_arith)
        requires
            ma * ka + mb * kb == 0,
    ;
    assert(ma * (ka * dy) + mb * (kb * dy) == 0) by (nonlinear_arith)
        requires
            ma * ka + mb * kb == 0,
    ;
    drift_of_rounding(ma, mb, ka * dx, kb * dx, kk);
    drift_of_rounding(ma, mb, ka * dy, kb * dy, kk);
}

/// Rounding two exactly-cancelling ratios costs less than one unit each:
/// if `ma * na + mb * nb == 0` then the truncated quotients of `na` and
/// `nb` by a positive `kk` keep the mass-weighted sum within one mass
/// sum of zero.
proof fn drift_of_rounding(ma: int, mb: int, na: int, nb: int, kk: int)
    requires
        0 < ma,
        0 < mb,
        0 < kk,
        ma * na + mb * nb == 0,
    ensures
        -(ma + mb) < ma * div_t(na, kk) + mb * div_t(nb, kk) < ma + mb,
{
    let qa = div_t(na, kk);
    let qb = div_t(nb, kk);
    lemma_div_t_error(na, kk);
    lemma_div_t_error(nb, kk);
    let ra = na - kk * qa;
    let rb = nb - kk * qb;
    assert(-(ma * kk) < ma * ra < ma * kk) by (nonlinear_arith)
        requires
            0 < ma,
            -kk < ra < kk,
    ;
    assert(-(mb * kk) < mb * rb < mb * kk) by (nonlinear_arith)
        requires
            0 < mb,
            -kk < rb < kk,
    ;
    assert(ma * ra == ma * na - (ma * qa) * kk) by (nonlinear_arith)
        requires
            ra == na - kk * qa,
    ;
    assert(mb * rb == mb * nb - (mb * qb) * kk) by (nonlinear_arith)
        requires
            rb == nb - kk * qb,
    ;
    assert((ma * qa) * kk + (mb * qb) * kk == (ma * qa + mb * qb) * kk) by (nonlinear_arith);
    assert((ma + mb) * kk == ma * kk + mb * kk) by (nonlinear_arith);
    let e = ma * qa + mb * qb;
    assert(-((ma + mb) * kk) < e * kk < (ma + mb) * kk);
    assert(-(ma + mb) < e < ma + mb) by (nonlinear_arith)
        requires
            0 < kk,
            -((ma + mb) * kk) < e * kk < (ma + mb) * kk,
    ;
}

/// A wall bounce is perfectly elastic: the wall pass only ever negates a
/// velocity component, so each body's squared speed — its kinetic energy
/// up to the mass factor — is exactly preserved, on both axes.
pub proof fn lemma_wall_preserves_speed(b: BallM, a: ArenaM, dt: int)
    ensures
        wall_ball(b, a, dt).velocity.x * wall_ball(b, a, dt).velocity.x == b.velocity.x
            * b.velocity.x,
        wall_ball(b, a, dt).velocity.y * wall_ball(b, a, dt).velocity.y == b.velocity.y
            * b.velocity.y,
{
    assert(forall|v: int| #[trigger] ((-v) * (-v)) == v * v) by (nonlinear_arith);
}

/// With gravity off, the gravity pass does not touch velocities: in a
/// closed system (no gravity, elastic walls and collisions) the bounce
/// is the only place where kinetic energy can move at all, and
/// [`lemma_bounce_energy`] shows its unrounded exchange conserves the
/// total exactly.
pub proof fn lemma_gravity_off_keeps_velocity(b: BallM, dt: int, damped: bool)
    requires
        wf_ball(b),
        0 <= dt,
    ensures
        gravity_ball(b, 0, dt, damped).velocity == b.velocity,
{
    assert(0 * dt == 0) by (nonlinear_arith);
    if damped && dt != 0 {
        vstd::arithmetic::div_mod::lemma_div_pos_is_pos(b.ground_contact_slack, dt);
    }
}

/// The pair neither overlaps now nor meets one tick ahead: the sweep
/// leaves such a pair alone.
pub open spec fn pair_inert(a: BallM, b: BallM, dt: int) -> bool {
    &&& !colliding(a.position, a.radius, b.position, b.radius)
    &&& !colliding(
        extrapolate(a.position, a.velocity, dt),
        a.radius,
        extrapolate(b.position, b.velocity, dt),
        b.radius,
    )
}

/// A sweep over a store in which every pair is inert changes nothing.
proof fn lemma_pairs_from_inert(s: Seq<BallM>, i: int, j: int, dt: int)
    requires
        forall|k: int, l: int|
            0 <= k < l < s.len() ==> pair_inert(#[trigger] s[k], #[trigger] s[l], dt),
    ensures
        pairs_from(s, i, j, dt) == s,
    decreases s.len() - i, s.len() - j,
{
    if i < 0 || j <= i || i >= s.len() {
    } else if j >= s.len() {
        lemma_pairs_from_inert(s, i + 1, i + 2, dt);
    } else {
        assert(resolve_pair_m(s[i], s[j], dt) == (s[i], s[j]));
        assert(resolve_pair_seq(s, i, j, dt) =~= s);
        lemma_pairs_from_inert(s, i, j + 1, dt);
    }
}

/// Energy bound over a whole tick of a closed system: with gravity off
/// and every pair inert, a step changes no body's squared speed — walls
/// at most flip a velocity's sign. Kinetic energy is exactly conserved
/// on such ticks; on ticks with a collision, the unrounded exchange
/// conserves it too ([`lemma_bounce_energy`]), and only the final
/// rounding of the exchanged velocities can move it, by less than one
/// velocity unit per body and axis.
pub proof fn lemma_step_closed_system_energy(
    s: Seq<BallM>,
    a: ArenaM,
    dt: int,
    damped: bool,
)
    requires
        wf_all(s),
        0 <= dt,
        forall|k: int, l: int|
            0 <= k < l < s.len() ==> pair_inert(#[trigger] s[k], #[trigger] s[l], dt),
    ensures
        step_m(s, a, 0, dt, damped).len() == s.len(),
        forall|k: int|
            0 <= k < s.len() ==> {
                let v = (#[trigger] step_m(s, a, 0, dt, damped)[k]).velocity;
                v.x * v.x + v.y * v.y == s[k].velocity.x * s[k].velocity.x + s[k].velocity.y
                    * s[k].velocity.y
            },
{
    let after_g = crate::motion::gravity_pass(s, 0, dt, damped);
    assert forall|k: int| 0 <= k < s.len() implies (#[trigger] after_g[k]).velocity
        == s[k].velocity && after_g[k].position == s[k].position && after_g[k].radius
        == s[k].radius by {
        assert(wf_ball(s[k]));
        lemma_gravity_off_keeps_velocity(s[k], dt, damped);
    }
    assert forall|k: int, l: int| 0 <= k < l < after_g.len() implies pair_inert(
        #[trigger] after_g[k],
        #[trigger] after_g[l],
        dt,
    ) by {
        assert(pair_inert(s[k], s[l], dt));
    }
    lemma_pairs_from_inert(after_g, 0, 1, dt);
    let after_w = crate::bounds::wall_pass(after_g, a, dt);
    assert forall|k: int| 0 <= k < s.len() implies {
        let v = (#[trigger] after_w[k]).velocity;
        v.x * v.x + v.y * v.y == s[k].velocity.x * s[k].velocity.x + s[k].velocity.y
            * s[k].velocity.y
    } by {
        lemma_wall_preserves_speed(after_g[k], a, dt);
    }
    assert forall|k: int| 0 <= k < s.len() implies (#[trigger] step_m(s, a, 0, dt, damped)[k])
        .velocity == after_w[k].velocity by {
        assert(step_m(s, a, 0, dt, damped)[k] == crate::motion::integrate_ball(after_w[k], dt));
    }
}

/// Kinetic-energy conservation of the whole unrounded bounce: scaling
/// each exact new velocity by `kk = (a.mass + b.mass) * contact_dd`, the
/// mass-weighted sum of squared speeds is exactly `kk * kk` times the
/// sum before the bounce — the vector form of
/// [`lemma_calc_speed_energy`], orthogonal components included.
pub proof fn lemma_bounce_energy(a: BallM, b: BallM)
    ensures
        ({
            let kk = (a.mass + b.mass) * contact_dd(a, b);
            let vax = kk * a.velocity.x + bounce_num_a(a, b) * contact_dx(a, b);
            let vay = kk * a.velocity.y + bounce_num_a(a, b) * contact_dy(a, b);
            let vbx = kk * b.velocity.x + bounce_num_b(a, b) * contact_dx(a, b);
            let vby = kk * b.velocity.y + bounce_num_b(a, b) * contact_dy(a, b);
            a.mass * (vax * vax + vay * vay) + b.mass * (vbx * vbx + vby * vby) == kk * kk * (
            a.mass * (a.velocity.x * a.velocity.x + a.velocity.y * a.velocity.y) + b.mass * (
            b.velocity.x * b.velocity.x + b.velocity.y * b.velocity.y))
        }),
{
    let ma = a.mass;
    let mb = b.mass;
    let dx = contact_dx(a, b);
    let dy = contact_dy(a, b);
    let dd = contact_dd(a, b);
    let sa = proj_a(a, b);
    let sb = proj_b(a, b);
    let ka = bounce_num_a(a, b);
    let kb = bounce_num_b(a, b);
    let kk = (ma + mb) * dd;
    let w = sb - sa;
    // closed forms of the change numerators
    assert(ka == 2 * (mb * w)) by (nonlinear_arith)
        requires
            ka == (ma - mb) * sa + 2 * mb * sb - (ma + mb) * sa,
            w == sb - sa,
    ;
    assert(kb == -(2 * (ma * w))) by (nonlinear_arith)
        requires
            kb == (mb - ma) * sb + 2 * ma * sa - (ma + mb) * sb,
            w == sb - sa,
    ;
    // per body: |kk v + k d|^2 == kk^2 |v|^2 + 2 kk k (v . d) + k^2 |d|^2
    scaled_square_expansion(kk, a.velocity.x, a.velocity.y, ka, dx, dy, sa, dd);
    scaled_square_expansion(kk, b.velocity.x, b.velocity.y, kb, dx, dy, sb, dd);
    // the along-normal parts cancel against the quadratic remainder
    let mm = ma * mb;
    let ww = w * w;
    assert(ma * (2 * ((kk * ka) * sa)) == 4 * (kk * (mm * (w * sa)))) by (nonlinear_arith)
        requires
            ka == 2 * (mb * w),
            mm == ma * mb,
    ;
    assert(mb * (2 * ((kk * kb) * sb)) == -(4 * (kk * (mm * (w * sb))))) by (nonlinear_arith)
        requires
            kb == -(2 * (ma * w)),
            mm == ma * mb,
    ;
    assert(kk * (mm * (w * sa)) - kk * (mm * (w * sb)) == -(kk * (mm * ww))) by (nonlinear_arith)
        requires
            ww == w * w,
            w == sb - sa,
    ;
    assert(ma * (2 * ((kk * ka) * sa)) + mb * (2 * ((kk * kb) * sb)) == -(4 * (kk * (mm * ww))));
    assert(ma * ((ka * ka) * dd) == 4 * ((mm * mb) * (ww * dd))) by (nonlinear_arith)
        requires
            ka == 2 * (mb * w),
            mm == ma * mb,
            ww == w * w,
    ;
    assert(mb * ((kb * kb) * dd) == 4 * ((mm * ma) * (ww * dd))) by (nonlinear_arith)
        requires
            kb == -(2 * (ma * w)),
            mm == ma * mb,
            ww == w * w,
    ;
    assert(4 * ((mm * mb) * (ww * dd)) + 4 * ((mm * ma) * (ww * dd)) == 4 * (((ma + mb) * dd) * (
    mm * ww))) by (nonlinear_arith);
    assert(ma * ((ka * ka) * dd) + mb * ((kb * kb) * dd) == 4 * (((ma + mb) * dd) * (mm * ww)));
    assert(-(4 * (kk * (mm * ww))) + 4 * (((ma + mb) * dd) * (mm * ww)) == 0) by (nonlinear_arith)
        requires
            kk == (ma + mb) * dd,
    ;
    // reassemble the mass-weighted sum
    let eax = kk * a.velocity.x + ka * dx;
    let eay = kk * a.velocity.y + ka * dy;
    let ebx = kk * b.velocity.x + kb * dx;
    let eby = kk * b.velocity.y + kb * dy;
    assert(ma * (eax * eax + eay * eay) == ma * (kk * kk * (a.velocity.x * a.velocity.x
        + a.velocity.y * a.velocity.y)) + ma * (2 * ((kk * ka) * sa)) + ma * ((ka * ka) * dd))
        by (nonlinear_arith)
        requires
            eax * eax + eay * eay == kk * kk * (a.velocity.x * a.velocity.x + a.velocity.y
                * a.velocity.y) + 2 * ((kk * ka) * sa) + (ka * ka) * dd,
    ;
    assert(mb * (ebx * ebx + eby * eby) == mb * (kk * kk * (b.velocity.x * b.velocity.x
        + b.velocity.y * b.velocity.y)) + mb * (2 * ((kk * kb) * sb)) + mb * ((kb * kb) * dd))
        by (nonlinear_arith)
        requires
            ebx * ebx + eby * eby == kk * kk * (b.velocity.x * b.velocity.x + b.velocity.y
                * b.velocity.y) + 2 * ((kk * kb) * sb) + (kb * kb) * dd,
    ;
    assert(ma * (kk * kk * (a.velocity.x * a.velocity.x + a.velocity.y * a.velocity.y)) + mb * (kk
        * kk * (b.velocity.x * b.velocity.x + b.velocity.y * b.velocity.y)) == kk * kk * (ma * (
    a.velocity.x * a.velocity.x + a.velocity.y * a.velocity.y) + mb * (b.velocity.x * b.velocity.x
        + b.velocity.y * b.velocity.y))) by (nonlinear_arith);
}

/// `|kk v + k d|^2 == kk^2 |v|^2 + 2 kk k (v . d) + k^2 |d|^2`, the
/// expansion behind [`lemma_bounce_energy`], for one body.
proof fn scaled_square_expansion(
    kk: int,
    vx: int,
    vy: int,
    k: int,
    dx: int,
    dy: int,
    s: int,
    dd: int,
)
    requires
        s == vx * dx + vy * dy,
        dd == dx * dx + dy * dy,
    ensures
        (kk * vx + k * dx) * (kk * vx + k * dx) + (kk * vy + k * dy) * (kk * vy + k * dy) == kk
            * kk * (vx * vx + vy * vy) + 2 * ((kk * k) * s) + (k * k) * dd,
{
    assert((kk * vx + k * dx) * (kk * vx + k * dx) == (kk * vx) * (kk * vx) + 2 * ((kk * vx) * (k
        * dx)) + (k * dx) * (k * dx)) by (nonlinear_arith);
    assert((kk * vy + k * dy) * (kk * vy + k * dy) == (kk * vy) * (kk * vy) + 2 * ((kk * vy) * (k
        * dy)) + (k * dy) * (k * dy)) by (nonlinear_arith);
    assert((kk * vx) * (kk * vx) + (kk * vy) * (kk * vy) == kk * kk * (vx * vx + vy * vy))
        by (nonlinear_arith);
    assert((kk * vx) * (k * dx) == (kk * k) * (vx * dx)) by (nonlinear_arith);
    assert((kk * vy) * (k * dy) == (kk * k) * (vy * dy)) by (nonlinear_arith);
    assert((kk * k) * (vx * dx) + (kk * k) * (vy * dy) == (kk * k) * (vx * dx + vy * dy))
        by (nonlinear_arith);
    assert((k * dx) * (k * dx) + (k * dy) * (k * dy) == (k * k) * (dx * dx + dy * dy))
        by (nonlinear_arith);
}

} // verus!
