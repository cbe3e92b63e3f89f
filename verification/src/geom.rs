//! Geometry utilities: box and circle overlap tests, one-tick
//! extrapolation, and the outer-edge formula used by the wall pass.

use vstd::prelude::*;
use crate::body::{Ball, DT_MAX, RADIUS_MAX, wf_ball};
use crate::math::SAT;
use crate::vec2::{Vec2, V2M, dist2};

verus! {

/// Largest coordinate magnitude a one-tick extrapolation can reach from a
/// well-formed body: `SAT + SAT * DT_MAX`.
pub const EXT_MAX: i64 = 8_008_000_000;

/// Strict overlap of the square bounding boxes (half side = radius) of
/// two disks. Touching boxes do not count.
pub open spec fn aabb_overlap(pa: V2M, ra: int, pb: V2M, rb: int) -> bool {
    &&& pa.x - ra < pb.x + rb
    &&& pa.x + ra > pb.x - rb
    &&& pa.y - ra < pb.y + rb
    &&& pa.y + ra > pb.y - rb
}

/// Two disks meet: the distance of the centers is at most the sum of the
/// radii (touching counts), stated over squares to stay in integers.
pub open spec fn circles_touch(pa: V2M, ra: int, pb: V2M, rb: int) -> bool {
    dist2(pa, pb) <= (ra + rb) * (ra + rb)
}

/// The collision test the engine uses: the cheap box test as a
/// short-circuit, then the exact circle test.
pub open spec fn colliding(pa: V2M, ra: int, pb: V2M, rb: int) -> bool {
    aabb_overlap(pa, ra, pb, rb) && circles_touch(pa, ra, pb, rb)
}

/// The broad phase never culls a real overlap: disks whose centers are
/// strictly closer than the radius sum also overlap as boxes, so the
/// box-then-circle conjunction differs from the circle test alone only
/// on pairs in exact touch.
pub proof fn lemma_broad_phase_sound(pa: V2M, ra: int, pb: V2M, rb: int)
    requires
        0 < ra,
        0 < rb,
        dist2(pa, pb) < (ra + rb) * (ra + rb),
    ensures
        aabb_overlap(pa, ra, pb, rb),
        colliding(pa, ra, pb, rb),
{
    let dx = pb.x - pa.x;
    let dy = pb.y - pa.y;
    let c = ra + rb;
    assert(-c < dx < c && -c < dy < c) by (nonlinear_arith)
        requires
            dx * dx + dy * dy < c * c,
            c > 0,
    ;
}

/// Position one tick ahead: `p + v * dt`.
pub open spec fn extrapolate(p: V2M, v: V2M, dt: int) -> V2M {
    V2M { x: p.x + v.x * dt, y: p.y + v.y * dt }
}

/// In one dimension, the coordinate of whichever edge of the body is
/// farther from the origin. Exact only for bodies near the matching
/// arena wall; kept deliberately cheap.
pub open spec fn edge_of(center: int, radius: int) -> int {
    if center > 0 {
        center + radius
    } else {
        center - radius
    }
}

/// Outer edge of a body in one dimension. See [`edge_of`].
pub fn calculate_edge(center: i64, radius: i64) -> (e: i64)
    requires
        -EXT_MAX <= center <= EXT_MAX,
        0 < radius <= RADIUS_MAX,
    ensures
        e == edge_of(center as int, radius as int),
{
    if center > 0 {
        center + radius
    } else {
        center - radius
    }
}

/// Where a point will be one tick from now.
pub fn next_frame_coords(p: Vec2, v: Vec2, dt: i64) -> (r: Vec2)
    requires
        -SAT <= p.x <= SAT,
        -SAT <= p.y <= SAT,
        -SAT <= v.x <= SAT,
        -SAT <= v.y <= SAT,
        0 <= dt <= DT_MAX,
    ensures
        r@ == extrapolate(p@, v@, dt as int),
        -EXT_MAX <= r.x <= EXT_MAX,
        -EXT_MAX <= r.y <= EXT_MAX,
{
    proof {
        assert(-(SAT as int) * DT_MAX <= v.x * dt <= (SAT as int) * DT_MAX) by (nonlinear_arith)
            requires
                -SAT <= v.x <= SAT,
                0 <= dt <= DT_MAX,
        ;
        assert(-(SAT as int) * DT_MAX <= v.y * dt <= (SAT as int) * DT_MAX) by (nonlinear_arith)
            requires
                -SAT <= v.y <= SAT,
                0 <= dt <= DT_MAX,
        ;
    }
    Vec2 { x: p.x + v.x * dt, y: p.y + v.y * dt }
}

/// Outer edge of a body one tick from now, in one dimension.
pub fn next_frame_edge(center: i64, velocity: i64, radius: i64, dt: i64) -> (e: i64)
    requires
        -SAT <= center <= SAT,
        -SAT <= velocity <= SAT,
        0 < radius <= RADIUS_MAX,
        0 <= dt <= DT_MAX,
    ensures
        e == edge_of(center + velocity * dt, radius as int),
{
    proof {
        assert(-(SAT as int) * DT_MAX <= velocity * dt <= (SAT as int) * DT_MAX)
            by (nonlinear_arith)
            requires
                -SAT <= velocity <= SAT,
                0 <= dt <= DT_MAX,
        ;
    }
    calculate_edge(center + velocity * dt, radius)
}

/// Broad phase: do the square bounding boxes of the two disks overlap?
/// Strict on all four sides; used as a cheap rejection before the exact
/// circle test.
pub fn is_approx_colliding(pos_a: Vec2, radius_a: i64, pos_b: Vec2, radius_b: i64) -> (r: bool)
    requires
        -EXT_MAX <= pos_a.x <= EXT_MAX,
        -EXT_MAX <= pos_a.y <= EXT_MAX,
        -EXT_MAX <= pos_b.x <= EXT_MAX,
        -EXT_MAX <= pos_b.y <= EXT_MAX,
        0 < radius_a <= RADIUS_MAX,
        0 < radius_b <= RADIUS_MAX,
    ensures
        r == aabb_overlap(pos_a@, radius_a as int, pos_b@, radius_b as int),
{
    pos_a.x - radius_a < pos_b.x + radius_b && pos_a.x + radius_a > pos_b.x - radius_b
        && pos_a.y - radius_a < pos_b.y + radius_b && pos_a.y + radius_a > pos_b.y - radius_b
}

/// Narrow phase: do the two disks meet? Runs the strict box test first
/// as a cheap rejection, then the exact circle test. Strictly
/// overlapping disks always pass the box test
/// ([`lemma_broad_phase_sound`]); a pair in exact touch can be culled by
/// it, since touching boxes do not count.
pub fn is_colliding(pos_a: Vec2, radius_a: i64, pos_b: Vec2, radius_b: i64) -> (r: bool)
    requires
        -EXT_MAX <= pos_a.x <= EXT_MAX,
        -EXT_MAX <= pos_a.y <= EXT_MAX,
        -EXT_MAX <= pos_b.x <= EXT_MAX,
        -EXT_MAX <= pos_b.y <= EXT_MAX,
        0 < radius_a <= RADIUS_MAX,
        0 < radius_b <= RADIUS_MAX,
    ensures
        r == colliding(pos_a@, radius_a as int, pos_b@, radius_b as int),
{
    if !is_approx_colliding(pos_a, radius_a, pos_b, radius_b) {
        return false;
    }
    let dx = (pos_b.x - pos_a.x) as i128;
    let dy = (pos_b.y - pos_a.y) as i128;
    proof {
        assert(-0x1000_0000_0000_0000_0000 <= dx * dx <= 0x1000_0000_0000_0000_0000)
            by (nonlinear_arith)
            requires
                -0x4_0000_0000int <= dx <= 0x4_0000_0000int,
        ;
        assert(-0x1000_0000_0000_0000_0000 <= dy * dy <= 0x1000_0000_0000_0000_0000)
            by (nonlinear_arith)
            requires
                -0x4_0000_0000int <= dy <= 0x4_0000_0000int,
        ;
    }
    let d2 = dx * dx + dy * dy;
    let combined = (radius_a + radius_b) as i128;
    proof {
        assert(0 <= combined * combined <= 0x4_0000_0000_0000int) by (nonlinear_arith)
            requires
                0 <= combined <= 0x20_0000int,
        ;
    }
    d2 <= combined * combined
}

/// Will the two bodies meet one tick from now, at their extrapolated
/// positions?
pub fn will_collide(a: &Ball, b: &Ball, dt: i64) -> (r: bool)
    requires
        wf_ball(a@),
        wf_ball(b@),
        0 <= dt <= DT_MAX,
    ensures
        r == colliding(
            extrapolate(a@.position, a@.velocity, dt as int),
            a@.radius,
            extrapolate(b@.position, b@.velocity, dt as int),
            b@.radius,
        ),
{
    let next_a = next_frame_coords(a.position, a.velocity, dt);
    let next_b = next_frame_coords(b.position, b.velocity, dt);
    is_colliding(next_a, a.radius, next_b, b.radius)
}

} // verus!
