//! Scenario tests for the simulation step: wall bounces, elastic
//! collisions, separation, gravity, energy and determinism.

use ballsim::body::{Arena, Ball, SLACK_NONE};
use ballsim::collide::{bounce, handle_inter_ball_collision, move_apart, resolve_pair};
use ballsim::bounds::handle_for_edge_collisions;
use ballsim::motion::{apply_gravity, apply_velocity};
use ballsim::sim::{can_spawn_at, find_ball_at, step};
use ballsim::vec2::Vec2;

fn ball(px: i64, py: i64, vx: i64, vy: i64, radius: i64, mass: i64) -> Ball {
    Ball::new(Vec2 { x: px, y: py }, Vec2 { x: vx, y: vy }, radius, mass)
}

fn square_arena(half: i64) -> Arena {
    Arena::new(-half, half, -half, half)
}

/// Total kinetic energy, up to the conventional 1/2 factor.
fn energy(balls: &Vec<Ball>) -> i64 {
    balls
        .iter()
        .map(|b| b.mass * (b.velocity.x * b.velocity.x + b.velocity.y * b.velocity.y))
        .sum()
}

#[test]
fn boundary_containment_after_one_step() {
    // arena [-100,100]^2, radius 10 at (95, 0), heading right by 5/tick
    let arena = square_arena(100);
    let mut balls = vec![ball(95, 0, 5, 0, 10, 1)];
    step(&mut balls, &arena, 0, 1, false);
    let b = &balls[0];
    // the velocity flipped and the body sits inside the arena
    assert_eq!(b.velocity.x, -5);
    assert_eq!(b.velocity.y, 0);
    assert!(b.position.x <= 90);
    assert!(b.position.x + b.radius <= 100);
    // penetration repair put the edge on the bound, then it moved inward
    assert_eq!(b.position.x, 85);
}

#[test]
fn boundary_reflection_is_direction_aware() {
    // already past the wall but heading back inside: not reflected again
    let arena = square_arena(100);
    let mut balls = vec![ball(95, 0, -5, 0, 10, 1)];
    step(&mut balls, &arena, 0, 1, false);
    let b = &balls[0];
    assert_eq!(b.velocity.x, -5);
    // the position was still repaired onto the bound before moving
    assert_eq!(b.position.x, 85);
}

#[test]
fn elastic_head_on_equal_mass_exchanges_velocities() {
    // A at (-10,0) heading right, B at (10,0) heading left, same mass
    let arena = square_arena(1000);
    let mut balls = vec![ball(-10, 0, 10, 0, 5, 7), ball(10, 0, -10, 0, 5, 7)];
    step(&mut balls, &arena, 0, 1, false);
    assert_eq!(balls[0].velocity.x, -10);
    assert_eq!(balls[0].velocity.y, 0);
    assert_eq!(balls[1].velocity.x, 10);
    assert_eq!(balls[1].velocity.y, 0);
    // integration ran with the exchanged velocities
    assert_eq!(balls[0].position.x, -20);
    assert_eq!(balls[1].position.x, 20);
}

#[test]
fn bounce_conserves_momentum_and_energy_exactly() {
    // unequal masses, head on; these values divide without remainder
    let a = ball(0, 0, 1, 0, 5, 1);
    let b = ball(20, 0, -2, 0, 5, 2);
    let (a2, b2) = bounce(&a, &b);
    assert_eq!(a2.velocity.x, -3);
    assert_eq!(b2.velocity.x, 0);
    // momentum: 1*1 + 2*(-2) == 1*(-3) + 2*0
    assert_eq!(
        a.mass * a.velocity.x + b.mass * b.velocity.x,
        a2.mass * a2.velocity.x + b2.mass * b2.velocity.x
    );
    // energy: 1*1 + 2*4 == 1*9 + 2*0
    assert_eq!(energy(&vec![a, b]), energy(&vec![a2, b2]));
}

#[test]
fn bounce_leaves_the_orthogonal_component_alone() {
    // oblique hit: only the along-normal share of A's velocity moves to B
    let a = ball(0, 0, 5, 0, 5, 1);
    let bb = ball(6, 8, 0, 0, 5, 1);
    let (a2, b2) = bounce(&a, &bb);
    // exact truncated values of the quantized exchange
    assert_eq!((a2.velocity.x, a2.velocity.y), (4, -2));
    assert_eq!((b2.velocity.x, b2.velocity.y), (1, 2));
    // positions are not the bounce's business
    assert_eq!(a2.position.x, 0);
    assert_eq!(b2.position.x, 6);
}

#[test]
fn bounce_rounding_drift_stays_under_one_quantum() {
    // these values do not divide evenly: the exchange truncates
    let a = ball(0, 0, 7, 0, 5, 1);
    let b = ball(10, 0, 0, 0, 5, 3);
    let (a2, b2) = bounce(&a, &b);
    assert_eq!(a2.velocity.x, -3);
    assert_eq!(b2.velocity.x, 3);
    // momentum moved by the rounding, but by less than the mass sum
    let before = a.mass * a.velocity.x + b.mass * b.velocity.x;
    let after = a2.mass * a2.velocity.x + b2.mass * b2.velocity.x;
    assert!((before - after).abs() < a.mass + b.mass);
    // here the truncation loses a little energy rather than gaining any
    assert!(energy(&vec![a2, b2]) <= energy(&vec![a, b]));
}

#[test]
fn bounce_with_identical_centers_is_a_no_op() {
    let a = ball(3, 4, 5, -6, 5, 1);
    let b = ball(3, 4, -7, 8, 5, 1);
    let (a2, b2) = bounce(&a, &b);
    assert_eq!(a2, a);
    assert_eq!(b2, b);
    let (a3, b3) = move_apart(&a, &b);
    assert_eq!(a3, a);
    assert_eq!(b3, b);
}

#[test]
fn separation_reaches_touching_distance_and_rests() {
    // overlapping by 6: one step lands exactly on touching distance
    let arena = square_arena(1000);
    let mut balls = vec![ball(0, 0, 0, 0, 5, 1), ball(4, 0, 0, 0, 5, 1)];
    step(&mut balls, &arena, 0, 1, false);
    assert_eq!(balls[0].position.x, -3);
    assert_eq!(balls[1].position.x, 7);
    // touching bodies are colliding but the push is zero: they rest
    let before = balls.clone();
    step(&mut balls, &arena, 0, 1, false);
    assert_eq!(balls, before);
}

#[test]
fn separation_with_odd_overlap_lands_one_unit_clear() {
    let a = ball(0, 0, 0, 0, 5, 1);
    let b = ball(3, 0, 0, 0, 5, 1);
    let (a2, b2) = move_apart(&a, &b);
    // the half-push rounds away from zero, so the gap is never left short
    assert_eq!(a2.position.x, -4);
    assert_eq!(b2.position.x, 7);
    let (a3, b3) = resolve_pair(&a2, &b2, 1);
    assert_eq!(a3, a2);
    assert_eq!(b3, b2);
}

#[test]
fn plain_gravity_accelerates_downward() {
    let arena = square_arena(1_000_000);
    let mut balls = vec![ball(0, 0, 0, 0, 10, 1)];
    step(&mut balls, &arena, 10, 1, false);
    assert_eq!(balls[0].velocity.y, -10);
    assert_eq!(balls[0].position.y, -10);
    step(&mut balls, &arena, 10, 1, false);
    assert_eq!(balls[0].velocity.y, -20);
    assert_eq!(balls[0].position.y, -30);
}

#[test]
fn gravity_impulse_scales_with_dt() {
    let mut balls = vec![ball(0, 0, 0, 0, 10, 1)];
    apply_gravity(&mut balls, 7, 3, false);
    assert_eq!(balls[0].velocity.y, -21);
    // the pass resets the slack for the boundary pass to tighten
    assert_eq!(balls[0].ground_contact_slack, SLACK_NONE);
}

#[test]
fn damped_gravity_is_capped_by_the_slack() {
    let mut b = ball(0, 0, 0, 0, 10, 1);
    b.ground_contact_slack = 6;
    let mut balls = vec![b];
    // full impulse would be 10 * 2 = 20; the slack allows only 6 / 2 = 3
    apply_gravity(&mut balls, 10, 2, true);
    assert_eq!(balls[0].velocity.y, -3);
    assert_eq!(balls[0].ground_contact_slack, SLACK_NONE);
    // with no contact ahead, damped gravity is full gravity
    let mut balls2 = vec![ball(0, 0, 0, 0, 10, 1)];
    apply_gravity(&mut balls2, 10, 2, true);
    assert_eq!(balls2[0].velocity.y, -20);
}

#[test]
fn wall_bounce_records_the_ground_slack() {
    // falling body 40 above the floor: the bounce prediction writes the gap
    let arena = square_arena(100);
    let mut balls = vec![ball(0, -50, 0, -45, 10, 1)];
    handle_for_edge_collisions(&mut balls, &arena, 1);
    assert_eq!(balls[0].velocity.y, 45);
    assert_eq!(balls[0].ground_contact_slack, 40);
}

#[test]
fn integration_moves_by_velocity_times_dt() {
    let mut balls = vec![ball(10, 20, -3, 4, 5, 1)];
    apply_velocity(&mut balls, 3);
    assert_eq!(balls[0].position.x, 1);
    assert_eq!(balls[0].position.y, 32);
    assert_eq!(balls[0].velocity.x, -3);
}

#[test]
fn closed_system_energy_is_constant_over_a_long_run() {
    // gravity off, elastic walls and collisions: a two-body closed system
    let arena = square_arena(100);
    let mut balls = vec![ball(-50, 0, 7, 0, 10, 3), ball(50, 0, -7, 0, 10, 3)];
    let initial = energy(&balls);
    for _ in 0..5000 {
        step(&mut balls, &arena, 0, 1, false);
        assert!(energy(&balls) <= initial);
    }
    assert_eq!(energy(&balls), initial);
}

#[test]
fn two_runs_from_equal_state_agree_exactly() {
    let arena = square_arena(200);
    let mk = || {
        vec![
            ball(-50, 10, 7, -3, 10, 2),
            ball(50, -20, -6, 4, 15, 5),
            ball(0, 60, 1, -9, 12, 3),
        ]
    };
    let mut run1 = mk();
    let mut run2 = mk();
    let dts = [1i64, 2, 1, 3, 1, 1, 2, 1];
    for i in 0..800 {
        let dt = dts[i % dts.len()];
        step(&mut run1, &arena, 5, dt, true);
        step(&mut run2, &arena, 5, dt, true);
        assert_eq!(run1, run2);
    }
}

#[test]
fn resizing_the_arena_between_ticks_repairs_positions() {
    let mut balls = vec![ball(95, 0, 0, 0, 10, 1)];
    step(&mut balls, &square_arena(200), 0, 1, false);
    assert_eq!(balls[0].position.x, 95);
    // the window shrank: the body is clamped back onto the new bound
    step(&mut balls, &square_arena(50), 0, 1, false);
    assert_eq!(balls[0].position.x, 40);
}

#[test]
fn spawning_is_refused_on_box_overlap() {
    let balls = vec![ball(0, 0, 0, 0, 10, 1)];
    assert!(!can_spawn_at(&balls, Vec2 { x: 15, y: 0 }, 10));
    // boxes touching exactly do not overlap (strict test)
    assert!(can_spawn_at(&balls, Vec2 { x: 20, y: 0 }, 10));
    assert!(can_spawn_at(&balls, Vec2 { x: 300, y: 300 }, 10));
}

#[test]
fn find_ball_at_picks_the_first_containing_disk() {
    let balls = vec![ball(0, 0, 0, 0, 10, 1), ball(15, 0, 0, 0, 10, 1)];
    assert_eq!(find_ball_at(&balls, Vec2 { x: 1, y: 1 }), Some(0));
    // overlap region: the lower index wins
    assert_eq!(find_ball_at(&balls, Vec2 { x: 8, y: 0 }), Some(0));
    assert_eq!(find_ball_at(&balls, Vec2 { x: 16, y: 0 }), Some(1));
    // a point on the rim is not strictly inside
    assert_eq!(find_ball_at(&balls, Vec2 { x: 25, y: 0 }), None);
    assert_eq!(find_ball_at(&balls, Vec2 { x: 100, y: 100 }), None);
}

#[test]
fn pair_sweep_runs_in_ascending_index_order() {
    // three bodies in a row; the middle one meets its lower-index partner
    // first, and its mutated velocity is what the later pair sees
    let mut balls = vec![
        ball(-12, 0, 10, 0, 5, 1),
        ball(0, 0, 0, 0, 5, 1),
        ball(12, 0, 0, 0, 5, 1),
    ];
    handle_inter_ball_collision(&mut balls, 1);
    // pair (0,1) exchanged: body 1 now heads right at 10 toward body 2,
    // and pair (1,2) sees that and exchanges again within the same tick
    assert_eq!(balls[0].velocity.x, 0);
    assert_eq!(balls[1].velocity.x, 0);
    assert_eq!(balls[2].velocity.x, 10);
}
