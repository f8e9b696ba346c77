//! The gravity engine: exact two-body values, momentum conservation,
//! the minimum-distance guard, and Newton's third-law symmetry.

use spacesim::gravity::{gravity_update, Gravity, GravityBody};
use spacesim::vec3::Vec3;

fn body(p: (i64, i64, i64), v: (i64, i64, i64), mass: i64) -> GravityBody {
    GravityBody {
        position: Vec3 { x: p.0, y: p.1, z: p.2 },
        velocity: Vec3 { x: v.0, y: v.1, z: v.2 },
        gravity: Gravity { mass },
    }
}

#[test]
fn two_body_exact_attraction() {
    // A (2 units of mass) at the origin, B (1 unit) three units along x,
    // over one second.
    let mut bodies = vec![
        body((0, 0, 0), (0, 0, 0), 2_000),
        body((3_000, 0, 0), (0, 0, 0), 1_000),
    ];
    gravity_update(&mut bodies, 1_000);
    // impulse = trunc(50*2000*1000*1000*3000*1000 / (9e6 * 3000)) = 11_111_111;
    // A gains trunc(impulse/2000) toward B, B gains trunc(impulse/1000) toward A.
    assert_eq!(bodies[0].velocity, Vec3 { x: 5_555, y: 0, z: 0 });
    assert_eq!(bodies[1].velocity, Vec3 { x: -11_111, y: 0, z: 0 });
    // Positions and masses untouched.
    assert_eq!(bodies[0].position, Vec3 { x: 0, y: 0, z: 0 });
    assert_eq!(bodies[1].position, Vec3 { x: 3_000, y: 0, z: 0 });
    assert_eq!(bodies[0].gravity.mass, 2_000);
}

#[test]
fn two_body_momentum_nearly_conserved() {
    let mut bodies = vec![
        body((100, -200, 300), (0, 0, 0), 1_700),
        body((4_100, 1_800, -1_700), (0, 0, 0), 2_300),
    ];
    let m0 = bodies[0].gravity.mass as i128;
    let m1 = bodies[1].gravity.mass as i128;
    gravity_update(&mut bodies, 1_000);
    for (d0, d1) in [
        (bodies[0].velocity.x as i128, bodies[1].velocity.x as i128),
        (bodies[0].velocity.y as i128, bodies[1].velocity.y as i128),
        (bodies[0].velocity.z as i128, bodies[1].velocity.z as i128),
    ] {
        let residue = m0 * d0 + m1 * d1;
        assert!(residue.abs() < m0 + m1, "residue {} too large", residue);
    }
}

#[test]
fn attraction_is_mutual_and_opposite_in_direction() {
    let mut bodies = vec![
        body((0, 0, 0), (0, 0, 0), 1_000),
        body((0, 5_000, 0), (0, 0, 0), 1_000),
    ];
    gravity_update(&mut bodies, 1_000);
    // Equal masses: the two velocity changes mirror each other exactly.
    assert!(bodies[0].velocity.y > 0);
    assert_eq!(bodies[0].velocity.y, -bodies[1].velocity.y);
    assert_eq!(bodies[0].velocity.x, 0);
    assert_eq!(bodies[0].velocity.z, 0);
}

#[test]
fn same_position_pair_is_skipped() {
    let mut bodies = vec![
        body((7, 8, 9), (10, 20, 30), 5_000),
        body((7, 8, 9), (-1, -2, -3), 6_000),
    ];
    gravity_update(&mut bodies, 1_000);
    assert_eq!(bodies[0].velocity, Vec3 { x: 10, y: 20, z: 30 });
    assert_eq!(bodies[1].velocity, Vec3 { x: -1, y: -2, z: -3 });
}

#[test]
fn massless_frame_zero_dt_changes_nothing() {
    let mut bodies = vec![
        body((0, 0, 0), (1, 2, 3), 1_000),
        body((9_000, 0, 0), (4, 5, 6), 1_000),
    ];
    gravity_update(&mut bodies, 0);
    assert_eq!(bodies[0].velocity, Vec3 { x: 1, y: 2, z: 3 });
    assert_eq!(bodies[1].velocity, Vec3 { x: 4, y: 5, z: 6 });
}

#[test]
fn extreme_pair_saturates_velocity() {
    // Two maximal masses one sub-unit apart for the longest frame: the
    // per-pair change reaches 5e18, and adding it twice to a velocity
    // already at 5e18 clips at the i64 ceiling.
    let mut bodies = vec![
        body((0, 0, 0), (5_000_000_000_000_000_000, 0, 0), 100_000_000),
        body((1, 0, 0), (0, 0, 0), 100_000_000),
    ];
    gravity_update(&mut bodies, 1_000_000);
    assert_eq!(bodies[0].velocity.x, i64::MAX);
    assert_eq!(bodies[1].velocity.x, -5_000_000_000_000_000_000);
}

#[test]
fn three_bodies_accumulate_pairwise() {
    // A middle body pulled equally from both sides stays put.
    let mut bodies = vec![
        body((-3_000, 0, 0), (0, 0, 0), 1_000),
        body((0, 0, 0), (0, 0, 0), 2_000),
        body((3_000, 0, 0), (0, 0, 0), 1_000),
    ];
    gravity_update(&mut bodies, 1_000);
    assert_eq!(bodies[1].velocity, Vec3 { x: 0, y: 0, z: 0 });
    assert!(bodies[0].velocity.x > 0);
    assert_eq!(bodies[0].velocity.x, -bodies[2].velocity.x);
}
