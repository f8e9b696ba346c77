//! The collision engine: the spring impulse, the interaction matrix's
//! outcomes for every listed type pair, the order-independence of the
//! matrix, and the end-to-end win and kill scenarios.

use spacesim::audio::SoundEffect;
use spacesim::collision::{collision_update, Collision, CollisionBody};
use spacesim::cooldown::Cooldown;
use spacesim::vec3::Vec3;
use spacesim::{EntityType, GameState};

fn body(
    entity: u64,
    p: (i64, i64, i64),
    v: (i64, i64, i64),
    mass: i64,
    radius: i64,
    ctype: EntityType,
) -> CollisionBody {
    CollisionBody {
        entity,
        position: Vec3 { x: p.0, y: p.1, z: p.2 },
        velocity: Vec3 { x: v.0, y: v.1, z: v.2 },
        collision: Collision { mass, radius, ctype },
    }
}

#[test]
fn separated_pair_is_a_no_op() {
    let mut bodies = vec![
        body(1, (0, 0, 0), (5, 6, 7), 1_000, 1_000, EntityType::Asteroid),
        body(2, (5_000, 0, 0), (8, 9, 10), 1_000, 1_000, EntityType::Player),
    ];
    let mut phase = GameState::Running;
    let mut cd = Cooldown { until_time: 0 };
    let ev = collision_update(&mut bodies, 100, 500, &mut phase, &mut cd);
    assert_eq!(bodies[0].velocity, Vec3 { x: 5, y: 6, z: 7 });
    assert_eq!(bodies[1].velocity, Vec3 { x: 8, y: 9, z: 10 });
    assert_eq!(phase, GameState::Running);
    assert_eq!(cd.until_time, 0);
    assert!(ev.sounds.is_empty());
    assert!(ev.despawns.is_empty());
}

#[test]
fn spring_impulse_exact_values() {
    // Earth (radius 4, mass 16) at the origin; Player (radius 2, mass 4)
    // one unit along x; combined radius 6, penetration 5 units.
    let mut bodies = vec![
        body(1, (0, 0, 0), (0, 0, 0), 16_000, 4_000, EntityType::Earth),
        body(2, (1_000, 0, 0), (0, 0, 0), 4_000, 2_000, EntityType::Player),
    ];
    let mut phase = GameState::Running;
    let mut cd = Cooldown { until_time: 0 };
    collision_update(&mut bodies, 100, 500, &mut phase, &mut cd);
    // impulse = trunc(2048*5000*100*1000/1000) = 1_024_000_000;
    // Earth recoils by impulse/16000, the player by impulse/4000.
    assert_eq!(bodies[0].velocity, Vec3 { x: -64_000, y: 0, z: 0 });
    assert_eq!(bodies[1].velocity, Vec3 { x: 256_000, y: 0, z: 0 });
}

#[test]
fn impulse_momentum_symmetry() {
    let mut bodies = vec![
        body(1, (100, 200, 300), (0, 0, 0), 1_700, 2_000, EntityType::Asteroid),
        body(2, (1_100, 1_200, 1_300), (0, 0, 0), 2_300, 2_000, EntityType::Asteroid),
    ];
    let m0 = bodies[0].collision.mass as i128;
    let m1 = bodies[1].collision.mass as i128;
    let mut phase = GameState::Running;
    let mut cd = Cooldown { until_time: 0 };
    collision_update(&mut bodies, 100, 500, &mut phase, &mut cd);
    for (d0, d1) in [
        (bodies[0].velocity.x as i128, bodies[1].velocity.x as i128),
        (bodies[0].velocity.y as i128, bodies[1].velocity.y as i128),
        (bodies[0].velocity.z as i128, bodies[1].velocity.z as i128),
    ] {
        let residue = m0 * d0 + m1 * d1;
        assert!(residue.abs() < m0 + m1, "residue {} too large", residue);
    }
    // Asteroid-asteroid contact is physics-only.
    assert_eq!(phase, GameState::Running);
}

#[test]
fn asteroid_player_lethal_impact() {
    let mut bodies = vec![
        body(7, (0, 0, 0), (3_001, 0, 0), 1_000, 1_000, EntityType::Asteroid),
        body(8, (1_000, 0, 0), (0, 0, 0), 4_000, 2_000, EntityType::Player),
    ];
    let mut phase = GameState::Running;
    let mut cd = Cooldown { until_time: 0 };
    let ev = collision_update(&mut bodies, 100, 500, &mut phase, &mut cd);
    assert_eq!(phase, GameState::Lost);
    assert_eq!(ev.sounds, vec![SoundEffect::SpaceshipCrash]);
    assert_eq!(ev.despawns, vec![8]);
    assert_eq!(cd.until_time, 0);
}

#[test]
fn asteroid_player_soft_impact_rate_limited_sound() {
    let mut bodies = vec![
        body(7, (0, 0, 0), (1_000, 0, 0), 1_000, 1_000, EntityType::Asteroid),
        body(8, (1_000, 0, 0), (0, 0, 0), 4_000, 2_000, EntityType::Player),
    ];
    let mut phase = GameState::Running;
    let mut cd = Cooldown { until_time: 0 };
    let ev = collision_update(&mut bodies, 100, 500, &mut phase, &mut cd);
    assert_eq!(phase, GameState::Running);
    assert_eq!(ev.sounds, vec![SoundEffect::AsteroidCollision]);
    assert!(ev.despawns.is_empty());
    // The shared cooldown was reset to one second past `now`.
    assert_eq!(cd.until_time, 1_500);
    // While the cooldown runs, the same soft contact stays silent.
    let mut bodies2 = vec![
        body(7, (0, 0, 0), (1_000, 0, 0), 1_000, 1_000, EntityType::Asteroid),
        body(8, (1_000, 0, 0), (0, 0, 0), 4_000, 2_000, EntityType::Player),
    ];
    let ev2 = collision_update(&mut bodies2, 100, 600, &mut phase, &mut cd);
    assert!(ev2.sounds.is_empty());
    assert_eq!(cd.until_time, 1_500);
}

#[test]
fn earth_player_win_fires_once() {
    // Player (radius 2, mass 4) at distance 1 from Earth (radius 4,
    // mass 16) with relative speed 0.
    let mut bodies = vec![
        body(1, (0, 0, 0), (0, 0, 0), 16_000, 4_000, EntityType::Earth),
        body(2, (1_000, 0, 0), (0, 0, 0), 4_000, 2_000, EntityType::Player),
    ];
    let mut phase = GameState::Running;
    let mut cd = Cooldown { until_time: 0 };
    let ev = collision_update(&mut bodies, 16, 100, &mut phase, &mut cd);
    assert_eq!(phase, GameState::Won);
    assert_eq!(ev.sounds, vec![SoundEffect::GameWin]);
    assert!(ev.despawns.is_empty());
    // Still overlapping on later frames: no re-trigger after Won.
    let mut bodies2 = vec![
        body(1, (0, 0, 0), (0, 0, 0), 16_000, 4_000, EntityType::Earth),
        body(2, (1_000, 0, 0), (0, 0, 0), 4_000, 2_000, EntityType::Player),
    ];
    let ev2 = collision_update(&mut bodies2, 16, 116, &mut phase, &mut cd);
    assert_eq!(phase, GameState::Won);
    assert!(ev2.sounds.is_empty());
    let mut bodies3 = vec![
        body(1, (0, 0, 0), (0, 0, 0), 16_000, 4_000, EntityType::Earth),
        body(2, (1_000, 0, 0), (0, 0, 0), 4_000, 2_000, EntityType::Player),
    ];
    let ev3 = collision_update(&mut bodies3, 16, 132, &mut phase, &mut cd);
    assert!(ev3.sounds.is_empty());
}

#[test]
fn bullet_alien_kill_no_phase_change() {
    // Bullet (radius 0.1) and Alien (radius 2) overlapping with squared
    // relative speed above the bullet lethal threshold.
    let mut bodies = vec![
        body(10, (0, 0, 0), (10_001, 0, 0), 100, 100, EntityType::Bullet),
        body(20, (1_000, 0, 0), (0, 0, 0), 4_000, 2_000, EntityType::Alien),
    ];
    let mut phase = GameState::Running;
    let mut cd = Cooldown { until_time: 0 };
    let ev = collision_update(&mut bodies, 16, 100, &mut phase, &mut cd);
    assert_eq!(phase, GameState::Running);
    assert_eq!(ev.sounds, vec![SoundEffect::SpaceshipCrash]);
    assert_eq!(ev.despawns, vec![10, 20]);
}

#[test]
fn bullet_player_lethal_despawns_both_and_loses() {
    let mut bodies = vec![
        body(10, (0, 0, 0), (10_001, 0, 0), 100, 100, EntityType::Bullet),
        body(2, (1_000, 0, 0), (0, 0, 0), 4_000, 2_000, EntityType::Player),
    ];
    let mut phase = GameState::Running;
    let mut cd = Cooldown { until_time: 0 };
    let ev = collision_update(&mut bodies, 16, 100, &mut phase, &mut cd);
    assert_eq!(phase, GameState::Lost);
    assert_eq!(ev.sounds, vec![SoundEffect::SpaceshipCrash]);
    assert_eq!(ev.despawns, vec![10, 2]);
}

#[test]
fn matrix_outcome_is_order_independent() {
    // The same pair fed in both input orders yields the same outcome:
    // the same sound, the same despawn identifiers, the same phase.
    let a = body(10, (0, 0, 0), (10_001, 0, 0), 100, 100, EntityType::Bullet);
    let b = body(20, (1_000, 0, 0), (0, 0, 0), 4_000, 2_000, EntityType::Alien);
    let mut bodies1 = vec![a, b];
    let mut bodies2 = vec![b, a];
    let mut phase1 = GameState::Running;
    let mut phase2 = GameState::Running;
    let mut cd1 = Cooldown { until_time: 0 };
    let mut cd2 = Cooldown { until_time: 0 };
    let ev1 = collision_update(&mut bodies1, 16, 100, &mut phase1, &mut cd1);
    let ev2 = collision_update(&mut bodies2, 16, 100, &mut phase2, &mut cd2);
    assert_eq!(ev1.sounds, ev2.sounds);
    assert_eq!(ev1.despawns, ev2.despawns);
    assert_eq!(phase1, phase2);
    assert_eq!(cd1.until_time, cd2.until_time);
    // And the physics mirrors: each body's velocity change is the same
    // whichever slot it sat in.
    assert_eq!(bodies1[0].velocity, bodies2[1].velocity);
    assert_eq!(bodies1[1].velocity, bodies2[0].velocity);
}

#[test]
fn asteroid_earth_contact_is_physics_only() {
    let mut bodies = vec![
        body(1, (0, 0, 0), (9_999, 0, 0), 1_000, 1_000, EntityType::Asteroid),
        body(2, (1_000, 0, 0), (0, 0, 0), 16_000, 4_000, EntityType::Earth),
    ];
    let mut phase = GameState::Running;
    let mut cd = Cooldown { until_time: 0 };
    let ev = collision_update(&mut bodies, 16, 100, &mut phase, &mut cd);
    assert_eq!(phase, GameState::Running);
    assert!(ev.sounds.is_empty());
    assert!(ev.despawns.is_empty());
    assert!(bodies[0].velocity.x != 9_999);
}

#[test]
fn ended_session_keeps_its_outcome() {
    // A lethal asteroid-player hit after the session is already won
    // still crashes and despawns, but Won is terminal and stands.
    let mut bodies = vec![
        body(7, (0, 0, 0), (3_001, 0, 0), 1_000, 1_000, EntityType::Asteroid),
        body(8, (1_000, 0, 0), (0, 0, 0), 4_000, 2_000, EntityType::Player),
    ];
    let mut phase = GameState::Won;
    let mut cd = Cooldown { until_time: 0 };
    let ev = collision_update(&mut bodies, 100, 500, &mut phase, &mut cd);
    assert_eq!(phase, GameState::Won);
    assert_eq!(ev.sounds, vec![SoundEffect::SpaceshipCrash]);
    assert_eq!(ev.despawns, vec![8]);
    // The same holds for a lethal bullet-player hit.
    let mut bodies2 = vec![
        body(10, (0, 0, 0), (10_001, 0, 0), 100, 100, EntityType::Bullet),
        body(2, (1_000, 0, 0), (0, 0, 0), 4_000, 2_000, EntityType::Player),
    ];
    let mut phase2 = GameState::Won;
    let mut cd2 = Cooldown { until_time: 0 };
    collision_update(&mut bodies2, 100, 500, &mut phase2, &mut cd2);
    assert_eq!(phase2, GameState::Won);
    // And a lost session stays lost.
    let mut bodies3 = vec![
        body(7, (0, 0, 0), (3_001, 0, 0), 1_000, 1_000, EntityType::Asteroid),
        body(8, (1_000, 0, 0), (0, 0, 0), 4_000, 2_000, EntityType::Player),
    ];
    let mut phase3 = GameState::Lost;
    let mut cd3 = Cooldown { until_time: 0 };
    collision_update(&mut bodies3, 100, 500, &mut phase3, &mut cd3);
    assert_eq!(phase3, GameState::Lost);
}

#[test]
fn shared_cooldown_evolves_across_pairs_within_one_pass() {
    // Three mutually overlapping bodies.  Pairs are visited in index
    // order: (asteroid, asteroid) is physics-only, (asteroid 1, player)
    // fires the impact sound and arms the shared cooldown, and the
    // second asteroid-player contact in the same pass is then silent.
    let mut bodies = vec![
        body(1, (0, 0, 0), (0, 0, 0), 1_000, 2_000, EntityType::Asteroid),
        body(2, (1_000, 0, 0), (0, 0, 0), 1_000, 2_000, EntityType::Asteroid),
        body(3, (0, 1_000, 0), (0, 0, 0), 4_000, 2_000, EntityType::Player),
    ];
    let mut phase = GameState::Running;
    let mut cd = Cooldown { until_time: 0 };
    let ev = collision_update(&mut bodies, 16, 500, &mut phase, &mut cd);
    assert_eq!(ev.sounds, vec![SoundEffect::AsteroidCollision]);
    assert_eq!(cd.until_time, 1_500);
    assert_eq!(phase, GameState::Running);
    assert!(ev.despawns.is_empty());
}

#[test]
fn coincident_pair_is_degenerate_and_skipped() {
    let mut bodies = vec![
        body(1, (500, 500, 500), (0, 0, 0), 16_000, 4_000, EntityType::Earth),
        body(2, (500, 500, 500), (0, 0, 0), 4_000, 2_000, EntityType::Player),
    ];
    let mut phase = GameState::Running;
    let mut cd = Cooldown { until_time: 0 };
    let ev = collision_update(&mut bodies, 16, 100, &mut phase, &mut cd);
    assert_eq!(phase, GameState::Running);
    assert!(ev.sounds.is_empty());
    assert_eq!(bodies[0].velocity, Vec3 { x: 0, y: 0, z: 0 });
}
