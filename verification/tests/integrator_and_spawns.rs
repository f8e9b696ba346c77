//! The Euler integrator with its phase gate, bullet kinematics, and the
//! enemy fire decision.

use spacesim::bullets::{fire_bullet, BULLET_MASS, BULLET_RADIUS};
use spacesim::cooldown::Cooldown;
use spacesim::enemies::{enemies_update, Enemy, EnemyRow};
use spacesim::vec3::Vec3;
use spacesim::velocity::{velocity_update, MovingBody, Velocity};
use spacesim::{EntityType, GameState};

fn mover(p: (i64, i64, i64), v: (i64, i64, i64)) -> MovingBody {
    MovingBody {
        position: Vec3 { x: p.0, y: p.1, z: p.2 },
        velocity: Velocity::new(Vec3 { x: v.0, y: v.1, z: v.2 }),
    }
}

#[test]
fn integrator_advances_positions_while_running() {
    let mut bodies = vec![mover((1_000, 2_000, 3_000), (500, -500, 0))];
    velocity_update(&mut bodies, 2_000, &GameState::Running);
    // Two seconds at 0.5 units/s forward, 0.5 back on y.
    assert_eq!(bodies[0].position, Vec3 { x: 2_000, y: 1_000, z: 3_000 });
    assert_eq!(bodies[0].velocity.velocity, Vec3 { x: 500, y: -500, z: 0 });
}

#[test]
fn integrator_truncates_sub_unit_remainders() {
    let mut bodies = vec![mover((0, 0, 0), (999, -999, 1))];
    velocity_update(&mut bodies, 1, &GameState::Running);
    // 999 * 1 / 1000 truncates to zero either way.
    assert_eq!(bodies[0].position, Vec3 { x: 0, y: 0, z: 0 });
}

#[test]
fn pause_gate_freezes_positions() {
    // With any phase but Running, nonzero dt and nonzero velocity move
    // nothing.
    for phase in [GameState::Paused, GameState::Lost, GameState::Won] {
        let mut bodies = vec![
            mover((1_000, 2_000, 3_000), (500, -500, 9_000)),
            mover((-7, 8, -9), (1, 1, 1)),
        ];
        velocity_update(&mut bodies, 2_000, &phase);
        assert_eq!(bodies[0].position, Vec3 { x: 1_000, y: 2_000, z: 3_000 });
        assert_eq!(bodies[1].position, Vec3 { x: -7, y: 8, z: -9 });
        assert_eq!(bodies[0].velocity.velocity, Vec3 { x: 500, y: -500, z: 9_000 });
    }
}

#[test]
fn fired_bullet_kinematics() {
    let b = fire_bullet(
        Vec3 { x: 1_000, y: 2_000, z: 3_000 },
        Vec3 { x: 100, y: 200, z: 300 },
        Vec3 { x: 1_000, y: 0, z: 0 },
        2_400,
    );
    // One barrel length ahead along x; shooter velocity plus 40 units/s.
    assert_eq!(b.position, Vec3 { x: 3_400, y: 2_000, z: 3_000 });
    assert_eq!(b.velocity, Vec3 { x: 40_100, y: 200, z: 300 });
    assert_eq!(b.collision.ctype, EntityType::Bullet);
    assert_eq!(b.collision.radius, BULLET_RADIUS);
    assert_eq!(b.collision.mass, BULLET_MASS);
    assert_eq!(b.gravity.mass, BULLET_MASS);
}

#[test]
fn bullet_along_diagonal_facing() {
    // A unit diagonal in the x-y plane, scaled by 1000: (707, 707, 0).
    let b = fire_bullet(
        Vec3 { x: 0, y: 0, z: 0 },
        Vec3 { x: 0, y: 0, z: 0 },
        Vec3 { x: 707, y: 707, z: 0 },
        2_400,
    );
    // 2400 * 707 / 1000 = 1696; 40000 * 707 / 1000 = 28280.
    assert_eq!(b.position, Vec3 { x: 1_696, y: 1_696, z: 0 });
    assert_eq!(b.velocity, Vec3 { x: 28_280, y: 28_280, z: 0 });
}

fn enemy(entity: u64, p: (i64, i64, i64), v: (i64, i64, i64), until: i64) -> EnemyRow {
    EnemyRow {
        entity,
        enemy: Enemy { enemy_weapon_cooldown: Cooldown { until_time: until } },
        position: Vec3 { x: p.0, y: p.1, z: p.2 },
        velocity: Vec3 { x: v.0, y: v.1, z: v.2 },
    }
}

#[test]
fn enemy_fires_at_player_in_range_and_resets_cooldown() {
    let mut enemies = vec![enemy(5, (0, 0, 0), (100, 0, 0), 0)];
    let players = vec![Vec3 { x: 30_000, y: 0, z: 0 }];
    let fires = enemies_update(&mut enemies, &players, 1_000);
    assert_eq!(fires.len(), 1);
    assert_eq!(fires[0].shooter_position, Vec3 { x: 0, y: 0, z: 0 });
    assert_eq!(fires[0].shooter_velocity, Vec3 { x: 100, y: 0, z: 0 });
    // Aim straight at the player: the unit x direction scaled by 1000.
    assert_eq!(fires[0].shooter_facing, Vec3 { x: 1_000, y: 0, z: 0 });
    // The weapon cooldown restarted 2.5 seconds from now.
    assert_eq!(enemies[0].enemy.enemy_weapon_cooldown.until_time, 3_500);
}

#[test]
fn enemy_holds_fire_out_of_range_or_on_cooldown() {
    // Out of range: 60 units away.
    let mut enemies = vec![enemy(5, (0, 0, 0), (0, 0, 0), 0)];
    let far = vec![Vec3 { x: 60_000, y: 0, z: 0 }];
    let fires = enemies_update(&mut enemies, &far, 1_000);
    assert!(fires.is_empty());
    assert_eq!(enemies[0].enemy.enemy_weapon_cooldown.until_time, 0);
    // In range but the weapon is still cold.
    let mut enemies2 = vec![enemy(5, (0, 0, 0), (0, 0, 0), 2_000)];
    let near = vec![Vec3 { x: 30_000, y: 0, z: 0 }];
    let fires2 = enemies_update(&mut enemies2, &near, 1_000);
    assert!(fires2.is_empty());
    assert_eq!(enemies2[0].enemy.enemy_weapon_cooldown.until_time, 2_000);
    // A player at the enemy's own position is a degenerate target.
    let mut enemies3 = vec![enemy(5, (0, 0, 0), (0, 0, 0), 0)];
    let coincident = vec![Vec3 { x: 0, y: 0, z: 0 }];
    let fires3 = enemies_update(&mut enemies3, &coincident, 1_000);
    assert!(fires3.is_empty());
}

#[test]
fn enemy_targets_first_player_in_range() {
    let mut enemies = vec![enemy(5, (0, 0, 0), (0, 0, 0), 0)];
    let players = vec![
        Vec3 { x: 60_000, y: 0, z: 0 },
        Vec3 { x: 0, y: 40_000, z: 0 },
        Vec3 { x: 10_000, y: 0, z: 0 },
    ];
    let fires = enemies_update(&mut enemies, &players, 1_000);
    assert_eq!(fires.len(), 1);
    // The first in-range player wins: the one along y.
    assert_eq!(fires[0].shooter_facing, Vec3 { x: 0, y: 1_000, z: 0 });
}
