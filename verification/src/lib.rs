//! Core of a real-time space-combat simulation: pairwise gravitational
//! attraction, pairwise collision detection and response with a type-indexed
//! gameplay interaction matrix, flocking ("boid") steering for swarming
//! entities, and Euler integration of position from velocity.
//!
//! All quantities are fixed-point: signed integer multiples of one
//! thousandth of a world unit (see [`fixed::SCALE`]).  Rendering, audio
//! playback, input capture and entity storage are external collaborators;
//! the engines here work on plain snapshots of entity state and report
//! their side effects (sounds, despawn requests, phase transitions) as
//! values.

use vstd::prelude::*;

pub mod audio;
pub mod boid;
pub mod bullets;
pub mod cooldown;
pub mod enemies;
pub mod fixed;
pub mod vec3;
pub mod velocity;
pub mod collision;
pub mod gravity;

verus! {

/// Gameplay category of a collidable entity, used to key the collision
/// interaction matrix.
#[derive(Clone, Copy, Debug, PartialEq, Eq, Structural)]
pub enum EntityType {
    // Passive objects
    Asteroid,
    Earth,

    // Projectiles
    Bullet,

    // Ships
    Alien,
    Player,
}

impl EntityType {
    /// Rank used to order the two members of a colliding pair canonically;
    /// it lists the variants in declaration order.
    pub open spec fn spec_rank(self) -> int {
        match self {
            EntityType::Asteroid => 0,
            EntityType::Earth => 1,
            EntityType::Bullet => 2,
            EntityType::Alien => 3,
            EntityType::Player => 4,
        }
    }

    /// Canonical rank of this entity type.
    pub fn rank(self) -> (r: u8)
        ensures
            r as int == self.spec_rank(),
    {
        match self {
            EntityType::Asteroid => 0,
            EntityType::Earth => 1,
            EntityType::Bullet => 2,
            EntityType::Alien => 3,
            EntityType::Player => 4,
        }
    }
}

/// Bounding radius of the player's ship, in fixed-point sub-units.
pub const PLAYER_SHIP_RADIUS: i64 = 2_000;

/// Which physical keyboard layout the player's movement keys follow.
/// Input capture itself is an external collaborator's job.
#[derive(Clone, Copy, Debug, PartialEq, Eq, Structural)]
pub enum KeyboardLayout {
    QWERTY,
    Colemak,
}

/// Session-wide phase of the game.  The integrator advances positions only
/// while `Running`; the collision engine transitions the phase to `Lost` or
/// `Won` on specific type-pair outcomes.  `Lost` and `Won` are terminal:
/// once a session has ended, its outcome never changes.
#[derive(Clone, Copy, Debug, PartialEq, Eq, Structural)]
pub enum GameState {
    Running,
    Paused,
    Lost,
    Won,
}

impl GameState {
    /// The session has ended: the phase is `Lost` or `Won`.
    pub open spec fn spec_is_terminal(self) -> bool {
        self == GameState::Lost || self == GameState::Won
    }

    /// The session has ended.
    pub fn is_terminal(&self) -> (r: bool)
        ensures
            r == self.spec_is_terminal(),
    {
        match self {
            GameState::Lost => true,
            GameState::Won => true,
            _ => false,
        }
    }
}

} // verus!
