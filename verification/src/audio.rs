//! Identifiers of the sound effects the simulation can trigger.  Playing
//! them is the job of an external audio collaborator; the engines only
//! report which effect fired.

use vstd::prelude::*;

verus! {

/// A sound effect the collision engine can request.
#[derive(Clone, Copy, Debug, PartialEq, Eq, Structural)]
pub enum SoundEffect {
    /// Two hard objects bumping (rate-limited by a shared cooldown).
    AsteroidCollision,
    /// A lethal impact on a ship.
    SpaceshipCrash,
    /// The player reached Earth.
    GameWin,
}

} // verus!
