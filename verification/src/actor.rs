//! The data model: an actor is the unit of simulation, with a fixed-point
//! position, a constant horizontal velocity, an optional looping
//! animation, optional combat statistics, and a role that gates collision
//! eligibility.
//!
//! Units: positions and extents are in micropixels (one pixel is
//! 1,000,000 micropixels); durations are in microseconds. A velocity is
//! in micropixels per microsecond, which is numerically equal to pixels
//! per second.

use vstd::prelude::*;

verus! {

use crate::animation::AnimationState;

/// Number of position subunits per pixel.
pub const MICROPIXELS_PER_PIXEL: i64 = 1_000_000;

/// Half extent of an attacker's bounding box on each axis: 2.5 pixels
/// (a 5 x 5 box).
pub const ATTACKER_HALF_EXTENT: i64 = 2_500_000;

/// Half extent of an enemy's bounding box on each axis: 16 pixels
/// (a 32 x 32 box).
pub const ENEMY_HALF_EXTENT: i64 = 16_000_000;

/// The construction rule an actor or an insertion violated. Malformed
/// configuration is rejected eagerly, at construction time, so the
/// per-tick components never fail at runtime.
#[derive(Clone, Copy, PartialEq, Eq, Structural, Debug)]
pub enum SpawnError {
    /// `frame_start` exceeds `frame_end`.
    FrameRangeInverted,
    /// The initial frame lies outside `frame_start..=frame_end`.
    FrameOutOfRange,
    /// The animation period is zero.
    ZeroPeriod,
    /// Initial health is negative.
    NegativeHealth,
    /// Damage is negative.
    NegativeDamage,
    /// The actor store already holds an actor with this identifier.
    DuplicateId,
}

/// Collision eligibility: attackers are tested against enemies; neutral
/// actors never collide.
#[derive(Clone, Copy, PartialEq, Eq, Structural, Debug)]
pub enum Role {
    Neutral,
    Attacker,
    Enemy,
}

/// Combat data for actors that participate in collisions: remaining
/// health, and the damage dealt on a hit.
#[derive(Clone, Copy, PartialEq, Eq, Structural, Debug)]
pub struct CombatStats {
    pub health: i64,
    pub damage: i64,
}

impl CombatStats {
    /// Well-formedness: health and damage are non-negative. (Health may
    /// drop below zero transiently within a tick, but such an actor is
    /// removed before the tick completes.)
    pub open spec fn valid(self) -> bool {
        self.health >= 0 && self.damage >= 0
    }

    /// What `new` returns for each input: the first violated construction
    /// rule, or the statistics themselves.
    pub open spec fn construction(health: i64, damage: i64) -> Result<CombatStats, SpawnError> {
        if health < 0 {
            Err(SpawnError::NegativeHealth)
        } else if damage < 0 {
            Err(SpawnError::NegativeDamage)
        } else {
            Ok(CombatStats { health, damage })
        }
    }

    /// Build combat statistics, rejecting negative health and negative
    /// damage.
    pub fn new(health: i64, damage: i64) -> (r: Result<CombatStats, SpawnError>)
        ensures
            r == Self::construction(health, damage),
            r matches Ok(c) ==> c.valid(),
    {
        if health < 0 {
            Err(SpawnError::NegativeHealth)
        } else if damage < 0 {
            Err(SpawnError::NegativeDamage)
        } else {
            Ok(CombatStats { health, damage })
        }
    }
}

/// The bounding-box half extent an actor's role fixes, in micropixels.
pub open spec fn half_extent_of(role: Role) -> int {
    match role {
        Role::Neutral => 0,
        Role::Attacker => ATTACKER_HALF_EXTENT as int,
        Role::Enemy => ENEMY_HALF_EXTENT as int,
    }
}

/// The unit of simulation. `id` is the stable identifier the actor store
/// keys removal and lookup by.
#[derive(Clone, Copy, PartialEq, Eq, Structural, Debug)]
pub struct Actor {
    pub id: u64,
    /// Horizontal position, in micropixels.
    pub x: i64,
    /// Vertical position, in micropixels. The motion integrator never
    /// touches it.
    pub y: i64,
    /// Signed horizontal speed, in micropixels per microsecond; the sign
    /// encodes the direction.
    pub velocity: i64,
    pub role: Role,
    /// Present only on actors that animate.
    pub animation: Option<AnimationState>,
    /// Present only on actors that participate in combat.
    pub combat: Option<CombatStats>,
}

impl Actor {
    /// Well-formedness: whatever optional data the actor carries is
    /// itself well formed.
    pub open spec fn valid(self) -> bool {
        &&& (self.animation matches Some(st) ==> st.valid())
        &&& (self.combat matches Some(c) ==> c.valid())
    }

    /// A plain actor with neither animation nor combat data; the optional
    /// fields are attached by the spawning caller from validated parts.
    pub fn new(id: u64, x: i64, y: i64, velocity: i64, role: Role) -> (a: Actor)
        ensures
            a == (Actor { id, x, y, velocity, role, animation: None, combat: None }),
            a.valid(),
    {
        Actor { id, x, y, velocity, role, animation: None, combat: None }
    }

    /// The half extent of this actor's bounding box, fixed by its role.
    pub fn half_extent(&self) -> (r: i64)
        ensures
            r as int == half_extent_of(self.role),
    {
        match self.role {
            Role::Neutral => 0,
            Role::Attacker => ATTACKER_HALF_EXTENT,
            Role::Enemy => ENEMY_HALF_EXTENT,
        }
    }

    /// Runtime check of well-formedness, for callers that assemble actors
    /// from unvalidated parts.
    pub fn is_valid(&self) -> (r: bool)
        ensures
            r == self.valid(),
    {
        let anim_ok = match &self.animation {
            Some(st) => st.frame_start <= st.current_frame && st.current_frame <= st.frame_end
                && st.period_micros >= 1 && st.elapsed_micros < st.period_micros,
            None => true,
        };
        let combat_ok = match &self.combat {
            Some(c) => c.health >= 0 && c.damage >= 0,
            None => true,
        };
        anim_ok && combat_ok
    }
}

/// Health of an actor's combat data, or zero where it has none.
pub open spec fn health_of(a: Actor) -> int {
    match a.combat {
        Some(c) => c.health as int,
        None => 0,
    }
}

/// Damage of an actor's combat data, or zero where it has none.
pub open spec fn damage_of(a: Actor) -> int {
    match a.combat {
        Some(c) => c.damage as int,
        None => 0,
    }
}

} // verus!
