//! The data shapes carried by entities, and the tower archetype table.

use vstd::prelude::*;

use crate::timer::{Timer, TimerMode};
use crate::units::SPEED_LIMIT;
use crate::vec3::{dir_in_range, Vec3};

verus! {

/// A hostile target: it drifts along the world X axis at `speed`
/// micro-units per millisecond.
#[derive(Clone, Copy, Debug, PartialEq, Eq, Structural)]
pub struct Target {
    pub speed: i64,
}

impl Target {
    /// The drift speed is bounded so per-tick displacements fit in an `i64`.
    pub open spec fn wf(self) -> bool {
        -SPEED_LIMIT <= self.speed <= SPEED_LIMIT
    }
}

/// Hit points of a target.  The value starts positive; it may go negative
/// transiently within a tick, but any entity observed with a value of
/// zero or below is destroyed before the next tick begins.
#[derive(Clone, Copy, Debug, PartialEq, Eq, Structural)]
pub struct Health {
    pub value: i32,
}

/// A projectile.  `direction` is the raw vector from the spawn point to
/// the target acquired at fire time — it is not normalized; motion
/// normalizes it at use time.  `speed` is in micro-units per millisecond.
#[derive(Clone, Copy, Debug, PartialEq, Eq, Structural)]
pub struct Bullet {
    pub direction: Vec3,
    pub speed: i64,
}

impl Bullet {
    pub open spec fn wf(self) -> bool {
        &&& 0 <= self.speed <= SPEED_LIMIT
        &&& dir_in_range(self.direction)
    }
}

/// A tower: a repeating countdown that triggers firing, and the local
/// offset from the tower's position at which its bullets appear.
#[derive(Clone, Copy, Debug, PartialEq, Eq, Structural)]
pub struct Tower {
    pub shooting_timer: Timer,
    pub bullet_offset: Vec3,
}

impl Tower {
    pub open spec fn wf(self) -> bool {
        &&& self.shooting_timer.wf()
        &&& self.shooting_timer.mode is Repeating
    }
}

/// A one-shot expiry countdown attached to a projectile, independent of
/// collision outcomes: a safety backstop, not a gameplay range limit.
#[derive(Clone, Copy, Debug, PartialEq, Eq, Structural)]
pub struct Lifetime {
    pub timer: Timer,
}

impl Lifetime {
    pub open spec fn wf(self) -> bool {
        &&& self.timer.wf()
        &&& self.timer.mode is Once
    }
}

/// How long a freshly spawned bullet lives if it never hits anything,
/// in milliseconds.
pub const BULLET_LIFETIME_MS: u64 = 1_000_500;

/// Fire interval of a tower that carries no archetype, in milliseconds.
pub const DEFAULT_INTERVAL_MS: u64 = 1_000;

/// Bullet speed of a tower that carries no archetype, in micro-units per
/// millisecond.
pub const DEFAULT_BULLET_SPEED: i64 = 2_500;

/// Local bullet spawn offset shared by all archetypes: 0.6 world units up.
pub open spec fn spec_archetype_offset() -> Vec3 {
    Vec3 { x: 0i64, y: 600_000i64, z: 0i64 }
}

/// A named configuration preset determining a tower's fire rate and its
/// bullets' speed.
#[derive(Clone, Copy, Debug, PartialEq, Eq, Structural)]
pub enum TowerType {
    Tomato,
    Potato,
    Cabbage,
}

/// The fire interval of an archetype, in milliseconds.
pub open spec fn spec_interval_ms(t: TowerType) -> u64 {
    match t {
        TowerType::Tomato => 500u64,
        TowerType::Potato => 100u64,
        TowerType::Cabbage => 800u64,
    }
}

/// The bullet speed of an archetype, in micro-units per millisecond.
pub open spec fn spec_bullet_speed(t: TowerType) -> i64 {
    match t {
        TowerType::Tomato => 3_500i64,
        TowerType::Potato => 6_500i64,
        TowerType::Cabbage => 1_500i64,
    }
}

/// The bullet speed of an optional archetype, falling back to the
/// untyped default.
pub open spec fn spec_bullet_speed_of(t: Option<TowerType>) -> i64 {
    match t {
        Option::Some(tt) => spec_bullet_speed(tt),
        Option::None => DEFAULT_BULLET_SPEED as i64,
    }
}

impl TowerType {
    /// The `Tower` parameters of this archetype: a fresh repeating timer
    /// at the archetype's interval and the shared bullet offset.
    pub fn get_tower(&self) -> (r: Tower)
        ensures
            r.shooting_timer == (Timer {
                mode: TimerMode::Repeating,
                duration_ms: spec_interval_ms(*self),
                elapsed_ms: 0u64,
                just_finished: false,
            }),
            r.bullet_offset == spec_archetype_offset(),
            r.wf(),
    {
        let interval: u64 = match self {
            TowerType::Tomato => 500,
            TowerType::Potato => 100,
            TowerType::Cabbage => 800,
        };
        Tower {
            shooting_timer: Timer::new_repeating(interval),
            bullet_offset: Vec3::new(0, 600_000, 0),
        }
    }

    /// The `Bullet` this archetype fires along `direction`.
    pub fn get_bullet(&self, direction: Vec3) -> (r: Bullet)
        ensures
            r == (Bullet { direction, speed: spec_bullet_speed(*self) }),
    {
        let speed: i64 = match self {
            TowerType::Tomato => 3_500,
            TowerType::Potato => 6_500,
            TowerType::Cabbage => 1_500,
        };
        Bullet { direction, speed }
    }
}

/// The bullet speed used by a tower with the given optional archetype.
pub fn bullet_speed_of(t: Option<TowerType>) -> (r: i64)
    ensures
        r == spec_bullet_speed_of(t),
{
    match t {
        Option::Some(tt) => match tt {
            TowerType::Tomato => 3_500,
            TowerType::Potato => 6_500,
            TowerType::Cabbage => 1_500,
        },
        Option::None => DEFAULT_BULLET_SPEED,
    }
}

/// A tower with no archetype: the hard-coded default parameters.
pub fn default_tower() -> (r: Tower)
    ensures
        r.shooting_timer == (Timer {
            mode: TimerMode::Repeating,
            duration_ms: DEFAULT_INTERVAL_MS,
            elapsed_ms: 0u64,
            just_finished: false,
        }),
        r.bullet_offset == spec_archetype_offset(),
        r.wf(),
{
    Tower {
        shooting_timer: Timer::new_repeating(DEFAULT_INTERVAL_MS),
        bullet_offset: Vec3::new(0, 600_000, 0),
    }
}

/// A fresh expiry countdown for a newly spawned bullet.
pub fn new_lifetime() -> (r: Lifetime)
    ensures
        r.timer == (Timer {
            mode: TimerMode::Once,
            duration_ms: BULLET_LIFETIME_MS,
            elapsed_ms: 0u64,
            just_finished: false,
        }),
        r.wf(),
{
    Lifetime { timer: Timer::new_once(BULLET_LIFETIME_MS) }
}

} // verus!
