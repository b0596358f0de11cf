//! A tick-driven tower-defense combat engine.
//!
//! Towers periodically acquire the nearest hostile target and spawn
//! projectiles aimed at it; projectiles travel, expire, or strike targets;
//! targets lose health and die.  Every quantity is a fixed-point integer so
//! that each per-tick update has an exact contract:
//!
//! * lengths are measured in micro-units (one world unit is 1_000_000),
//! * time is measured in milliseconds,
//! * speeds are measured in micro-units per millisecond, which is the same
//!   as milli-units per second (a speed written `2.5` units per second in a
//!   configuration is stored as `2500`).
//!
//! The engine owns no rendering, input, or scene loading: a front end feeds
//! it elapsed time and placement commands and reads entity state back.

pub mod collision;
pub mod components;
pub mod laws;
pub mod math;
pub mod motion;
pub mod placement;
pub mod shooting;
pub mod sim;
pub mod timer;
pub mod units;
pub mod vec3;
pub mod world;
