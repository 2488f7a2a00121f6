//! Simulation core for a small 2D action game, evaluated once per tick:
//! a looping sprite-animation driver, a constant-velocity motion
//! integrator, and a combat resolver that detects axis-aligned
//! bounding-box overlap, applies damage, and removes spent attackers and
//! dead enemies. Positions are held in micropixels and durations in
//! microseconds, so every update is exact integer arithmetic.

pub mod actor;
pub mod animation;
pub mod combat;
pub mod motion;
pub mod world;
