//! A verified 2D projectile ("bullet") simulation core.
//!
//! Stationary emitters fire projectiles into a growable object pool of
//! reusable slots; each frame the pool integrates the kinematic state of
//! every active projectile and retires the ones that leave the arena.
//!
//! All quantities are fixed-point integers in thousandths of a unit
//! (positions in milli-units, angles in milli-turns, times in
//! milliseconds), so every rule of the simulation has an exact
//! mathematical statement.

pub mod emitter;
pub mod fixed;
pub mod laws;
pub mod pool;
pub mod projectile;
pub mod sim;
