//! A stationary emitter: fires a projectile into its pool whenever its
//! reload timer has counted below zero, and advances the pool each
//! tick.

use vstd::prelude::*;
use crate::fixed::{clip, DT_MAX, sat_sub};
use crate::pool::{spawn_spec, update_spec, draws_spec, ConfigError, DrawItem, ProjectilePool};
use crate::projectile::Projectile;

verus! {

/// The mathematical state of an emitter: its fixed parameters, its
/// reload timer, and the slots of the pool it owns.
pub ghost struct EmitterModel {
    /// Visual-variant tag passed on to every projectile it fires.
    pub asset_id: i32,
    /// Horizontal position, milli-units.
    pub x: i64,
    /// Vertical position, milli-units.
    pub y: i64,
    /// Milliseconds between shots.
    pub firing_interval: i64,
    /// Counts down by `dt` each tick; the emitter fires on the tick
    /// that begins with it strictly below zero.
    pub reload_timer: i64,
    /// Heading given to every fired projectile, milli-turns.
    pub bullet_angle: i64,
    /// Speed given to every fired projectile, milli-units per second.
    pub bullet_velocity: i64,
    /// The slots of the owned pool.
    pub slots: Seq<Projectile>,
}

/// The projectile an emitter fires: its fixed bullet parameters at its
/// own position, with no turn rate and no acceleration, active.
pub open spec fn bullet_of(e: EmitterModel) -> Projectile {
    Projectile {
        asset_id: e.asset_id,
        x: e.x,
        y: e.y,
        angle: e.bullet_angle,
        velocity: e.bullet_velocity,
        angular_velocity: 0,
        acceleration: 0,
        active: true,
    }
}

/// What one tick does to an emitter. A timer strictly below zero means
/// the emitter fires — spawns its bullet and resets the timer to the
/// firing interval; otherwise the timer only counts down. A timer that
/// lands exactly on zero does not fire that tick. Either way the pool
/// then integrates one tick of `dt`.
pub open spec fn tick_spec(e: EmitterModel, dt: int) -> EmitterModel {
    EmitterModel {
        asset_id: e.asset_id,
        x: e.x,
        y: e.y,
        firing_interval: e.firing_interval,
        reload_timer: if e.reload_timer < 0 {
            e.firing_interval
        } else {
            clip(e.reload_timer - dt) as i64
        },
        bullet_angle: e.bullet_angle,
        bullet_velocity: e.bullet_velocity,
        slots: if e.reload_timer < 0 {
            update_spec(spawn_spec(e.slots, bullet_of(e)), dt)
        } else {
            update_spec(e.slots, dt)
        },
    }
}

/// The draw data of a sequence of emitters, concatenated in tick
/// order.
pub open spec fn draws_of_emitters(es: Seq<EmitterModel>) -> Seq<DrawItem>
    decreases es.len(),
{
    if es.len() == 0 {
        Seq::empty()
    } else {
        draws_of_emitters(es.drop_last()) + draws_spec(es.last().slots)
    }
}

/// A stationary projectile source owning one pool.
///
/// Its reload timer starts at zero, and the firing rule is strictly
/// `< 0`: the first tick therefore only moves the timer below zero,
/// and the first shot leaves on the second tick.
pub struct Emitter {
    /// Visual-variant tag for fired projectiles.
    pub asset_id: i32,
    /// Horizontal position, milli-units.
    pub x: i64,
    /// Vertical position, milli-units.
    pub y: i64,
    /// Milliseconds between shots.
    pub firing_interval: i64,
    /// Countdown until the next shot, milliseconds.
    pub reload_timer: i64,
    /// Heading of fired projectiles, milli-turns.
    pub bullet_angle: i64,
    /// Speed of fired projectiles, milli-units per second.
    pub bullet_velocity: i64,
    /// The pool this emitter fires into.
    pub pool: ProjectilePool,
}

impl View for Emitter {
    type V = EmitterModel;

    open spec fn view(&self) -> EmitterModel {
        EmitterModel {
            asset_id: self.asset_id,
            x: self.x,
            y: self.y,
            firing_interval: self.firing_interval,
            reload_timer: self.reload_timer,
            bullet_angle: self.bullet_angle,
            bullet_velocity: self.bullet_velocity,
            slots: self.pool@,
        }
    }
}

impl Emitter {
    /// An emitter at `(x, y)` with fixed firing parameters and a fresh
    /// pool reserved for `capacity_hint` slots. A capacity hint of zero
    /// is a configuration error and is rejected.
    pub fn new(
        asset_id: i32,
        x: i64,
        y: i64,
        firing_interval: i64,
        bullet_angle: i64,
        bullet_velocity: i64,
        capacity_hint: usize,
    ) -> (r: Result<Emitter, ConfigError>)
        ensures
            capacity_hint == 0 ==> r == Err::<Emitter, ConfigError>(
                ConfigError::InvalidConfiguration,
            ),
            capacity_hint > 0 ==> (r matches Ok(e) && e@ == (EmitterModel {
                asset_id,
                x,
                y,
                firing_interval,
                reload_timer: 0,
                bullet_angle,
                bullet_velocity,
                slots: Seq::<Projectile>::empty(),
            })),
    {
        match ProjectilePool::new(capacity_hint) {
            Ok(pool) => Ok(Emitter {
                asset_id,
                x,
                y,
                firing_interval,
                reload_timer: 0,
                bullet_angle,
                bullet_velocity,
                pool,
            }),
            Err(e) => Err(e),
        }
    }

    /// One tick of `dt` milliseconds: fire if the reload timer is
    /// strictly below zero (resetting it to the firing interval),
    /// otherwise count the timer down; then integrate the pool.
    pub fn tick(&mut self, dt: i64)
        requires
            0 <= dt <= DT_MAX,
        ensures
            final(self)@ == tick_spec(old(self)@, dt as int),
    {
        if self.reload_timer < 0 {
            self.pool.spawn(
                self.asset_id,
                self.x,
                self.y,
                self.bullet_angle,
                self.bullet_velocity,
                0,
                0,
            );
            self.reload_timer = self.firing_interval;
        } else {
            self.reload_timer = sat_sub(self.reload_timer, dt);
        }
        self.pool.update(dt);
    }

    /// The draw data of this emitter's active projectiles, in storage
    /// order. Takes the emitter by shared reference: drawing can never
    /// change its state.
    pub fn draw(&self) -> (out: Vec<DrawItem>)
        ensures
            out@ == draws_spec(self@.slots),
    {
        self.pool.for_each_active()
    }
}

} // verus!
