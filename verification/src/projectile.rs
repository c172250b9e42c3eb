//! A single projectile slot and its per-tick integration rule.

use vstd::prelude::*;
use crate::fixed::{
    clip, cos_milli, sin_milli, scaled_travel_spec, DT_MAX, sat_add, sine, cosine,
    scaled_travel, clip_to_i64,
};

verus! {

/// Arena width in milli-units; a projectile whose x coordinate exceeds
/// it is retired.
pub const WORLD_WIDTH_MILLI: i64 = 160_000;

/// Arena height in milli-units; a projectile whose y coordinate exceeds
/// it is retired.
pub const WORLD_HEIGHT_MILLI: i64 = 144_000;

/// One pool slot's kinematic state.
///
/// Positions are milli-units, the angle is milli-turns, the velocity is
/// milli-units per second, the angular velocity is milli-turns per
/// tick, the acceleration is milli-units per second per tick. An
/// inactive slot's fields are stale: they keep whatever the slot last
/// held and are fully overwritten when the slot is reused.
#[derive(Clone, Copy, PartialEq, Eq, Structural, Debug)]
pub struct Projectile {
    /// Opaque tag selecting the visual variant drawn for this slot.
    pub asset_id: i32,
    /// Horizontal position, milli-units.
    pub x: i64,
    /// Vertical position, milli-units.
    pub y: i64,
    /// Heading, milli-turns; accumulates without wrap-around.
    pub angle: i64,
    /// Scalar speed along the heading, milli-units per second.
    pub velocity: i64,
    /// Turn rate added to the angle each tick, milli-turns.
    pub angular_velocity: i64,
    /// Speed delta added to the velocity each tick.
    pub acceleration: i64,
    /// Whether this slot is currently simulated and drawn.
    pub active: bool,
}

/// The integration rule: where one tick of `dt` milliseconds takes a
/// projectile. The position advances along the heading, then the angle
/// and velocity accumulate their per-tick deltas (saturating at the
/// `i64` range), and finally the slot is retired if either coordinate
/// exceeds its positive arena bound. Only the positive bounds are
/// checked: leaving through a negative coordinate never retires a slot.
pub open spec fn step(p: Projectile, dt: int) -> Projectile {
    let nx = clip(p.x + scaled_travel_spec(p.velocity as int, dt, cos_milli(p.angle as int)));
    let ny = clip(p.y + scaled_travel_spec(p.velocity as int, dt, sin_milli(p.angle as int)));
    Projectile {
        asset_id: p.asset_id,
        x: nx as i64,
        y: ny as i64,
        angle: clip(p.angle + p.angular_velocity) as i64,
        velocity: clip(p.velocity + p.acceleration) as i64,
        angular_velocity: p.angular_velocity,
        acceleration: p.acceleration,
        active: if nx > WORLD_WIDTH_MILLI as int || ny > WORLD_HEIGHT_MILLI as int {
            false
        } else {
            p.active
        },
    }
}

impl Projectile {
    /// A freshly parameterized slot.
    pub fn new(
        asset_id: i32,
        x: i64,
        y: i64,
        angle: i64,
        velocity: i64,
        angular_velocity: i64,
        acceleration: i64,
        active: bool,
    ) -> (p: Projectile)
        ensures
            p == (Projectile {
                asset_id,
                x,
                y,
                angle,
                velocity,
                angular_velocity,
                acceleration,
                active,
            }),
    {
        Projectile { asset_id, x, y, angle, velocity, angular_velocity, acceleration, active }
    }

    /// Advances this slot's kinematic state by one tick.
    pub fn integrate(&mut self, dt: i64)
        requires
            0 <= dt <= DT_MAX,
        ensures
            *final(self) == step(*old(self), dt as int),
    {
        let c = cosine(self.angle);
        let s = sine(self.angle);
        proof {
            crate::fixed::lemma_sin_milli_bounds(self.angle as int);
            crate::fixed::lemma_sin_milli_bounds(self.angle as int + 250);
        }
        let dx = scaled_travel(self.velocity, dt, c);
        let dy = scaled_travel(self.velocity, dt, s);
        self.x = clip_to_i64(self.x as i128 + dx);
        self.y = clip_to_i64(self.y as i128 + dy);
        self.angle = sat_add(self.angle, self.angular_velocity);
        self.velocity = sat_add(self.velocity, self.acceleration);
        if self.x > WORLD_WIDTH_MILLI || self.y > WORLD_HEIGHT_MILLI {
            self.active = false;
        }
    }
}

} // verus!
