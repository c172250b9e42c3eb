//! System-wide laws of the simulation, stated and proved over the same
//! spec functions that the executable contracts use.

use vstd::prelude::*;
use vstd::arithmetic::div_mod::{
    lemma_fundamental_div_mod, lemma_fundamental_div_mod_converse,
    lemma_mod_division_less_than_divisor, lemma_div_multiples_vanish, lemma_div_pos_is_pos,
    lemma_div_of0,
};
use vstd::arithmetic::mul::{
    lemma_mul_inequality, lemma_mul_nonnegative, lemma_mul_by_zero_is_zero,
    lemma_mul_is_distributive_add_other_way, lemma_mul_is_distributive_sub_other_way,
};
use crate::fixed::{cos_milli, lemma_quarter_turns, scaled_travel_spec, sin_milli, DT_MAX};
use crate::emitter::{bullet_of, tick_spec, EmitterModel};
use crate::pool::{first_free, has_free, lemma_first_free, spawn_spec, update_spec};
use crate::projectile::{step, Projectile, WORLD_HEIGHT_MILLI, WORLD_WIDTH_MILLI};

verus! {

/// Where `n` spawns in a row, with nothing else between them, take the
/// slots.
pub open spec fn spawn_many(s: Seq<Projectile>, ps: Seq<Projectile>) -> Seq<Projectile>
    decreases ps.len(),
{
    if ps.len() == 0 {
        s
    } else {
        spawn_many(spawn_spec(s, ps[0]), ps.subrange(1, ps.len() as int))
    }
}

/// Where iterated integration takes a single projectile: `n` ticks of
/// `dt` milliseconds each.
pub open spec fn step_n(p: Projectile, dt: int, n: nat) -> Projectile
    decreases n,
{
    if n == 0 {
        p
    } else {
        step(step_n(p, dt, (n - 1) as nat), dt)
    }
}

/// A spawn never shrinks the pool, and grows it by at most one slot.
pub proof fn lemma_spawn_monotone(s: Seq<Projectile>, p: Projectile)
    ensures
        s.len() <= spawn_spec(s, p).len() <= s.len() + 1,
{
    lemma_first_free(s);
}

/// A spawn grows the pool exactly when every slot is already active;
/// with at least one inactive slot the size stays the same.
pub proof fn lemma_spawn_grows_iff_saturated(s: Seq<Projectile>, p: Projectile)
    ensures
        spawn_spec(s, p).len() == s.len() + 1 <==> !has_free(s),
        has_free(s) ==> spawn_spec(s, p).len() == s.len(),
{
    lemma_first_free(s);
}

/// Pool growth under uninterrupted spawning: starting from a pool whose
/// slots are all active, a run of spawns of active projectiles grows
/// the pool by exactly the number of calls made, and leaves every slot
/// active.
pub proof fn lemma_growth_when_saturated(s: Seq<Projectile>, ps: Seq<Projectile>)
    requires
        forall|i: int| 0 <= i < s.len() ==> s[i].active,
        forall|i: int| 0 <= i < ps.len() ==> ps[i].active,
    ensures
        spawn_many(s, ps) == s + ps,
        spawn_many(s, ps).len() == s.len() + ps.len(),
        forall|i: int| 0 <= i < spawn_many(s, ps).len() ==> spawn_many(s, ps)[i].active,
    decreases ps.len(),
{
    if ps.len() == 0 {
        assert(s + ps =~= s);
    } else {
        lemma_first_free(s);
        assert(!has_free(s));
        let s1 = s.push(ps[0]);
        assert(spawn_spec(s, ps[0]) == s1);
        assert(forall|i: int| 0 <= i < s1.len() ==> s1[i].active);
        let tail = ps.subrange(1, ps.len() as int);
        assert(forall|i: int| 0 <= i < tail.len() ==> tail[i] == ps[i + 1]);
        lemma_growth_when_saturated(s1, tail);
        assert(s1 + tail =~= s + ps);
    }
}

/// Recycle correctness: a spawn into a pool with at least one inactive
/// slot does not change the pool's size; the first inactive slot ends
/// up holding exactly the supplied projectile, with nothing kept from
/// its prior occupancy, and every other slot is untouched.
pub proof fn lemma_recycle(s: Seq<Projectile>, p: Projectile)
    requires
        has_free(s),
    ensures
        spawn_spec(s, p).len() == s.len(),
        spawn_spec(s, p)[first_free(s)] == p,
        forall|j: int|
            0 <= j < s.len() && j != first_free(s) ==> spawn_spec(s, p)[j] == s[j],
{
    lemma_first_free(s);
}

/// Boundary asymmetry: a projectile heading toward negative x (half a
/// turn) from inside the arena never retires, however many ticks
/// elapse — only the positive bounds are checked, so an exit through a
/// negative coordinate is never noticed.
pub proof fn lemma_leftward_never_retires(p: Projectile, dt: int, n: nat)
    requires
        p.active,
        p.angle == 500,
        p.velocity >= 0,
        p.angular_velocity == 0,
        p.acceleration == 0,
        p.x <= WORLD_WIDTH_MILLI,
        p.y <= WORLD_HEIGHT_MILLI,
        0 <= dt <= DT_MAX,
    ensures
        step_n(p, dt, n).active,
        step_n(p, dt, n).x <= p.x,
        step_n(p, dt, n).y == p.y,
        step_n(p, dt, n).angle == 500,
        step_n(p, dt, n).velocity == p.velocity,
        step_n(p, dt, n).angular_velocity == 0,
        step_n(p, dt, n).acceleration == 0,
    decreases n,
{
    if n > 0 {
        lemma_leftward_never_retires(p, dt, (n - 1) as nat);
        let q = step_n(p, dt, (n - 1) as nat);
        lemma_quarter_turns();
        assert(cos_milli(500) == sin_milli(750));
        let v = q.velocity as int;
        lemma_mul_nonnegative(v, dt);
        assert(v * dt * -1000 == -(v * dt * 1000));
        lemma_div_pos_is_pos(v * dt * 1000, 1_000_000);
        assert(scaled_travel_spec(v, dt, -1000) <= 0);
        assert(v * dt * 0 == 0);
        lemma_div_of0(1_000_000);
        assert(scaled_travel_spec(v, dt, 0) == 0);
    }
}

/// Retirement determinism, the exact trajectory: a projectile fired
/// rightward (angle zero) from `x = 0` with positive velocity `V`,
/// ticked at one second (so it travels `V` milli-units per tick), sits
/// at `x = n * V` after `n` ticks and is active exactly as long as
/// `n * V` has not passed the arena width.
pub proof fn lemma_rightward_trajectory(p: Projectile, n: nat)
    requires
        p.active,
        p.x == 0,
        0 <= p.y <= WORLD_HEIGHT_MILLI,
        p.angle == 0,
        p.velocity > 0,
        p.angular_velocity == 0,
        p.acceleration == 0,
        p.velocity <= i64::MAX - WORLD_WIDTH_MILLI,
        n <= WORLD_WIDTH_MILLI as int / p.velocity as int + 1,
    ensures
        step_n(p, 1000, n).x == n * p.velocity,
        step_n(p, 1000, n).active <==> n * p.velocity <= WORLD_WIDTH_MILLI as int,
        step_n(p, 1000, n).y == p.y,
        step_n(p, 1000, n).angle == 0,
        step_n(p, 1000, n).velocity == p.velocity,
        step_n(p, 1000, n).angular_velocity == 0,
        step_n(p, 1000, n).acceleration == 0,
    decreases n,
{
    let v = p.velocity as int;
    let w = WORLD_WIDTH_MILLI as int;
    if n == 0 {
        assert(n * v == 0) by {
            lemma_mul_by_zero_is_zero(v);
        }
    } else {
        lemma_rightward_trajectory(p, (n - 1) as nat);
        let q = step_n(p, 1000, (n - 1) as nat);
        lemma_quarter_turns();
        assert(v * 1000 * 1000 == 1_000_000 * v);
        lemma_div_multiples_vanish(v, 1_000_000);
        assert(scaled_travel_spec(v, 1000, 1000) == v);
        assert(v * 1000 * 0 == 0);
        lemma_div_of0(1_000_000);
        assert(scaled_travel_spec(v, 1000, 0) == 0);
        assert((n - 1) * v + v == n * v) by {
            lemma_mul_is_distributive_sub_other_way(v, n as int, 1);
        }
        assert(0 <= (n - 1) * v && 0 <= n * v) by {
            lemma_mul_nonnegative(n - 1, v);
            lemma_mul_nonnegative(n as int, v);
        }
        assert(n * v <= w + v) by {
            lemma_fundamental_div_mod(w, v);
            lemma_mod_division_less_than_divisor(w, v);
            lemma_mul_inequality(n as int, w / v + 1, v);
            lemma_mul_is_distributive_add_other_way(v, w / v, 1);
        }
        assert((n - 1) * v <= w) by {
            lemma_fundamental_div_mod(w, v);
            lemma_mod_division_less_than_divisor(w, v);
            lemma_mul_inequality(n - 1, w / v, v);
        }
        assert(step_n(p, 1000, n) == step(q, 1000));
    }
}

/// Retirement determinism: with velocity `V` not dividing the arena
/// width, the rightward projectile of `lemma_rightward_trajectory`
/// retires on exactly the tick numbered by the ceiling of
/// width-over-velocity, and not before.
pub proof fn lemma_retirement_determinism(p: Projectile, n: nat)
    requires
        p.active,
        p.x == 0,
        0 <= p.y <= WORLD_HEIGHT_MILLI,
        p.angle == 0,
        p.velocity > 0,
        p.angular_velocity == 0,
        p.acceleration == 0,
        p.velocity <= i64::MAX - WORLD_WIDTH_MILLI,
        WORLD_WIDTH_MILLI as int % (p.velocity as int) != 0,
        n <= (WORLD_WIDTH_MILLI as int + p.velocity - 1) / (p.velocity as int),
    ensures
        n < (WORLD_WIDTH_MILLI as int + p.velocity - 1) / (p.velocity as int) ==> step_n(
            p,
            1000,
            n,
        ).active,
        n == (WORLD_WIDTH_MILLI as int + p.velocity - 1) / (p.velocity as int) ==> !step_n(
            p,
            1000,
            n,
        ).active,
{
    let v = p.velocity as int;
    let w = WORLD_WIDTH_MILLI as int;
    let q = w / v;
    let r = w % v;
    lemma_fundamental_div_mod(w, v);
    lemma_mod_division_less_than_divisor(w, v);
    assert(0 < r < v);
    assert(w + v - 1 == (q + 1) * v + (r - 1)) by {
        lemma_mul_is_distributive_add_other_way(v, q, 1);
    }
    lemma_fundamental_div_mod_converse(w + v - 1, v, q + 1, r - 1);
    assert((w + v - 1) / v == q + 1);
    lemma_rightward_trajectory(p, n);
    if n < q + 1 {
        assert(n * v <= q * v) by {
            lemma_mul_inequality(n as int, q, v);
        }
        assert(q * v <= w);
    } else {
        assert(n == q + 1);
        assert(n * v == q * v + v) by {
            lemma_mul_is_distributive_add_other_way(v, q, 1);
        }
        assert(n * v > w);
    }
}

/// Where `n` ticks of `dt` milliseconds each take an emitter.
pub open spec fn tick_n(e: EmitterModel, dt: int, n: nat) -> EmitterModel
    decreases n,
{
    if n == 0 {
        e
    } else {
        tick_spec(tick_n(e, dt, (n - 1) as nat), dt)
    }
}

/// Ticking is compositional: `m + n` ticks are `m` ticks followed by
/// `n` more. With `lemma_reload_cadence` this pins the whole firing
/// schedule: after each shot the timer holds the firing interval, and
/// the cadence argument starts over from there.
pub proof fn lemma_tick_n_compose(e: EmitterModel, dt: int, m: nat, n: nat)
    ensures
        tick_n(e, dt, m + n) == tick_n(tick_n(e, dt, m), dt, n),
    decreases n,
{
    if n > 0 {
        lemma_tick_n_compose(e, dt, m, (n - 1) as nat);
    }
}

/// While the reload timer is still counting down, nothing fires: an
/// emitter with an empty pool and a nonnegative timer `t`, ticked at
/// `dt`, has fired nothing after `n` ticks for every `n` up to
/// `t / dt + 1`, and its timer has simply lost `n * dt`. In particular
/// a timer that lands exactly on zero does not fire that tick.
pub proof fn lemma_no_fire_while_counting(e: EmitterModel, dt: int, n: nat)
    requires
        e.slots == Seq::<Projectile>::empty(),
        e.reload_timer >= 0,
        0 < dt <= DT_MAX,
        n <= e.reload_timer as int / dt + 1,
    ensures
        tick_n(e, dt, n).slots == Seq::<Projectile>::empty(),
        tick_n(e, dt, n).reload_timer == e.reload_timer - n * dt,
        tick_n(e, dt, n).firing_interval == e.firing_interval,
        tick_n(e, dt, n).asset_id == e.asset_id,
        tick_n(e, dt, n).x == e.x,
        tick_n(e, dt, n).y == e.y,
        tick_n(e, dt, n).bullet_angle == e.bullet_angle,
        tick_n(e, dt, n).bullet_velocity == e.bullet_velocity,
    decreases n,
{
    let t = e.reload_timer as int;
    let k = t / dt;
    lemma_fundamental_div_mod(t, dt);
    lemma_mod_division_less_than_divisor(t, dt);
    if n == 0 {
        assert(n * dt == 0) by {
            lemma_mul_by_zero_is_zero(dt);
        }
    } else {
        lemma_no_fire_while_counting(e, dt, (n - 1) as nat);
        let q = tick_n(e, dt, (n - 1) as nat);
        assert((n - 1) * dt + dt == n * dt) by {
            lemma_mul_is_distributive_sub_other_way(dt, n as int, 1);
        }
        assert((n - 1) * dt <= k * dt) by {
            lemma_mul_inequality(n - 1, k, dt);
        }
        assert(q.reload_timer >= 0);
        assert(n * dt <= k * dt + dt) by {
            lemma_mul_inequality(n as int, k + 1, dt);
            lemma_mul_is_distributive_add_other_way(dt, k, 1);
        }
        assert(update_spec(q.slots, dt) =~= Seq::<Projectile>::empty());
    }
}

/// Reload cadence: an emitter with an empty pool and a nonnegative
/// reload timer `t`, ticked at a fixed `dt`, fires for the first time
/// on tick `t / dt + 2` and on no earlier tick — the timer must cross
/// strictly below zero first, which costs `t / dt + 1` ticks, so the
/// emitter fires strictly less often than once per `t / dt` ticks. On
/// the firing tick the pool grows to one slot and the timer resets to
/// the firing interval.
pub proof fn lemma_reload_cadence(e: EmitterModel, dt: int)
    requires
        e.slots == Seq::<Projectile>::empty(),
        e.reload_timer >= 0,
        0 < dt <= DT_MAX,
    ensures
        forall|n: nat|
            n <= e.reload_timer as int / dt + 1 ==> #[trigger] tick_n(e, dt, n).slots.len() == 0,
        forall|n: nat|
            n <= e.reload_timer as int / dt ==> #[trigger] tick_n(e, dt, n).reload_timer >= 0,
        tick_n(e, dt, (e.reload_timer as int / dt + 1) as nat).reload_timer < 0,
        tick_n(e, dt, (e.reload_timer as int / dt + 2) as nat).slots.len() == 1,
        tick_n(e, dt, (e.reload_timer as int / dt + 2) as nat).reload_timer == e.firing_interval,
{
    let t = e.reload_timer as int;
    let k = t / dt;
    lemma_fundamental_div_mod(t, dt);
    lemma_mod_division_less_than_divisor(t, dt);
    assert(k >= 0) by {
        lemma_div_pos_is_pos(t, dt);
    }
    assert forall|n: nat| n <= k + 1 implies #[trigger] tick_n(e, dt, n).slots.len() == 0 by {
        lemma_no_fire_while_counting(e, dt, n);
    }
    assert forall|n: nat| n <= k implies #[trigger] tick_n(e, dt, n).reload_timer >= 0 by {
        lemma_no_fire_while_counting(e, dt, n);
        assert(n * dt <= k * dt) by {
            lemma_mul_inequality(n as int, k, dt);
        }
    }
    lemma_no_fire_while_counting(e, dt, (k + 1) as nat);
    let q = tick_n(e, dt, (k + 1) as nat);
    assert((k + 1) * dt == k * dt + dt) by {
        lemma_mul_is_distributive_add_other_way(dt, k, 1);
    }
    assert(q.reload_timer < 0);
    assert(tick_n(e, dt, (k + 2) as nat) == tick_spec(q, dt));
    assert(!has_free(q.slots));
    assert(spawn_spec(q.slots, bullet_of(q)).len() == 1);
}

} // verus!
