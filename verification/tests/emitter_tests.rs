use bullet_pool::emitter::Emitter;
use bullet_pool::pool::{ConfigError, DrawItem};
use bullet_pool::sim::Simulation;

#[test]
fn emitter_rejects_a_zero_capacity_hint() {
    assert_eq!(
        Emitter::new(0, 0, 0, 50, 0, 1_000, 0).err(),
        Some(ConfigError::InvalidConfiguration)
    );
}

#[test]
fn emitter_starts_with_a_zero_timer_and_holds_fire_on_the_first_tick() {
    // The timer starts at exactly zero, and the firing rule is a
    // strict `< 0`: the first tick only pushes the timer negative.
    let mut e = Emitter::new(0, 0, 0, 50, 0, 1_000, 5).unwrap();
    assert_eq!(e.reload_timer, 0);
    e.tick(50);
    assert_eq!(e.pool.len(), 0);
    assert_eq!(e.reload_timer, -50);
    e.tick(50);
    assert_eq!(e.pool.len(), 1);
    assert_eq!(e.reload_timer, 50);
}

#[test]
fn emitter_fires_every_third_tick_when_interval_equals_delta() {
    // Interval 50 ms at 50 ms per tick: the timer walks 50, 0, -50,
    // so shots leave on ticks 2, 5, 8, ... — strictly less often than
    // once per tick.
    let mut e = Emitter::new(0, 0, 0, 50, 0, 1_000, 5).unwrap();
    let mut fire_ticks = Vec::new();
    let mut spawned = 0;
    for tick in 1..=20 {
        e.tick(50);
        // Nothing retires this quickly, so the pool grows exactly on
        // the ticks that fire.
        if e.pool.len() > spawned {
            spawned = e.pool.len();
            fire_ticks.push(tick);
        }
    }
    assert_eq!(fire_ticks, vec![2, 5, 8, 11, 14, 17, 20]);
}

#[test]
fn zero_interval_still_spends_a_tick_reloading() {
    // Even with a zero firing interval the strict `< 0` rule costs a
    // tick: the timer resets to exactly zero, which does not fire, so
    // shots leave every other tick.
    let mut e = Emitter::new(0, 0, 0, 0, 0, 1_000, 5).unwrap();
    let mut sizes = Vec::new();
    for _ in 1..=6 {
        e.tick(50);
        sizes.push(e.pool.len());
    }
    assert_eq!(sizes, vec![0, 1, 1, 2, 2, 3]);
}

#[test]
fn coarse_ticks_fire_every_other_tick() {
    // A 50 ms interval sampled at 200 ms per tick: one tick to cross
    // below zero, one tick to fire.
    let mut e = Emitter::new(0, 0, 0, 50, 0, 1_000, 5).unwrap();
    e.tick(200);
    assert_eq!(e.pool.len(), 0);
    assert_eq!(e.reload_timer, -200);
    e.tick(200);
    assert_eq!(e.pool.len(), 1);
    assert_eq!(e.reload_timer, 50);
    e.tick(200);
    assert_eq!(e.pool.len(), 1);
    assert_eq!(e.reload_timer, -150);
    e.tick(200);
    assert_eq!(e.pool.len(), 2);
}

#[test]
fn emitter_spawns_its_bullet_parameters_at_its_own_position() {
    let mut e = Emitter::new(3, 25_000, 30_000, 1_000, 250, 2_000, 5).unwrap();
    e.tick(50);
    e.tick(50);
    assert_eq!(e.pool.len(), 1);
    let b = e.pool.get(0);
    assert_eq!(b.asset_id, 3);
    assert_eq!(b.x, 25_000);
    // The bullet integrates once on the tick that fires it.
    assert_eq!(b.y, 30_000 + 2_000 * 50 / 1_000);
    assert_eq!(b.angle, 250);
    assert_eq!(b.velocity, 2_000);
    assert_eq!(b.angular_velocity, 0);
    assert_eq!(b.acceleration, 0);
    assert!(b.active);
}

#[test]
fn draw_between_updates_changes_nothing() {
    let mut sim = Simulation::new();
    sim.add_emitter(Emitter::new(0, 25_000, 25_000, 50, 250, 100_000, 5).unwrap());
    for _ in 0..5 {
        sim.update(50);
    }
    let first = sim.draw();
    let timer_before = sim.emitter(0).reload_timer;
    let len_before = sim.emitter(0).pool.len();
    for _ in 0..10 {
        assert_eq!(sim.draw(), first);
    }
    assert_eq!(sim.emitter(0).reload_timer, timer_before);
    assert_eq!(sim.emitter(0).pool.len(), len_before);
    // The next update behaves exactly as if nothing had been drawn.
    sim.update(50);
    let mut twin = Simulation::new();
    twin.add_emitter(Emitter::new(0, 25_000, 25_000, 50, 250, 100_000, 5).unwrap());
    for _ in 0..6 {
        twin.update(50);
    }
    assert_eq!(sim.draw(), twin.draw());
}

#[test]
fn classic_scene_runs_end_to_end() {
    // One emitter at (25, 25), interval 0.05 s, quarter-turn heading,
    // 100 units/s, in the 160 x 144 arena, ticked at 0.05 s.
    let mut sim = Simulation::new();
    sim.add_emitter(Emitter::new(0, 25_000, 25_000, 50, 250, 100_000, 5).unwrap());

    // Tick 1: the zero timer only goes negative; nothing fires.
    sim.update(50);
    assert_eq!(sim.draw(), vec![]);
    assert_eq!(sim.emitter(0).pool.len(), 0);

    // Tick 2: the first shot, already integrated once: 5 units up.
    sim.update(50);
    assert_eq!(
        sim.draw(),
        vec![DrawItem { asset_id: 0, x: 25_000, y: 30_000 }]
    );

    // Shots leave on ticks 2, 5, 8, ..., 23: eight slots by tick 23.
    for _ in 3..=23 {
        sim.update(50);
    }
    assert_eq!(sim.emitter(0).pool.len(), 8);
    assert_eq!(sim.draw().len(), 8);

    // A bullet fired on tick f sits at y = 25 + 5 * (t - f + 1) units
    // after tick t and crosses y = 144 on tick f + 23: the first
    // bullet retires on tick 25, freeing its slot.
    sim.update(50);
    assert_eq!(sim.draw().len(), 8);
    sim.update(50);
    assert_eq!(sim.draw().len(), 7);
    assert!(!sim.emitter(0).pool.get(0).active);

    // Tick 26 fires again and recycles slot 0 instead of growing.
    sim.update(50);
    assert_eq!(sim.emitter(0).pool.len(), 8);
    let recycled = sim.emitter(0).pool.get(0);
    assert!(recycled.active);
    assert_eq!(recycled.y, 30_000);

    // Steady state: one shot every three ticks, one retirement every
    // three ticks, so the pool never needs a ninth slot.
    for _ in 27..=100 {
        sim.update(50);
    }
    assert_eq!(sim.emitter(0).pool.len(), 8);
}

#[test]
fn emitters_tick_in_sequence_and_draw_in_order() {
    let mut sim = Simulation::new();
    assert_eq!(sim.emitter_count(), 0);
    sim.add_emitter(Emitter::new(1, 10_000, 10_000, 50, 0, 1_000, 2).unwrap());
    sim.add_emitter(Emitter::new(2, 20_000, 20_000, 50, 0, 1_000, 2).unwrap());
    assert_eq!(sim.emitter_count(), 2);
    sim.update(50);
    sim.update(50);
    let items = sim.draw();
    assert_eq!(items.len(), 2);
    assert_eq!(items[0].asset_id, 1);
    assert_eq!(items[1].asset_id, 2);
    assert_eq!(items[0].x, 10_000 + 50);
    assert_eq!(items[1].x, 20_000 + 50);
}
