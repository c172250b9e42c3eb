use bullet_pool::fixed::{cosine, sat_add, sat_sub, scaled_travel, sine};
use bullet_pool::pool::{ConfigError, DrawItem, ProjectilePool};
use bullet_pool::projectile::Projectile;

#[test]
fn sine_and_cosine_are_exact_at_quarter_turns() {
    assert_eq!(sine(0), 0);
    assert_eq!(sine(250), 1000);
    assert_eq!(sine(500), 0);
    assert_eq!(sine(750), -1000);
    assert_eq!(cosine(0), 1000);
    assert_eq!(cosine(250), 0);
    assert_eq!(cosine(500), -1000);
    assert_eq!(cosine(750), 0);
}

#[test]
fn sine_handles_negative_and_accumulated_angles() {
    assert_eq!(sine(-750), 1000);
    assert_eq!(sine(1250), 1000);
    assert_eq!(sine(-250), -1000);
    assert_eq!(cosine(-1000), 1000);
    assert_eq!(cosine(i64::MIN), cosine(i64::MIN % 1000 + 1000));
}

#[test]
fn saturating_sums_clip_at_the_i64_range() {
    assert_eq!(sat_add(i64::MAX, 1), i64::MAX);
    assert_eq!(sat_sub(i64::MIN, 1), i64::MIN);
    assert_eq!(sat_add(40, 2), 42);
}

#[test]
fn displacement_truncates_toward_zero() {
    // 100 units/s for 0.05 s straight along +x: 5 units.
    assert_eq!(scaled_travel(100_000, 50, 1000), 5_000);
    // A sub-step displacement truncates to nothing, on either side.
    assert_eq!(scaled_travel(1, 1, 1000), 0);
    assert_eq!(scaled_travel(-1, 1, 1000), 0);
    assert_eq!(scaled_travel(1, 1, -1000), 0);
}

#[test]
fn integrate_moves_along_the_heading() {
    let mut p = Projectile::new(7, 0, 0, 0, 100_000, 0, 0, true);
    p.integrate(1000);
    assert_eq!(p.x, 100_000);
    assert_eq!(p.y, 0);
    assert!(p.active);
    let mut up = Projectile::new(7, 0, 0, 250, 100_000, 0, 0, true);
    up.integrate(1000);
    assert_eq!(up.x, 0);
    assert_eq!(up.y, 100_000);
}

#[test]
fn integrate_accumulates_turn_rate_and_acceleration() {
    let mut p = Projectile::new(0, 0, 0, 0, 1_000, 125, 500, true);
    p.integrate(1000);
    assert_eq!(p.angle, 125);
    assert_eq!(p.velocity, 1_500);
    p.integrate(1000);
    assert_eq!(p.angle, 250);
    assert_eq!(p.velocity, 2_000);
}

#[test]
fn integrate_retires_past_either_positive_bound() {
    // Crossing the width retires.
    let mut r = Projectile::new(0, 159_000, 0, 0, 2_000, 0, 0, true);
    r.integrate(1000);
    assert_eq!(r.x, 161_000);
    assert!(!r.active);
    // Crossing the height retires.
    let mut u = Projectile::new(0, 0, 143_500, 250, 1_000, 0, 0, true);
    u.integrate(1000);
    assert_eq!(u.y, 144_500);
    assert!(!u.active);
}

#[test]
fn integrate_never_retires_through_negative_bounds() {
    // Half a turn: straight toward negative x, forever.
    let mut p = Projectile::new(0, 0, 0, 500, 100_000, 0, 0, true);
    for _ in 0..1000 {
        p.integrate(1000);
        assert!(p.active);
    }
    assert_eq!(p.x, -100_000_000);
    // Three quarter turns: straight toward negative y, forever.
    let mut d = Projectile::new(0, 0, 0, 750, 100_000, 0, 0, true);
    for _ in 0..1000 {
        d.integrate(1000);
        assert!(d.active);
    }
    assert_eq!(d.y, -100_000_000);
}

#[test]
fn retirement_takes_exactly_ceil_width_over_velocity_ticks() {
    // 160 units wide, 70 units per tick: ceil(160/70) = 3 ticks.
    let mut p = Projectile::new(0, 0, 0, 0, 70_000, 0, 0, true);
    p.integrate(1000);
    assert!(p.active);
    p.integrate(1000);
    assert!(p.active);
    p.integrate(1000);
    assert!(!p.active);
    assert_eq!(p.x, 210_000);
}

#[test]
fn pool_rejects_a_zero_capacity_hint() {
    assert_eq!(
        ProjectilePool::new(0).err(),
        Some(ConfigError::InvalidConfiguration)
    );
}

#[test]
fn pool_starts_empty_and_grows_per_spawn_while_saturated() {
    let mut pool = ProjectilePool::new(5).unwrap();
    assert_eq!(pool.len(), 0);
    pool.spawn(1, 0, 0, 0, 1_000, 0, 0);
    assert_eq!(pool.len(), 1);
    pool.spawn(2, 0, 0, 0, 1_000, 0, 0);
    assert_eq!(pool.len(), 2);
    pool.spawn(3, 0, 0, 0, 1_000, 0, 0);
    assert_eq!(pool.len(), 3);
    assert_eq!(pool.get(0).asset_id, 1);
    assert_eq!(pool.get(1).asset_id, 2);
    assert_eq!(pool.get(2).asset_id, 3);
}

#[test]
fn spawn_recycles_the_first_inactive_slot_without_growth() {
    let mut pool = ProjectilePool::new(5).unwrap();
    pool.spawn(1, 0, 0, 0, 170_000, 0, 0);
    pool.spawn(2, 0, 0, 0, 1_000, 0, 0);
    // The first bullet flies past the arena width in one tick.
    pool.update(1000);
    assert!(!pool.get(0).active);
    assert!(pool.get(1).active);
    // The next spawn reuses slot 0 and overwrites every field.
    pool.spawn(9, 10, 20, 250, 3_000, 40, 50);
    assert_eq!(pool.len(), 2);
    let reused = pool.get(0);
    assert_eq!(reused.asset_id, 9);
    assert_eq!(reused.x, 10);
    assert_eq!(reused.y, 20);
    assert_eq!(reused.angle, 250);
    assert_eq!(reused.velocity, 3_000);
    assert_eq!(reused.angular_velocity, 40);
    assert_eq!(reused.acceleration, 50);
    assert!(reused.active);
}

#[test]
fn update_skips_inactive_slots_entirely() {
    let mut pool = ProjectilePool::new(2).unwrap();
    pool.spawn(1, 0, 0, 0, 170_000, 0, 0);
    pool.update(1000);
    let stale = pool.get(0);
    assert!(!stale.active);
    pool.update(1000);
    assert_eq!(pool.get(0), stale);
}

#[test]
fn for_each_active_lists_active_slots_in_storage_order() {
    let mut pool = ProjectilePool::new(4).unwrap();
    pool.spawn(1, 5, 6, 0, 170_000, 0, 0);
    pool.spawn(2, 7, 8, 0, 1_000, 0, 0);
    pool.spawn(3, 9, 10, 0, 1_000, 0, 0);
    pool.update(1000);
    let items = pool.for_each_active();
    assert_eq!(
        items,
        vec![
            DrawItem { asset_id: 2, x: 1_007, y: 8 },
            DrawItem { asset_id: 3, x: 1_009, y: 10 },
        ]
    );
}
