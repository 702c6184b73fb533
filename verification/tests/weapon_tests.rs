use arcade_sim::entity::{Entity, Role, BULLET_RADIUS, BULLET_SPEED, MUZZLE_OFFSET, UNIT};
use arcade_sim::store::Store;
use arcade_sim::weapon::{Weapon, COOLDOWN};

fn shots_in(frames: u64, dt: u64) -> (u64, Option<u64>) {
    let mut store = Store::new();
    let mut weapon = Weapon::new();
    let mut count = 0;
    let mut first = None;
    for frame in 1..=frames {
        if weapon.bullet_firing(&mut store, dt, true).is_some() {
            count += 1;
            if first.is_none() {
                first = Some(frame * dt);
            }
        }
    }
    assert_eq!(store.len() as u64, count);
    (count, first)
}

#[test]
fn weapon_starts_cooling() {
    let mut store = Store::new();
    let mut weapon = Weapon::new();
    assert_eq!(COOLDOWN, 200_000);
    assert!(!weapon.ready());
    assert_eq!(weapon.bullet_firing(&mut store, 0, true), None);
    assert_eq!(weapon.bullet_firing(&mut store, COOLDOWN - 1, true), None);
    assert_eq!(store.len(), 0);
    assert_eq!(weapon.bullet_firing(&mut store, 1, true), Some(1));
    assert_eq!(store.len(), 1);
    assert!(!weapon.ready());
}

#[test]
fn bullet_appears_ahead_of_the_ship_flying_up() {
    let mut store = Store::new();
    let mut weapon = Weapon::new();
    let id = weapon.bullet_firing(&mut store, COOLDOWN, true);
    assert_eq!(id, Some(1));
    assert_eq!(MUZZLE_OFFSET, 30 * UNIT);
    assert_eq!(BULLET_SPEED, 200);
    assert_eq!(BULLET_RADIUS, 2 * UNIT as u32);
    assert_eq!(
        store.get(0),
        Some(Entity {
            id: 1,
            role: Role::Bullet,
            x: 0,
            y: 30 * UNIT,
            vx: 0,
            vy: 200,
            radius: 2_000_000
        })
    );
}

#[test]
fn weapon_waits_for_the_fire_key() {
    let mut store = Store::new();
    let mut weapon = Weapon::new();
    assert_eq!(weapon.bullet_firing(&mut store, COOLDOWN * 3, false), None);
    assert!(weapon.ready());
    assert_eq!(weapon.bullet_firing(&mut store, 0, false), None);
    assert_eq!(store.len(), 0);
    assert_eq!(weapon.bullet_firing(&mut store, 0, true), Some(1));
    assert!(!weapon.ready());
    assert_eq!(weapon.bullet_firing(&mut store, COOLDOWN - 1, true), None);
    assert_eq!(weapon.bullet_firing(&mut store, 1, true), Some(2));
}

#[test]
fn held_fire_gives_one_bullet_per_cooldown() {
    // Frames that divide the cooldown: time / cooldown bullets, rounded down.
    for (dt, frames) in [(10_000u64, 1_000u64), (20_000, 99), (200_000, 7), (1, 450_000), (50_000, 3)] {
        let (count, first) = shots_in(frames, dt);
        assert_eq!(count, frames * dt / COOLDOWN);
        if count > 0 {
            assert_eq!(first, Some(COOLDOWN));
        }
    }
}

#[test]
fn held_fire_with_frames_that_do_not_divide_the_cooldown() {
    // 16 667 us frames: twelve frames to a shot, one more than 200 000 us.
    let (count, first) = shots_in(600, 16_667);
    assert_eq!(count, 600 / 12);
    assert_eq!(first, Some(12 * 16_667));
    // 150 ms frames: a shot every second frame.
    let (count, first) = shots_in(4, 150_000);
    assert_eq!(count, 2);
    assert_eq!(first, Some(300_000));
    // Frames longer than the cooldown: a shot every frame.
    let (count, first) = shots_in(5, 1_000_000);
    assert_eq!(count, 5);
    assert_eq!(first, Some(1_000_000));
}

#[test]
fn held_fire_in_frames_without_time_never_shoots() {
    let (count, first) = shots_in(1_000, 0);
    assert_eq!(count, 0);
    assert_eq!(first, None);
}

#[test]
fn time_lost_after_each_shot_adds_up() {
    // Twelve frames of 16 667 us are 4 us more than the cooldown. After
    // 4 166 shots and eleven more frames the time is worth 4 167 cooldowns.
    let frames = 12 * 4_166 + 11;
    let (count, _) = shots_in(frames, 16_667);
    assert_eq!(count, 4_166);
    assert_eq!(frames * 16_667 / COOLDOWN, 4_167);
    // One frame earlier the two still agree.
    let (count, _) = shots_in(frames - 1, 16_667);
    assert_eq!(count, (frames - 1) * 16_667 / COOLDOWN);
}

#[test]
fn cooldown_can_be_watched() {
    let mut store = Store::new();
    let mut weapon = Weapon::new();
    weapon.bullet_firing(&mut store, 150_000, true);
    assert_eq!(weapon.cooldown().elapsed(), 150_000);
    assert_eq!(weapon.cooldown().duration(), COOLDOWN);
    weapon.bullet_firing(&mut store, 150_000, false);
    assert_eq!(weapon.cooldown().elapsed(), COOLDOWN);
    assert!(weapon.cooldown().finished());
    weapon.bullet_firing(&mut store, 150_000, true);
    assert_eq!(weapon.cooldown().elapsed(), 0);
}

#[test]
fn held_fire_over_unequal_frames() {
    let frames: [u64; 10] = [150_000, 100_000, 30_000, 200_000, 0, 199_999, 1, 450_000, 50_000, 150_000];
    let mut store = Store::new();
    let mut weapon = Weapon::new();
    let mut shots = Vec::new();
    let mut time = 0;
    for dt in frames {
        time += dt;
        shots.push(weapon.bullet_firing(&mut store, dt, true).is_some());
        let so_far = shots.iter().filter(|s| **s).count() as u64;
        assert!(so_far <= time / COOLDOWN);
    }
    assert_eq!(
        shots,
        vec![false, true, false, true, false, false, true, true, false, true]
    );
    assert!(weapon.cooldown().mode() == arcade_sim::timer::TimerMode::Once);
}
