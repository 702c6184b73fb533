use arcade_sim::entity::{Entity, Role, Viewport, MARGIN, OBSTACLE_RADIUS, OBSTACLE_SPEED, UNIT};
use arcade_sim::spawner::{draw, Draw, Spawner, DELAY_END_MS, DELAY_MIN_MS, FIRST_DELAY};
use arcade_sim::store::Store;

fn screen(half_width_units: u64, half_height_units: u64) -> Viewport {
    Viewport {
        width: 2 * half_width_units * UNIT as u64,
        height: 2 * half_height_units * UNIT as u64,
    }
}

#[test]
fn first_obstacle_comes_after_the_first_delay() {
    let view = screen(400, 300);
    let mut store = Store::new();
    let mut spawner = Spawner::new();
    let pick = Draw { x: -7 * UNIT, delay_ms: 500 };
    assert_eq!(FIRST_DELAY, 1_000_000);
    assert_eq!(spawner.delay(), FIRST_DELAY);
    assert_eq!(spawner.spawn_asteroids_with(&mut store, FIRST_DELAY - 1, &view, pick), None);
    assert_eq!(spawner.timer().elapsed(), FIRST_DELAY - 1);
    assert!(!spawner.timer().finished());
    assert_eq!(store.len(), 0);
    assert_eq!(spawner.delay(), FIRST_DELAY);
    assert_eq!(spawner.spawn_asteroids_with(&mut store, 1, &view, pick), Some(1));
    assert_eq!(
        store.get(0),
        Some(Entity {
            id: 1,
            role: Role::Obstacle,
            x: -7 * UNIT,
            y: 400 * UNIT,
            vx: 0,
            vy: -30,
            radius: 24_000_000
        })
    );
    assert_eq!((MARGIN, OBSTACLE_SPEED, OBSTACLE_RADIUS), (100 * UNIT, -30, 24 * UNIT as u32));
    assert_eq!(spawner.delay(), 500_000);
    assert_eq!(spawner.timer().elapsed(), 0);
    assert!(!spawner.timer().finished());
}

#[test]
fn next_obstacle_comes_after_the_drawn_delay() {
    let view = screen(400, 300);
    let mut store = Store::new();
    let mut spawner = Spawner::new();
    let first = Draw { x: 0, delay_ms: 2_999 };
    let second = Draw { x: 400 * UNIT, delay_ms: 500 };
    assert_eq!(spawner.spawn_asteroids_with(&mut store, FIRST_DELAY, &view, first), Some(1));
    assert_eq!(spawner.delay(), 2_999_000);
    assert_eq!(spawner.spawn_asteroids_with(&mut store, 2_998_999, &view, second), None);
    assert_eq!(spawner.spawn_asteroids_with(&mut store, 1, &view, second), Some(2));
    assert_eq!(spawner.delay(), 500_000);
    assert_eq!(store.get(1).unwrap().x, 400 * UNIT);
    assert_eq!(store.len(), 2);
}

#[test]
fn obstacle_height_saturates_with_the_largest_viewport() {
    let view = Viewport { width: 0, height: u64::MAX };
    let mut store = Store::new();
    let mut spawner = Spawner::new();
    let pick = Draw { x: 0, delay_ms: 500 };
    assert_eq!(spawner.spawn_asteroids_with(&mut store, FIRST_DELAY, &view, pick), Some(1));
    assert_eq!(store.get(0).unwrap().y, i64::MAX);
}

#[test]
fn draws_stay_in_range_over_ten_thousand_spawns() {
    let view = screen(400, 300);
    let w = 400 * UNIT;
    let mut store = Store::new();
    let mut spawner = Spawner::new();
    let mut places = Vec::new();
    let mut delays = Vec::new();
    for cycle in 0..10_000u64 {
        // Long enough for any delay: an obstacle is due in every frame.
        let born = spawner.spawn_asteroids(&mut store, 3_000_000, &view);
        assert_eq!(born, Some(cycle + 1));
        let e = store.get(cycle as usize).unwrap();
        assert!(-w <= e.x && e.x <= w);
        assert_eq!(e.y, 400 * UNIT);
        assert_eq!((e.role, e.vx, e.vy, e.radius), (Role::Obstacle, 0, -30, OBSTACLE_RADIUS));
        let delay = spawner.delay();
        assert!(DELAY_MIN_MS * 1_000 <= delay && delay < DELAY_END_MS * 1_000);
        assert_eq!(delay % 1_000, 0);
        places.push(e.x);
        delays.push(delay);
    }
    assert_eq!(store.len(), 10_000);
    // The generator is really asked: the draws are not all the same.
    assert!(places.iter().any(|x| *x != places[0]));
    assert!(delays.iter().any(|d| *d != delays[0]));
    assert!(places.iter().any(|x| *x < 0) && places.iter().any(|x| *x > 0));
}

#[test]
fn draw_fits_the_viewport() {
    for half in [0u64, 1, 400] {
        let view = screen(half, 300);
        let w = (half * UNIT as u64) as i64;
        for _ in 0..1_000 {
            let d = draw(&view);
            assert!(-w <= d.x && d.x <= w);
            assert!(DELAY_MIN_MS <= d.delay_ms && d.delay_ms < DELAY_END_MS);
        }
    }
    let widest = Viewport { width: u64::MAX, height: 0 };
    let d = draw(&widest);
    assert!(d.x >= -i64::MAX);
}

#[test]
fn no_draw_without_an_obstacle() {
    let view = screen(400, 300);
    let mut store = Store::new();
    let mut spawner = Spawner::new();
    assert_eq!(spawner.spawn_asteroids(&mut store, 999_999, &view), None);
    assert_eq!(store.len(), 0);
    assert_eq!(spawner.delay(), FIRST_DELAY);
    assert_eq!(spawner.spawn_asteroids(&mut store, 1, &view), Some(1));
    assert_eq!(store.len(), 1);
}
