use arcade_sim::collision::Hit;
use arcade_sim::entity::{Role, Viewport, OBSTACLE_RADIUS, OBSTACLE_SPEED, UNIT};
use arcade_sim::game::Game;
use arcade_sim::input::{Input, KeyPair};
use arcade_sim::spawner::Draw;

const HELD: KeyPair = KeyPair { primary: false, alternate: true };

fn screen() -> Viewport {
    Viewport { width: 800 * UNIT as u64, height: 600 * UNIT as u64 }
}

#[test]
fn game_starts_with_a_ship_and_nothing_else() {
    let game = Game::setup();
    assert_eq!(game.store.len(), 0);
    assert_eq!(game.store.player().role, Role::Player);
    assert_eq!((game.store.player().x, game.store.player().y), (0, 0));
    assert!(!game.weapon.ready());
    assert_eq!(game.spawner.delay(), 1_000_000);
    assert!(game.can_step());
}

#[test]
fn quiet_frame_changes_nothing_but_the_timers() {
    let mut game = Game::setup();
    let ship = game.store.player();
    let r = game.step_with(&Input::idle(), 16_667, &screen(), Draw { x: 0, delay_ms: 500 });
    assert_eq!(r.fired, None);
    assert_eq!(r.spawned, None);
    assert_eq!(r.reaped, Vec::<u64>::new());
    assert_eq!(r.hits, Vec::<Hit>::new());
    assert_eq!(game.store.player(), ship);
    assert_eq!(game.store.len(), 0);
}

#[test]
fn frame_runs_the_systems_in_order() {
    // Steering comes before movement, movement before confinement, and the
    // bullet leaves from where the ship then is.
    let view = Viewport { width: 2 * UNIT as u64, height: 2 * UNIT as u64 };
    let mut game = Game::setup();
    let input = Input { right: HELD, up: HELD, fire: true, ..Input::idle() };
    let r = game.step_with(&input, 200_000, &view, Draw { x: 0, delay_ms: 500 });
    let ship = game.store.player();
    assert_eq!((ship.x, ship.y, ship.vx, ship.vy), (200_000, 200_000, 1, 1));
    assert_eq!(r.fired, Some(1));
    let b = game.store.get(0).unwrap();
    assert_eq!((b.id, b.role, b.x, b.y), (1, Role::Bullet, 200_000, 200_000 + 30 * UNIT));

    let r = game.step_with(&input, 800_000, &view, Draw { x: UNIT, delay_ms: 700 });
    let ship = game.store.player();
    // 200 000 + 2 * 800 000 is past the edge at 1 000 000: stopped there.
    assert_eq!((ship.x, ship.y, ship.vx, ship.vy), (UNIT, UNIT, 0, 0));
    assert_eq!(r.fired, Some(2));
    assert_eq!(r.spawned, Some(3));
    assert_eq!(r.reaped, vec![1]);
    // The first bullet has flown 160 units and is off screen by now; the new
    // bullet and the new obstacle are where they were created.
    assert_eq!(game.store.len(), 2);
    let b = game.store.get(0).unwrap();
    assert_eq!((b.id, b.x, b.y), (2, UNIT, UNIT + 30 * UNIT));
    let o = game.store.get(1).unwrap();
    assert_eq!((o.id, o.role, o.x, o.y), (3, Role::Obstacle, UNIT, UNIT + 100 * UNIT));
    assert_eq!(game.spawner.delay(), 700_000);
}

#[test]
fn new_bullet_can_hit_in_the_frame_it_is_fired() {
    let mut game = Game::setup();
    let o = game.store.spawn(Role::Obstacle, 0, 40 * UNIT, 0, OBSTACLE_SPEED, OBSTACLE_RADIUS);
    let input = Input { fire: true, ..Input::idle() };
    let r = game.step_with(&input, 200_000, &screen(), Draw { x: 0, delay_ms: 500 });
    assert_eq!(r.fired, Some(2));
    assert_eq!(r.hits, vec![Hit { bullet: 2, obstacle: o }]);
    assert_eq!(game.store.len(), 0);
}

#[test]
fn obstacle_above_the_ship_is_shot_down() {
    let view = screen();
    let mut game = Game::setup();
    let target = game.store.spawn(Role::Obstacle, 0, 300 * UNIT, 0, OBSTACLE_SPEED, OBSTACLE_RADIUS);
    assert_eq!(target, 1);
    let input = Input { fire: true, ..Input::idle() };
    // Other obstacles appear far to the right, out of the bullets' way.
    let aside = Draw { x: 300 * UNIT, delay_ms: 1_000 };
    let mut shot_down = None;
    let mut fired = Vec::new();
    for frame in 1..=600u32 {
        assert!(game.can_step());
        let r = game.step_with(&input, 16_667, &view, aside);
        if let Some(id) = r.fired {
            fired.push(id);
        }
        for hit in &r.hits {
            assert_eq!(hit.obstacle, target);
            assert!(shot_down.is_none());
            shot_down = Some((frame, hit.bullet));
        }
        if shot_down.is_some() {
            break;
        }
    }
    let (frame, bullet) = shot_down.expect("the obstacle is hit within ten seconds");
    // The first bullet leaves after twelve frames, 30 units above the ship,
    // and closes in on the obstacle at 230 units per second.
    assert_eq!(fired[0], 2);
    assert_eq!(bullet, 2);
    assert!(frame > 12 && frame < 90);
    let mut i = 0;
    while let Some(e) = game.store.get(i) {
        assert_ne!(e.id, target);
        assert_ne!(e.id, bullet);
        i += 1;
    }
    assert_eq!(game.store.player().role, Role::Player);
    assert_eq!((game.store.player().x, game.store.player().y), (0, 0));
}

#[test]
fn random_frames_keep_the_store_in_order() {
    let view = screen();
    let mut game = Game::setup();
    let input = Input { fire: true, left: HELD, ..Input::idle() };
    let mut spawned = 0;
    let mut fired = 0;
    for _ in 0..3_000 {
        assert!(game.can_step());
        let before = game.store.next_id();
        let r = game.step(&input, 16_667, &view);
        let mut next = before;
        if let Some(id) = r.fired {
            assert_eq!(id, next);
            next += 1;
            fired += 1;
        }
        if let Some(id) = r.spawned {
            assert_eq!(id, next);
            next += 1;
            spawned += 1;
        }
        assert_eq!(game.store.next_id(), next);
        let mut last = 0;
        let mut i = 0;
        while let Some(e) = game.store.get(i) {
            assert!(e.id > last && e.id < next);
            assert_ne!(e.role, Role::Player);
            assert!(e.y.abs() <= 400 * UNIT);
            if e.role == Role::Obstacle {
                assert!(e.x.abs() <= 400 * UNIT);
            }
            last = e.id;
            i += 1;
        }
        let ship = game.store.player();
        assert_eq!((ship.id, ship.role), (0, Role::Player));
        assert!(ship.x >= -400 * UNIT);
    }
    assert_eq!(fired, 3_000 / 12);
    // Fifty seconds with delays under three seconds, the first of one second.
    assert!(spawned >= 17 && spawned <= 99);
}
