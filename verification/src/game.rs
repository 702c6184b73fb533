//! The frame step: input, movement, confinement, weapon, spawner, reaper and
//! collisions, in that order.
use vstd::prelude::*;
use crate::collision::{hits, Hit};
use crate::entity::Viewport;
use crate::input::Input;
use crate::spawner::{due, rearmed, with_obstacle, Draw, Spawner, FIRST_DELAY};
use crate::store::{Store, StoreView};
use crate::timer::{TimerMode, TimerState};
use crate::weapon::{after_frame, triggers, with_bullet, Weapon, COOLDOWN};

verus! {

/// The mathematical state of a [`Game`].
pub struct GameState {
    /// Every live entity.
    pub store: StoreView,
    /// The weapon's cooldown.
    pub weapon: TimerState,
    /// The spawner's timer.
    pub spawner: TimerState,
}

/// What one frame created and destroyed.
pub struct Report {
    /// The bullet fired in this frame, if any.
    pub fired: Option<u64>,
    /// The obstacle that appeared in this frame, if any.
    pub spawned: Option<u64>,
    /// The bullets and obstacles that left the simulated area in this
    /// frame.
    pub reaped: Vec<u64>,
    /// The bullets and obstacles that destroyed each other in this frame.
    pub hits: Vec<Hit>,
}

impl GameState {
    /// The game at its start: a ship at rest in the centre, the weapon
    /// cooling, the first obstacle `FIRST_DELAY` away.
    pub open spec fn initial() -> GameState {
        GameState {
            store: StoreView::initial(),
            weapon: TimerState::fresh(COOLDOWN as nat, TimerMode::Once),
            spawner: TimerState::fresh(FIRST_DELAY as nat, TimerMode::Once),
        }
    }

    /// The store once the keys have steered the ship, everything has moved,
    /// and the ship has been confined.
    pub open spec fn piloted(self, input: Input, dt: nat, view: Viewport) -> StoreView {
        self.store.steered(input).moved(dt).confined(view)
    }

    /// The store once the weapon has had its turn as well.
    pub open spec fn armed(self, input: Input, dt: nat, view: Viewport) -> StoreView {
        if triggers(self.weapon, dt, input.fire) {
            with_bullet(self.piloted(input, dt, view))
        } else {
            self.piloted(input, dt, view)
        }
    }

    /// The store once the spawner has had its turn as well.
    pub open spec fn populated(self, input: Input, dt: nat, view: Viewport, draw: Draw)
        -> StoreView {
        if due(self.spawner, dt) {
            with_obstacle(self.armed(input, dt, view), view, draw)
        } else {
            self.armed(input, dt, view)
        }
    }

    /// The store once what has left the simulated area is removed, just
    /// before collisions are resolved.
    pub open spec fn pruned(self, input: Input, dt: nat, view: Viewport, draw: Draw) -> StoreView {
        self.populated(input, dt, view, draw).reaped(view)
    }

    /// The game after one frame of `dt` microseconds with the given keys,
    /// viewport and random choices.
    pub open spec fn step(self, input: Input, dt: nat, view: Viewport, draw: Draw) -> GameState {
        GameState {
            store: self.pruned(input, dt, view, draw).collided(),
            weapon: after_frame(self.weapon, dt, input.fire),
            spawner: rearmed(self.spawner, dt, draw),
        }
    }

    /// Whether `r` reports what that frame created and destroyed.
    pub open spec fn reports(self, input: Input, dt: nat, view: Viewport, draw: Draw, r: Report)
        -> bool {
        &&& r.fired == if triggers(self.weapon, dt, input.fire) {
            Some(self.store.next_id as u64)
        } else {
            None
        }
        &&& r.spawned == if due(self.spawner, dt) {
            Some(self.armed(input, dt, view).next_id as u64)
        } else {
            None
        }
        &&& r.reaped@ == self.populated(input, dt, view, draw).stray_ids(view)
        &&& r.hits@ == hits(self.pruned(input, dt, view, draw).others)
    }

    /// A frame leaves the store well formed: there is still exactly one
    /// ship, and no two entities share an identifier.
    pub proof fn lemma_step_wf(self, input: Input, dt: nat, view: Viewport, draw: Draw)
        requires
            self.store.wf(),
            self.store.next_id + 2 <= u64::MAX,
        ensures
            self.step(input, dt, view, draw).store.wf(),
    {
        let s0 = self.store;
        s0.lemma_motion_wf(input, dt, view);
        let s1 = s0.steered(input);
        s1.lemma_motion_wf(input, dt, view);
        let s2 = s1.moved(dt);
        s2.lemma_motion_wf(input, dt, view);
        let s3 = self.piloted(input, dt, view);
        let s4 = self.armed(input, dt, view);
        if triggers(self.weapon, dt, input.fire) {
            let b = with_bullet(s3).others.last();
            s3.lemma_spawned_wf(b.role, b.x, b.y, b.vx, b.vy, b.radius);
        }
        let s5 = self.populated(input, dt, view, draw);
        if due(self.spawner, dt) {
            let o = with_obstacle(s4, view, draw).others.last();
            s4.lemma_spawned_wf(o.role, o.x, o.y, o.vx, o.vy, o.radius);
        }
        s5.lemma_swept_wf(s5.strays(view));
        let s6 = self.pruned(input, dt, view, draw);
        s6.lemma_swept_wf(crate::collision::marks(s6.others));
    }
}

/// The whole simulation: the entities, the weapon and the spawner.
pub struct Game {
    pub store: Store,
    pub weapon: Weapon,
    pub spawner: Spawner,
}

impl View for Game {
    type V = GameState;

    open spec fn view(&self) -> GameState {
        GameState { store: self.store@, weapon: self.weapon@, spawner: self.spawner@ }
    }
}

impl Game {
    /// The game at its start.
    pub fn setup() -> (g: Game)
        ensures
            g@ == GameState::initial(),
    {
        Game { store: Store::new(), weapon: Weapon::new(), spawner: Spawner::new() }
    }

    /// Tells whether the store has identifiers left for a frame, which may
    /// create a bullet and an obstacle.
    pub fn can_step(&self) -> (b: bool)
        ensures
            b == (self@.store.next_id + 2 <= u64::MAX),
    {
        self.store.next_id() <= u64::MAX - 2
    }

    /// Runs one frame of `dt` microseconds with the given random choices.
    pub fn step_with(&mut self, input: &Input, dt: u64, view: &Viewport, draw: Draw) -> (r: Report)
        requires
            draw.fits(*view),
            old(self)@.store.next_id + 2 <= u64::MAX,
        ensures
            final(self)@ == old(self)@.step(*input, dt as nat, *view, draw),
            old(self)@.reports(*input, dt as nat, *view, draw, r),
    {
        let fired = self.pilot_and_fire(input, dt, view);
        let spawned = self.spawner.spawn_asteroids_with(&mut self.store, dt, view, draw);
        let (reaped, hits) = self.reap_and_collide(view);
        Report { fired, spawned, reaped, hits }
    }

    /// Runs one frame of `dt` microseconds. If an obstacle is due, its place
    /// and the delay to the next one are drawn at random; whatever is drawn
    /// fits the viewport, and the frame is that of [`Game::step_with`] for
    /// it.
    pub fn step(&mut self, input: &Input, dt: u64, view: &Viewport) -> (r: Report)
        requires
            old(self)@.store.next_id + 2 <= u64::MAX,
        ensures
            exists|d: Draw|
                {
                    &&& #[trigger] d.fits(*view)
                    &&& final(self)@ == old(self)@.step(*input, dt as nat, *view, d)
                    &&& old(self)@.reports(*input, dt as nat, *view, d, r)
                },
    {
        let fired = self.pilot_and_fire(input, dt, view);
        let ghost armed = self.store@;
        let ghost waiting = self.spawner@;
        let spawned = self.spawner.spawn_asteroids(&mut self.store, dt, view);
        let ghost d = choose|d: Draw|
            {
                &&& #[trigger] d.fits(*view)
                &&& self.spawner@ == rearmed(waiting, dt as nat, d)
                &&& self.store@ == if due(waiting, dt as nat) {
                    with_obstacle(armed, *view, d)
                } else {
                    armed
                }
            };
        let (reaped, hits) = self.reap_and_collide(view);
        let r = Report { fired, spawned, reaped, hits };
        proof {
            assert(d.fits(*view));
            assert(old(self)@.reports(*input, dt as nat, *view, d, r));
        }
        r
    }

    fn pilot_and_fire(&mut self, input: &Input, dt: u64, view: &Viewport) -> (fired: Option<u64>)
        requires
            old(self)@.store.next_id + 2 <= u64::MAX,
        ensures
            final(self)@.store == old(self)@.armed(*input, dt as nat, *view),
            final(self)@.weapon == after_frame(old(self)@.weapon, dt as nat, input.fire),
            final(self)@.spawner == old(self)@.spawner,
            final(self)@.store.next_id + 1 <= u64::MAX,
            fired == if triggers(old(self)@.weapon, dt as nat, input.fire) {
                Some(old(self)@.store.next_id as u64)
            } else {
                None
            },
    {
        self.store.ship_movement_input(input);
        self.store.sprite_movement(dt);
        self.store.confine_player_to_screen(view);
        self.weapon.bullet_firing(&mut self.store, dt, input.fire)
    }

    fn reap_and_collide(&mut self, view: &Viewport) -> (r: (Vec<u64>, Vec<Hit>))
        ensures
            final(self)@.store == old(self)@.store.reaped(*view).collided(),
            final(self)@.weapon == old(self)@.weapon,
            final(self)@.spawner == old(self)@.spawner,
            r.0@ == old(self)@.store.stray_ids(*view),
            r.1@ == hits(old(self)@.store.reaped(*view).others),
    {
        let left = self.store.despawn_entities_outside_of_screen(view);
        let found = self.store.asteroid_bullet_collision();
        (left, found)
    }
}

} // verus!
