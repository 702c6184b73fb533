//! The obstacle spawner: on a timer with a random delay, one obstacle at a
//! random place above the viewport.
use vstd::prelude::*;
use crate::entity::{clamp_i64, Role, Viewport, MARGIN, OBSTACLE_RADIUS, OBSTACLE_SPEED};
use crate::store::{Store, StoreView};
use crate::timer::{Timer, TimerMode, TimerState};

verus! {

/// Delay before the first obstacle, in microseconds.
pub const FIRST_DELAY: u64 = 1_000_000;

/// Shortest delay between two obstacles, in milliseconds.
pub const DELAY_MIN_MS: u64 = 500;

/// Bound that the delay between two obstacles stays under, in milliseconds.
pub const DELAY_END_MS: u64 = 3000;

/// The random choices that one spawn takes.
#[derive(Clone, Copy, Debug, PartialEq, Eq, Structural)]
pub struct Draw {
    /// Horizontal position of the obstacle, in micro-units.
    pub x: i64,
    /// Delay until the next obstacle, in milliseconds.
    pub delay_ms: u64,
}

impl Draw {
    /// Whether the choices are among those that a spawn may take: a place
    /// between the left and right edges of the viewport, and a delay from
    /// `DELAY_MIN_MS` up to, but not including, `DELAY_END_MS`.
    pub open spec fn fits(self, view: Viewport) -> bool {
        &&& -view.half_width() <= self.x <= view.half_width()
        &&& DELAY_MIN_MS <= self.delay_ms < DELAY_END_MS
    }
}

/// Whether an obstacle is due in a frame of `dt` microseconds that the
/// spawner enters with timer `t`.
pub open spec fn due(t: TimerState, dt: nat) -> bool {
    t.tick(dt).finished
}

/// The spawner's timer after a frame: if an obstacle was due, set to the
/// drawn delay and started over.
pub open spec fn rearmed(t: TimerState, dt: nat, draw: Draw) -> TimerState {
    if due(t, dt) {
        t.tick(dt).with_duration(draw.delay_ms as nat * 1000).reset()
    } else {
        t.tick(dt)
    }
}

/// The store with a new obstacle at the drawn place, one margin above the
/// top edge, falling.
pub open spec fn with_obstacle(s: StoreView, view: Viewport, draw: Draw) -> StoreView {
    s.spawned(
        Role::Obstacle,
        draw.x,
        clamp_i64(view.half_height() + MARGIN) as i64,
        0,
        OBSTACLE_SPEED,
        OBSTACLE_RADIUS,
    )
}

/// Whatever is drawn within range, the obstacle appears between the left and
/// right edges of the viewport, and the next one is due after a delay from
/// `DELAY_MIN_MS` up to, but not including, `DELAY_END_MS`.
pub proof fn lemma_spawn_in_range(s: StoreView, t: TimerState, dt: nat, view: Viewport, draw: Draw)
    requires
        draw.fits(view),
        due(t, dt),
    ensures
        -view.half_width() <= with_obstacle(s, view, draw).others.last().x <= view.half_width(),
        with_obstacle(s, view, draw).others.last().role == Role::Obstacle,
        DELAY_MIN_MS * 1000 <= rearmed(t, dt, draw).duration < DELAY_END_MS * 1000,
        rearmed(t, dt, draw).elapsed == 0,
        !rearmed(t, dt, draw).finished,
{
}

/// Draws an integer from `lo..=hi` with `rand::Rng::gen_range` on the
/// generator that `rand::thread_rng` hands out.
///
/// Trusted: nothing is claimed of the result but that it lies in the range,
/// which holds of every draw. The range must not be empty, since `gen_range`
/// panics on an empty one.
#[verifier::external_body]
fn uniform(lo: i64, hi: i64) -> (r: i64)
    requires
        lo <= hi,
    ensures
        lo <= r <= hi,
{
    rand::Rng::gen_range(&mut rand::thread_rng(), lo..=hi)
}

/// Makes the random choices for one spawn in the given viewport.
pub fn draw(view: &Viewport) -> (d: Draw)
    ensures
        d.fits(*view),
{
    let half = view.half_width();
    let x = uniform(-half, half);
    let delay = uniform(DELAY_MIN_MS as i64, DELAY_END_MS as i64 - 1);
    Draw { x, delay_ms: delay as u64 }
}

/// The obstacle spawner.
pub struct Spawner {
    timer: Timer,
}

impl View for Spawner {
    type V = TimerState;

    closed spec fn view(&self) -> TimerState {
        self.timer@
    }
}

impl Spawner {
    #[verifier::type_invariant]
    closed spec fn inv(&self) -> bool {
        self.timer@.mode == TimerMode::Once
    }

    /// A spawner whose first obstacle comes after `FIRST_DELAY`.
    pub fn new() -> (s: Spawner)
        ensures
            s@ == TimerState::fresh(FIRST_DELAY as nat, TimerMode::Once),
    {
        Spawner { timer: Timer::new(FIRST_DELAY, TimerMode::Once) }
    }

    /// The timer that counts towards the next obstacle. It is a one-shot
    /// timer, started over with each obstacle.
    pub fn timer(&self) -> (t: &Timer)
        ensures
            t@ == self@,
            self@.mode == TimerMode::Once,
    {
        proof {
            use_type_invariant(self);
        }
        &self.timer
    }

    /// Microseconds that the spawner waits between the last obstacle and
    /// the next.
    pub fn delay(&self) -> (d: u64)
        ensures
            d == self@.duration,
    {
        self.timer.duration()
    }

    /// Runs the timer for `dt` microseconds and, if an obstacle is due, adds
    /// it with the given choices and waits anew for the drawn delay. Returns
    /// the obstacle's identifier.
    pub fn spawn_asteroids_with(
        &mut self,
        store: &mut Store,
        dt: u64,
        view: &Viewport,
        draw: Draw,
    ) -> (born: Option<u64>)
        requires
            draw.fits(*view),
            old(store)@.next_id < u64::MAX,
        ensures
            final(self)@ == rearmed(old(self)@, dt as nat, draw),
            final(store)@ == if due(old(self)@, dt as nat) {
                with_obstacle(old(store)@, *view, draw)
            } else {
                old(store)@
            },
            born == if due(old(self)@, dt as nat) {
                Some(old(store)@.next_id as u64)
            } else {
                None
            },
            old(self)@.mode == TimerMode::Once,
            final(self)@.mode == TimerMode::Once,
    {
        proof {
            use_type_invariant(&*self);
        }
        let mut timer = self.timer;
        timer.tick(dt);
        let born = if timer.finished() {
            Some(launch(&mut timer, store, view, draw))
        } else {
            None
        };
        self.timer = timer;
        born
    }

    /// Runs the timer for `dt` microseconds and, if an obstacle is due, adds
    /// it at a random place between the left and right edges and waits anew
    /// for a random delay. Returns the obstacle's identifier.
    ///
    /// The choices are made only when an obstacle is due; whatever they are,
    /// they fit the viewport, and the outcome is that of
    /// [`Spawner::spawn_asteroids_with`] for them.
    pub fn spawn_asteroids(&mut self, store: &mut Store, dt: u64, view: &Viewport) -> (born:
        Option<u64>)
        requires
            old(store)@.next_id < u64::MAX,
        ensures
            exists|d: Draw|
                {
                    &&& #[trigger] d.fits(*view)
                    &&& final(self)@ == rearmed(old(self)@, dt as nat, d)
                    &&& final(store)@ == if due(old(self)@, dt as nat) {
                        with_obstacle(old(store)@, *view, d)
                    } else {
                        old(store)@
                    }
                },
            born == if due(old(self)@, dt as nat) {
                Some(old(store)@.next_id as u64)
            } else {
                None
            },
            old(self)@.mode == TimerMode::Once,
            final(self)@.mode == TimerMode::Once,
    {
        proof {
            use_type_invariant(&*self);
        }
        let mut timer = self.timer;
        timer.tick(dt);
        let born = if timer.finished() {
            let d = draw(view);
            let id = launch(&mut timer, store, view, d);
            assert(d.fits(*view));
            Some(id)
        } else {
            proof {
                let d = Draw { x: 0, delay_ms: DELAY_MIN_MS };
                assert(d.fits(*view));
            }
            None
        };
        self.timer = timer;
        born
    }
}

/// Adds the obstacle and sets the timer to wait for the drawn delay.
fn launch(timer: &mut Timer, store: &mut Store, view: &Viewport, draw: Draw) -> (id: u64)
    requires
        draw.fits(*view),
        old(store)@.next_id < u64::MAX,
    ensures
        final(timer)@ == old(timer)@.with_duration(draw.delay_ms as nat * 1000).reset(),
        final(store)@ == with_obstacle(old(store)@, *view, draw),
        id == old(store)@.next_id,
{
    let top = view.half_height();
    let y: i64 = if top > i64::MAX - MARGIN {
        i64::MAX
    } else {
        top + MARGIN
    };
    let id = store.spawn(Role::Obstacle, draw.x, y, 0, OBSTACLE_SPEED, OBSTACLE_RADIUS);
    timer.set_duration(draw.delay_ms * 1000);
    timer.reset();
    id
}

} // verus!
