//! The ship's weapon: one bullet each time the cooldown has run out while the
//! fire key is held.
use vstd::prelude::*;
use crate::entity::{clamp_i64, Role, BULLET_RADIUS, BULLET_SPEED, MUZZLE_OFFSET};
use crate::store::{Store, StoreView};
use crate::timer::{Timer, TimerMode, TimerState};

verus! {

/// Time between two shots, in microseconds.
pub const COOLDOWN: u64 = 200_000;

/// Whether the weapon fires in a frame of `dt` microseconds that it enters
/// with cooldown `t`: the fire key is held and the cooldown has run out by
/// the end of the frame. Holding the key is enough; it need not be pressed
/// anew for each shot.
pub open spec fn triggers(t: TimerState, dt: nat, fire: bool) -> bool {
    fire && t.tick(dt).finished
}

/// The cooldown after a frame: started over if the weapon fired.
pub open spec fn after_frame(t: TimerState, dt: nat, fire: bool) -> TimerState {
    if triggers(t, dt, fire) {
        t.tick(dt).reset()
    } else {
        t.tick(dt)
    }
}

/// The store with a new bullet ahead of the ship, flying up.
pub open spec fn with_bullet(s: StoreView) -> StoreView {
    s.spawned(
        Role::Bullet,
        s.player.x,
        clamp_i64(s.player.y + MUZZLE_OFFSET) as i64,
        0,
        BULLET_SPEED,
        BULLET_RADIUS,
    )
}

/// The number of shots in `n` frames of `dt` microseconds each, entered with
/// cooldown `t`, with the fire key held throughout.
pub open spec fn shots(t: TimerState, dt: nat, n: nat) -> nat
    decreases n,
{
    if n == 0 {
        0
    } else {
        let now: nat = if triggers(t, dt, true) {
            1
        } else {
            0
        };
        now + shots(after_frame(t, dt, true), dt, (n - 1) as nat)
    }
}

/// The number of frames of `dt` microseconds that a cooldown of `c`
/// microseconds takes: `c / dt`, rounded up.
pub open spec fn frames_per_shot(c: nat, dt: nat) -> nat {
    if dt == 0 {
        0
    } else {
        ((c + dt - 1) / (dt as int)) as nat
    }
}

/// A one-shot cooldown of `c` microseconds, `j` frames of `dt` into a cycle.
pub open spec fn cooling(c: nat, dt: nat, j: nat) -> TimerState {
    TimerState { elapsed: j * dt, duration: c, mode: TimerMode::Once, finished: false }
}

/// The cooldown takes `frames_per_shot` frames and no fewer.
pub proof fn lemma_frames_per_shot(c: nat, dt: nat)
    requires
        c > 0,
        dt > 0,
    ensures
        frames_per_shot(c, dt) >= 1,
        (frames_per_shot(c, dt) - 1) * dt < c <= frames_per_shot(c, dt) * dt,
{
    let x = (c + dt - 1) as int;
    let d = dt as int;
    assert(x == d * (x / d) + x % d && 0 <= x % d < d) by (nonlinear_arith)
        requires
            d > 0,
    ;
    assert(x / d >= 1) by (nonlinear_arith)
        requires
            x >= d,
            d > 0,
    ;
    assert((x / d - 1) * d == d * (x / d) - d) by (nonlinear_arith);
    assert((x / d) * d == d * (x / d)) by (nonlinear_arith);
}

/// With the fire key held, the weapon fires once every `frames_per_shot`
/// frames, counted from the start of the cooldown.
pub proof fn lemma_shots_in_cycle(c: nat, dt: nat, j: nat, n: nat)
    requires
        c > 0,
        dt > 0,
        j < frames_per_shot(c, dt),
    ensures
        shots(cooling(c, dt, j), dt, n) == (n + j) / frames_per_shot(c, dt),
    decreases n,
{
    let k = frames_per_shot(c, dt) as int;
    let t = cooling(c, dt, j);
    lemma_frames_per_shot(c, dt);
    if n == 0 {
        assert(j as int / k == 0) by (nonlinear_arith)
            requires
                0 <= j < k,
        ;
    } else {
        assert((j + 1) * dt == j * dt + dt) by (nonlinear_arith);
        if j + 1 < k {
            assert((j + 1) * dt <= (k - 1) * dt) by (nonlinear_arith)
                requires
                    j + 1 <= k - 1,
                    dt > 0,
            ;
            assert(after_frame(t, dt, true) == cooling(c, dt, j + 1));
            lemma_shots_in_cycle(c, dt, j + 1, (n - 1) as nat);
        } else {
            assert(after_frame(t, dt, true) == cooling(c, dt, 0));
            lemma_shots_in_cycle(c, dt, 0, (n - 1) as nat);
            assert((n - 1 + k) / k == (n - 1) / k + 1) by (nonlinear_arith)
                requires
                    k > 0,
                    n >= 1,
            ;
        }
    }
}

/// A weapon that starts cooling and is fired continuously for `n` frames of
/// `dt` microseconds shoots once every `frames_per_shot` frames: `n` divided
/// by that number, rounded down. The first bullet leaves when the first
/// cooldown has run out, not at the start.
pub proof fn lemma_shots_held(c: nat, dt: nat, n: nat)
    requires
        c > 0,
        dt > 0,
    ensures
        shots(TimerState::fresh(c, TimerMode::Once), dt, n) == n / frames_per_shot(c, dt),
        n < frames_per_shot(c, dt) ==> shots(TimerState::fresh(c, TimerMode::Once), dt, n) == 0,
        n == frames_per_shot(c, dt) ==> shots(TimerState::fresh(c, TimerMode::Once), dt, n) == 1,
{
    let k = frames_per_shot(c, dt) as int;
    lemma_frames_per_shot(c, dt);
    assert(0 * dt == 0) by (nonlinear_arith);
    assert(cooling(c, dt, 0) == TimerState::fresh(c, TimerMode::Once));
    lemma_shots_in_cycle(c, dt, 0, n);
    if n < k {
        assert(n as int / k == 0) by (nonlinear_arith)
            requires
                0 <= n < k,
        ;
    }
    if n == k {
        assert(k / k == 1) by (nonlinear_arith)
            requires
                k > 0,
        ;
    }
}

/// The time by which `frames_per_shot` frames exceed the cooldown. The
/// timer stops on its target, so this much is lost with every shot.
pub open spec fn overshoot(c: nat, dt: nat) -> int {
    frames_per_shot(c, dt) * dt - c
}

/// With fire held for `n` frames, a time of `n * dt`, the number of shots is
/// that time divided by the cooldown, rounded down, exactly as long as the
/// time lost after each shot, together with the time since the last one, has
/// not added up to a whole cooldown.
pub proof fn lemma_shots_and_time(c: nat, dt: nat, n: nat)
    requires
        c > 0,
        dt > 0,
    ensures
        shots(TimerState::fresh(c, TimerMode::Once), dt, n) == (n * dt) / c <==> (n
            / frames_per_shot(c, dt)) * overshoot(c, dt) + (n % frames_per_shot(c, dt)) * dt < c,
{
    lemma_shots_held(c, dt, n);
    lemma_frames_per_shot(c, dt);
    let k = frames_per_shot(c, dt) as int;
    let d = dt as int;
    let ci = c as int;
    let e = overshoot(c, dt);
    let q = n as int / k;
    let r = n as int % k;
    let rest = q * e + r * d;
    assert(n == k * q + r && 0 <= r < k && q >= 0) by (nonlinear_arith)
        requires
            q == n as int / k,
            r == n as int % k,
            k > 0,
            n >= 0,
    ;
    assert(n * d == ci * q + rest && rest >= 0) by (nonlinear_arith)
        requires
            n == k * q + r,
            0 <= r,
            q >= 0,
            e == k * d - ci,
            e >= 0,
            rest == q * e + r * d,
            d > 0,
    ;
    if rest < ci {
        vstd::arithmetic::div_mod::lemma_fundamental_div_mod_converse(n * d, ci, q, rest);
    } else {
        assert(ci * (q + 1) == ci * q + ci) by (nonlinear_arith);
        assert((n * d) / ci >= q + 1) by (nonlinear_arith)
            requires
                n * d >= ci * (q + 1),
                ci > 0,
        ;
    }
}

/// Where the frame time divides the cooldown, nothing is lost: fire held
/// for `n` frames, a time of `n * dt`, gives that time divided by the
/// cooldown, rounded down.
pub proof fn lemma_shots_per_cooldown(c: nat, dt: nat, n: nat)
    requires
        c > 0,
        dt > 0,
        c % dt == 0,
    ensures
        overshoot(c, dt) == 0,
        shots(TimerState::fresh(c, TimerMode::Once), dt, n) == (n * dt) / c,
{
    lemma_shots_and_time(c, dt, n);
    lemma_frames_per_shot(c, dt);
    let k = frames_per_shot(c, dt) as int;
    let d = dt as int;
    let ci = c as int;
    assert(ci == d * (ci / d) + ci % d) by (nonlinear_arith)
        requires
            d > 0,
    ;
    assert(k == ci / d) by (nonlinear_arith)
        requires
            (k - 1) * d < ci <= k * d,
            ci == d * (ci / d),
            d > 0,
    ;
    assert(ci == k * d) by (nonlinear_arith)
        requires
            ci == d * (ci / d),
            k == ci / d,
    ;
    let q = n as int / k;
    let r = n as int % k;
    assert(0 <= r < k) by (nonlinear_arith)
        requires
            r == n as int % k,
            k > 0,
    ;
    assert(q * 0 + r * d < ci) by (nonlinear_arith)
        requires
            0 <= r < k,
            ci == k * d,
            d > 0,
    ;
}

/// With fire held, the weapon never shoots more often than once per
/// cooldown: at most the time divided by the cooldown, rounded down.
pub proof fn lemma_shots_bounded(c: nat, dt: nat, n: nat)
    requires
        c > 0,
        dt > 0,
    ensures
        shots(TimerState::fresh(c, TimerMode::Once), dt, n) <= (n * dt) / c,
{
    lemma_shots_held(c, dt, n);
    lemma_frames_per_shot(c, dt);
    let k = frames_per_shot(c, dt) as int;
    let d = dt as int;
    let ci = c as int;
    let q = n as int / k;
    assert(n >= k * q) by (nonlinear_arith)
        requires
            q == n as int / k,
            k > 0,
    ;
    assert(n * d >= q * ci && q >= 0) by (nonlinear_arith)
        requires
            n >= k * q,
            ci <= k * d,
            d > 0,
            k > 0,
            q == n as int / k,
            n >= 0,
    ;
    assert((n * d) / ci >= q) by (nonlinear_arith)
        requires
            n * d >= q * ci,
            ci > 0,
    ;
}

/// The number of shots over frames of the given lengths, entered with
/// cooldown `t`, with the fire key held throughout.
pub open spec fn shots_over(t: TimerState, frames: Seq<nat>) -> nat
    decreases frames.len(),
{
    if frames.len() == 0 {
        0
    } else {
        let now: nat = if triggers(t, frames[0], true) {
            1
        } else {
            0
        };
        now + shots_over(after_frame(t, frames[0], true), frames.drop_first())
    }
}

/// The time that the frames take together.
pub open spec fn total(frames: Seq<nat>) -> nat
    decreases frames.len(),
{
    if frames.len() == 0 {
        0
    } else {
        frames[0] + total(frames.drop_first())
    }
}

/// Every shot costs a whole cooldown, however the time is cut into frames:
/// the shots of a cooling weapon, times the cooldown, fit into the time
/// already counted and the time of the frames.
pub proof fn lemma_shots_cost_time(t: TimerState, frames: Seq<nat>)
    requires
        t.mode == TimerMode::Once,
        !t.finished,
    ensures
        t.duration * shots_over(t, frames) <= t.elapsed + total(frames),
    decreases frames.len(),
{
    let c = t.duration as int;
    if frames.len() == 0 {
        assert(c * 0 == 0) by (nonlinear_arith);
    } else {
        let next = after_frame(t, frames[0], true);
        let rest = frames.drop_first();
        lemma_shots_cost_time(next, rest);
        let later = shots_over(next, rest) as int;
        assert(c * (1 + later) == c + c * later) by (nonlinear_arith);
    }
}

/// Fire held for any frames that take a time `D` together gives at most `D`
/// divided by the cooldown, rounded down, bullets.
pub proof fn lemma_shots_over_bounded(c: nat, frames: Seq<nat>)
    requires
        c > 0,
    ensures
        shots_over(TimerState::fresh(c, TimerMode::Once), frames) <= total(frames) / c,
{
    let t = TimerState::fresh(c, TimerMode::Once);
    lemma_shots_cost_time(t, frames);
    let n = shots_over(t, frames) as int;
    let d = total(frames) as int;
    let ci = c as int;
    assert(d / ci >= n) by (nonlinear_arith)
        requires
            ci * n <= d,
            ci > 0,
    ;
}

/// A weapon that is ready stays ready while the fire key is up, however much
/// time passes, and fires in the first frame in which the key is held.
pub proof fn lemma_ready_until_fired(t: TimerState, dt: nat)
    requires
        t.mode == TimerMode::Once,
        t.finished,
    ensures
        after_frame(t, dt, false) == t,
        triggers(t, dt, true),
        !after_frame(t, dt, true).finished,
{
}

/// The ship's weapon.
pub struct Weapon {
    cooldown: Timer,
}

impl View for Weapon {
    type V = TimerState;

    closed spec fn view(&self) -> TimerState {
        self.cooldown@
    }
}

impl Weapon {
    #[verifier::type_invariant]
    closed spec fn inv(&self) -> bool {
        self.cooldown@.mode == TimerMode::Once
    }

    /// A weapon at the start of its cooldown: the first shot has to wait.
    pub fn new() -> (w: Weapon)
        ensures
            w@ == TimerState::fresh(COOLDOWN as nat, TimerMode::Once),
    {
        Weapon { cooldown: Timer::new(COOLDOWN, TimerMode::Once) }
    }

    /// The cooldown timer. It is a one-shot timer: once it has run out, the
    /// weapon stays ready until it fires.
    pub fn cooldown(&self) -> (t: &Timer)
        ensures
            t@ == self@,
            self@.mode == TimerMode::Once,
    {
        proof {
            use_type_invariant(self);
        }
        &self.cooldown
    }

    /// Whether the cooldown has run out.
    pub fn ready(&self) -> (b: bool)
        ensures
            b == self@.finished,
            self@.mode == TimerMode::Once,
    {
        proof {
            use_type_invariant(self);
        }
        self.cooldown.finished()
    }

    /// Runs the cooldown for `dt` microseconds and, if it has run out and
    /// the fire key is held, puts a bullet ahead of the ship and starts the
    /// cooldown over. Returns the bullet's identifier.
    pub fn bullet_firing(&mut self, store: &mut Store, dt: u64, fire: bool) -> (shot: Option<u64>)
        requires
            old(store)@.next_id < u64::MAX,
        ensures
            final(self)@ == after_frame(old(self)@, dt as nat, fire),
            final(store)@ == if triggers(old(self)@, dt as nat, fire) {
                with_bullet(old(store)@)
            } else {
                old(store)@
            },
            shot == if triggers(old(self)@, dt as nat, fire) {
                Some(old(store)@.next_id as u64)
            } else {
                None
            },
            old(self)@.mode == TimerMode::Once,
            final(self)@.mode == TimerMode::Once,
    {
        proof {
            use_type_invariant(&*self);
        }
        let mut cooldown = self.cooldown;
        cooldown.tick(dt);
        let shot = if fire && cooldown.finished() {
            let ship = store.player();
            let y: i64 = if ship.y > i64::MAX - MUZZLE_OFFSET {
                i64::MAX
            } else {
                ship.y + MUZZLE_OFFSET
            };
            cooldown.reset();
            Some(store.spawn(Role::Bullet, ship.x, y, 0, BULLET_SPEED, BULLET_RADIUS))
        } else {
            None
        };
        self.cooldown = cooldown;
        shot
    }
}

} // verus!
