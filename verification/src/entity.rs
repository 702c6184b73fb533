//! Entities, the viewport, and the rules that act on one entity at a time.
use vstd::prelude::*;

verus! {

/// Micro-units in one unit of length.
pub const UNIT: i64 = 1_000_000;

/// Collision radius of the player's ship, in micro-units.
pub const PLAYER_RADIUS: u32 = 18_000_000;

/// Collision radius of a bullet, in micro-units.
pub const BULLET_RADIUS: u32 = 2_000_000;

/// Collision radius of an obstacle, in micro-units.
pub const OBSTACLE_RADIUS: u32 = 24_000_000;

/// How far ahead of the ship a bullet appears, in micro-units.
pub const MUZZLE_OFFSET: i64 = 30_000_000;

/// Upward speed of a bullet, in units per second.
pub const BULLET_SPEED: i32 = 200;

/// Vertical speed of an obstacle, in units per second (it falls).
pub const OBSTACLE_SPEED: i32 = -30;

/// Width of the band around the viewport in which entities still live, in
/// micro-units. Obstacles appear at its outer edge, so nothing pops up on
/// screen, and nothing is removed before it has left the screen entirely.
pub const MARGIN: i64 = 100_000_000;

/// `v` brought into the range of `i64`.
pub open spec fn clamp_i64(v: int) -> int {
    if v < i64::MIN {
        i64::MIN as int
    } else if v > i64::MAX {
        i64::MAX as int
    } else {
        v
    }
}

/// `v` brought into the range of `i32`.
pub open spec fn clamp_i32(v: int) -> int {
    if v < i32::MIN {
        i32::MIN as int
    } else if v > i32::MAX {
        i32::MAX as int
    } else {
        v
    }
}

/// The absolute value of `v`.
pub open spec fn magnitude(v: int) -> int {
    if v < 0 {
        -v
    } else {
        v
    }
}

/// A coordinate after `dt` microseconds at `v` units per second, held to the
/// range of a position.
pub open spec fn drift(p: int, v: int, dt: nat) -> int {
    clamp_i64(p + v * dt)
}

/// Position and velocity along one axis after confinement to `[-half, half]`:
/// an entity beyond an edge that is moving further out is put on that edge
/// and stopped. One that is inside, at rest, or on its way back is left
/// alone.
pub open spec fn confine_axis(p: int, v: int, half: int) -> (int, int) {
    if p > half && v > 0 {
        (half, 0)
    } else if p < -half && v < 0 {
        (-half, 0)
    } else {
        (p, v)
    }
}

/// What an entity is.
#[derive(Clone, Copy, Debug, PartialEq, Eq, Structural)]
pub enum Role {
    Player,
    Bullet,
    Obstacle,
}

impl Role {
    /// The name of the picture that stands for an entity of this role.
    pub open spec fn picture(self) -> Seq<char> {
        match self {
            Role::Player => "spaceship.png"@,
            Role::Bullet => "bullet.png"@,
            Role::Obstacle => "asteroid.png"@,
        }
    }

    /// Names the picture that stands for an entity of this role.
    pub fn asset(&self) -> (name: &'static str)
        ensures
            name@ == self.picture(),
    {
        match self {
            Role::Player => "spaceship.png",
            Role::Bullet => "bullet.png",
            Role::Obstacle => "asteroid.png",
        }
    }
}

/// The visible area, centred on the origin; sizes in micro-units.
#[derive(Clone, Copy, Debug, PartialEq, Eq, Structural)]
pub struct Viewport {
    pub width: u64,
    pub height: u64,
}

impl Viewport {
    /// Distance from the centre to the left and right edges.
    pub open spec fn spec_half_width(&self) -> i64 {
        (self.width / 2) as i64
    }

    /// Distance from the centre to the top and bottom edges.
    pub open spec fn spec_half_height(&self) -> i64 {
        (self.height / 2) as i64
    }

    /// Distance from the centre beyond which an entity has left the
    /// simulated area.
    pub open spec fn reach(self) -> int {
        self.half_height() + MARGIN
    }

    /// Distance from the centre to the left and right edges.
    #[verifier::when_used_as_spec(spec_half_width)]
    pub fn half_width(&self) -> (w: i64)
        ensures
            w == self.half_width(),
            w == self.width / 2,
    {
        (self.width / 2) as i64
    }

    /// Distance from the centre to the top and bottom edges.
    #[verifier::when_used_as_spec(spec_half_height)]
    pub fn half_height(&self) -> (h: i64)
        ensures
            h == self.half_height(),
            h == self.height / 2,
    {
        (self.height / 2) as i64
    }
}

/// One simulated object. Positions are in micro-units with the origin at the
/// centre of the viewport and `y` growing upwards; velocities are in units
/// per second.
#[derive(Clone, Copy, Debug, PartialEq, Eq, Structural)]
pub struct Entity {
    pub id: u64,
    pub role: Role,
    pub x: i64,
    pub y: i64,
    pub vx: i32,
    pub vy: i32,
    pub radius: u32,
}

impl Entity {
    /// The entity after `dt` microseconds of motion at its velocity.
    pub open spec fn moved(self, dt: nat) -> Entity {
        Entity {
            x: drift(self.x as int, self.vx as int, dt) as i64,
            y: drift(self.y as int, self.vy as int, dt) as i64,
            ..self
        }
    }

    /// The entity after `n` steps of `dt` microseconds each.
    pub open spec fn moved_times(self, dt: nat, n: nat) -> Entity
        decreases n,
    {
        if n == 0 {
            self
        } else {
            self.moved_times(dt, (n - 1) as nat).moved(dt)
        }
    }

    /// The entity with its velocity changed by `dx` and `dy`, each axis held
    /// to the range of a velocity.
    pub open spec fn pushed(self, dx: int, dy: int) -> Entity {
        Entity {
            vx: clamp_i32(self.vx + dx) as i32,
            vy: clamp_i32(self.vy + dy) as i32,
            ..self
        }
    }

    /// The entity confined to the viewport, each axis on its own.
    pub open spec fn confined(self, view: Viewport) -> Entity {
        let h = confine_axis(self.x as int, self.vx as int, view.half_width() as int);
        let v = confine_axis(self.y as int, self.vy as int, view.half_height() as int);
        Entity { x: h.0 as i64, vx: h.1 as i32, y: v.0 as i64, vy: v.1 as i32, ..self }
    }

    /// Whether the entity has left the simulated area above or below.
    pub open spec fn off_screen(self, view: Viewport) -> bool {
        self.y < -view.reach() || self.y > view.reach()
    }

    /// Whether the circles of two entities overlap: the distance between
    /// their centres is strictly less than the sum of their radii.
    pub open spec fn overlaps(self, other: Entity) -> bool {
        let dx = self.x - other.x;
        let dy = self.y - other.y;
        let r = self.radius + other.radius;
        dx * dx + dy * dy < r * r
    }

    /// Moves the entity for `dt` microseconds at its velocity.
    pub fn advance(&self, dt: u64) -> (e: Entity)
        ensures
            e == self.moved(dt as nat),
    {
        Entity {
            x: drift_exec(self.x, self.vx, dt),
            y: drift_exec(self.y, self.vy, dt),
            ..*self
        }
    }

    /// Changes the velocity by `dx` and `dy`, saturating at the limits of a
    /// velocity.
    pub fn push(&self, dx: i8, dy: i8) -> (e: Entity)
        ensures
            e == self.pushed(dx as int, dy as int),
    {
        Entity {
            vx: saturate_i32(self.vx as i64 + dx as i64),
            vy: saturate_i32(self.vy as i64 + dy as i64),
            ..*self
        }
    }

    /// Confines the entity to the viewport: where it is beyond an edge and
    /// moving further out, it is put on that edge and stopped on that axis.
    pub fn confine(&self, view: &Viewport) -> (e: Entity)
        ensures
            e == self.confined(*view),
    {
        let (x, vx) = confine_axis_exec(self.x, self.vx, view.half_width());
        let (y, vy) = confine_axis_exec(self.y, self.vy, view.half_height());
        Entity { x, vx, y, vy, ..*self }
    }

    /// Tells whether the entity has left the simulated area.
    pub fn is_off_screen(&self, view: &Viewport) -> (b: bool)
        ensures
            b == self.off_screen(*view),
    {
        let reach: i128 = view.half_height() as i128 + MARGIN as i128;
        let y: i128 = self.y as i128;
        y < -reach || y > reach
    }

    /// Tells whether the circles of the two entities overlap.
    pub fn hits(&self, other: &Entity) -> (b: bool)
        ensures
            b == self.overlaps(*other),
    {
        let r: i128 = self.radius as i128 + other.radius as i128;
        let dx: i128 = self.x as i128 - other.x as i128;
        let dy: i128 = self.y as i128 - other.y as i128;
        let ax: i128 = if dx < 0 { -dx } else { dx };
        let ay: i128 = if dy < 0 { -dy } else { dy };
        proof {
            lemma_square_of_magnitude(dx as int);
            lemma_square_of_magnitude(dy as int);
        }
        if ax >= r {
            proof {
                lemma_square_monotone(r as int, ax as int);
                lemma_square_monotone(0, ay as int);
            }
            return false;
        }
        if ay >= r {
            proof {
                lemma_square_monotone(r as int, ay as int);
                lemma_square_monotone(0, ax as int);
            }
            return false;
        }
        proof {
            lemma_square_monotone(ax as int, r as int);
            lemma_square_monotone(ay as int, r as int);
            lemma_square_monotone(r as int, 0x2_0000_0000);
        }
        ax * ax + ay * ay < r * r
    }
}

/// Motion at a constant velocity adds up: after `n` steps of `dt`
/// microseconds an entity stands, on each axis, where its velocity times
/// `n * dt` takes it, held to the range of a position, and is otherwise
/// unchanged. However the time is cut into steps, nothing is lost.
pub proof fn lemma_moved_times(e: Entity, dt: nat, n: nat)
    ensures
        e.moved_times(dt, n) == (Entity {
            x: drift(e.x as int, e.vx as int, dt * n) as i64,
            y: drift(e.y as int, e.vy as int, dt * n) as i64,
            ..e
        }),
    decreases n,
{
    if n == 0 {
        assert(dt * n == 0) by (nonlinear_arith)
            requires
                n == 0,
        ;
        assert(e.vx * 0 == 0 && e.vy * 0 == 0) by (nonlinear_arith);
    } else {
        lemma_drift_step(e.x as int, e.vx as int, dt, n);
        lemma_drift_step(e.y as int, e.vy as int, dt, n);
        lemma_moved_times(e, dt, (n - 1) as nat);
    }
}

/// Where every place on the way is a position, motion at a constant velocity
/// is exact: the entity has moved by its velocity times `n * dt`.
pub proof fn lemma_moved_times_in_range(e: Entity, dt: nat, n: nat)
    requires
        i64::MIN <= e.x + e.vx * (dt * n) <= i64::MAX,
        i64::MIN <= e.y + e.vy * (dt * n) <= i64::MAX,
    ensures
        e.moved_times(dt, n).x == e.x + e.vx * (dt * n),
        e.moved_times(dt, n).y == e.y + e.vy * (dt * n),
{
    lemma_moved_times(e, dt, n);
}

/// One more step from where `n - 1` steps lead is where `n` steps lead, also
/// where the range of a position has cut the way short.
proof fn lemma_drift_step(p: int, v: int, dt: nat, n: nat)
    requires
        n > 0,
        i64::MIN <= p <= i64::MAX,
    ensures
        drift(drift(p, v, dt * ((n - 1) as nat)), v, dt) == drift(p, v, dt * n),
{
    let m = (n - 1) as nat;
    assert(v * (dt * m) + v * dt == v * (dt * n)) by (nonlinear_arith)
        requires
            m + 1 == n,
    ;
    assert((v >= 0 ==> 0 <= v * (dt * m) && 0 <= v * dt) && (v <= 0 ==> v * (dt * m) <= 0 && v
        * dt <= 0)) by (nonlinear_arith)
        requires
            m >= 0,
            dt >= 0,
    ;
}

/// A confined entity is inside the viewport on each axis, or it is not
/// moving further out there; and confining it again changes nothing.
pub proof fn lemma_confined(e: Entity, view: Viewport)
    ensures
        -view.half_width() <= e.confined(view).x <= view.half_width() || !(e.confined(view).x
            > 0 && e.confined(view).vx > 0 || e.confined(view).x < 0 && e.confined(view).vx
            < 0),
        -view.half_height() <= e.confined(view).y <= view.half_height() || !(e.confined(
            view,
        ).y > 0 && e.confined(view).vy > 0 || e.confined(view).y < 0 && e.confined(view).vy
            < 0),
        e.confined(view).confined(view) == e.confined(view),
{
}

/// Confinement acts only on an entity that moves: at rest it stays where it
/// is, inside the viewport or not.
pub proof fn lemma_confined_at_rest(e: Entity, view: Viewport)
    requires
        e.vx == 0,
        e.vy == 0,
    ensures
        e.confined(view) == e,
{
}

/// With no pull on either axis, whether no key is held or opposed keys
/// cancel, the velocity stays as it is: it is never set back to zero.
pub proof fn lemma_velocity_is_kept(e: Entity)
    ensures
        e.pushed(0, 0) == e,
{
}

/// Squares grow with their base on the non-negative integers.
proof fn lemma_square_monotone(a: int, b: int)
    requires
        0 <= a <= b,
    ensures
        0 <= a * a <= b * b,
{
    assert(0 <= a * a <= b * b) by (nonlinear_arith)
        requires
            0 <= a <= b,
    ;
}

/// A number and its absolute value have the same square.
proof fn lemma_square_of_magnitude(v: int)
    ensures
        magnitude(v) * magnitude(v) == v * v,
{
    assert((-v) * (-v) == v * v) by (nonlinear_arith);
}

fn saturate_i64(v: i128) -> (r: i64)
    ensures
        r == clamp_i64(v as int),
{
    if v < i64::MIN as i128 {
        i64::MIN
    } else if v > i64::MAX as i128 {
        i64::MAX
    } else {
        v as i64
    }
}

fn saturate_i32(v: i64) -> (r: i32)
    ensures
        r == clamp_i32(v as int),
{
    if v < i32::MIN as i64 {
        i32::MIN
    } else if v > i32::MAX as i64 {
        i32::MAX
    } else {
        v as i32
    }
}

fn drift_exec(p: i64, v: i32, dt: u64) -> (r: i64)
    ensures
        r == drift(p as int, v as int, dt as nat),
{
    assert(-0x8000_0000_0000_0000_0000_0000 <= (v as int) * (dt as int)
        <= 0x8000_0000_0000_0000_0000_0000) by (nonlinear_arith)
        requires
            -0x8000_0000 <= v as int <= 0x8000_0000,
            0 <= dt as int <= 0x1_0000_0000_0000_0000,
    ;
    let step: i128 = (v as i128) * (dt as i128);
    saturate_i64(p as i128 + step)
}

fn confine_axis_exec(p: i64, v: i32, half: i64) -> (r: (i64, i32))
    requires
        half >= 0,
    ensures
        (r.0 as int, r.1 as int) == confine_axis(p as int, v as int, half as int),
{
    if p > half && v > 0 {
        (half, 0)
    } else if p < -half && v < 0 {
        (-half, 0)
    } else {
        (p, v)
    }
}

} // verus!
