//! The entity store: the player's ship in a slot of its own, and every bullet
//! and obstacle in the order in which they were created.
use vstd::prelude::*;
use crate::collision::{find_hits, hits, marks, Hit};
use crate::entity::{Entity, Role, Viewport, PLAYER_RADIUS};
use crate::input::Input;
use crate::sweep::{
    ascending, id_list, ids, lemma_without_ascending, lemma_without_members, sweep, without,
};

verus! {

/// The mathematical state of a [`Store`].
pub struct StoreView {
    /// The player's ship.
    pub player: Entity,
    /// Bullets and obstacles, oldest first.
    pub others: Seq<Entity>,
    /// The identifier that the next entity will get.
    pub next_id: nat,
}

impl StoreView {
    /// What holds of every store: there is one player, with identifier 0;
    /// everything else is a bullet or an obstacle; identifiers grow along the
    /// sequence, so no two entities share one, and all are below `next_id`.
    pub open spec fn wf(self) -> bool {
        &&& self.player.role == Role::Player
        &&& self.player.id == 0
        &&& 0 < self.next_id <= u64::MAX
        &&& forall|i: int|
            0 <= i < self.others.len() ==> {
                &&& (#[trigger] self.others[i]).role != Role::Player
                &&& 0 < self.others[i].id < self.next_id
            }
        &&& forall|i: int, j: int|
            0 <= i < j < self.others.len() ==> (#[trigger] self.others[i]).id < (
            #[trigger] self.others[j]).id
    }

    /// Every live entity, the player first.
    pub open spec fn entities(self) -> Seq<Entity> {
        seq![self.player] + self.others
    }

    /// The store that holds only a ship at rest in the centre.
    pub open spec fn initial() -> StoreView {
        StoreView {
            player: Entity {
                id: 0,
                role: Role::Player,
                x: 0,
                y: 0,
                vx: 0,
                vy: 0,
                radius: PLAYER_RADIUS,
            },
            others: Seq::empty(),
            next_id: 1,
        }
    }

    /// The store after the keys have pulled on the ship's velocity.
    pub open spec fn steered(self, input: Input) -> StoreView {
        StoreView { player: self.player.pushed(input.pull_x(), input.pull_y()), ..self }
    }

    /// The store after every entity has moved for `dt` microseconds.
    pub open spec fn moved(self, dt: nat) -> StoreView {
        StoreView {
            player: self.player.moved(dt),
            others: Seq::new(self.others.len(), |i: int| self.others[i].moved(dt)),
            ..self
        }
    }

    /// The store after the ship has been confined to the viewport: stopped
    /// on the edge where it was beyond one and moving further out.
    pub open spec fn confined(self, view: Viewport) -> StoreView {
        StoreView { player: self.player.confined(view), ..self }
    }

    /// The store after a new entity with the given role and motion has been
    /// added under the next identifier.
    pub open spec fn spawned(self, role: Role, x: i64, y: i64, vx: i32, vy: i32, radius: u32)
        -> StoreView {
        StoreView {
            others: self.others.push(
                Entity { id: self.next_id as u64, role, x, y, vx, vy, radius },
            ),
            next_id: self.next_id + 1,
            ..self
        }
    }

    /// For each bullet and obstacle, whether it has left the simulated area.
    pub open spec fn strays(self, view: Viewport) -> Seq<bool> {
        Seq::new(self.others.len(), |k: int| self.others[k].off_screen(view))
    }

    /// For each bullet and obstacle, whether it is still in the simulated
    /// area.
    pub open spec fn stays(self, view: Viewport) -> Seq<bool> {
        Seq::new(self.others.len(), |k: int| !self.others[k].off_screen(view))
    }

    /// The identifiers of the bullets and obstacles that have left the
    /// simulated area, oldest first.
    pub open spec fn stray_ids(self, view: Viewport) -> Seq<u64> {
        ids(without(self.others, self.stays(view)))
    }

    /// The store after `n` rounds of movement of `dt` microseconds each.
    pub open spec fn moved_times(self, dt: nat, n: nat) -> StoreView
        decreases n,
    {
        if n == 0 {
            self
        } else {
            self.moved_times(dt, (n - 1) as nat).moved(dt)
        }
    }

    /// Rounds of movement move each entity on its own: after `n` rounds the
    /// store holds the same entities in the same order, each moved `n`
    /// times.
    pub proof fn lemma_moved_times(self, dt: nat, n: nat)
        ensures
            self.moved_times(dt, n).player == self.player.moved_times(dt, n),
            self.moved_times(dt, n).next_id == self.next_id,
            self.moved_times(dt, n).others.len() == self.others.len(),
            forall|i: int|
                0 <= i < self.others.len() ==> #[trigger] self.moved_times(dt, n).others[i]
                    == self.others[i].moved_times(dt, n),
        decreases n,
    {
        if n > 0 {
            self.lemma_moved_times(dt, (n - 1) as nat);
        }
    }

    /// The store without the bullets and obstacles that have left the
    /// simulated area. The ship is never removed.
    pub open spec fn reaped(self, view: Viewport) -> StoreView {
        StoreView { others: without(self.others, self.strays(view)), ..self }
    }

    /// The store without the bullets and obstacles that one pass of
    /// collisions destroys.
    pub open spec fn collided(self) -> StoreView {
        StoreView { others: without(self.others, marks(self.others)), ..self }
    }

    /// The store without the bullets and obstacles whose mark is set.
    pub open spec fn swept(self, gone: Seq<bool>) -> StoreView {
        StoreView { others: without(self.others, gone), ..self }
    }

    /// Steering, movement and confinement change how entities move, not
    /// which entities there are: they leave a well-formed store.
    pub proof fn lemma_motion_wf(self, input: Input, dt: nat, view: Viewport)
        requires
            self.wf(),
        ensures
            self.steered(input).wf(),
            self.moved(dt).wf(),
            self.confined(view).wf(),
    {
    }

    /// Adding a bullet or an obstacle under the next identifier leaves a
    /// well-formed store, as long as an identifier is left.
    pub proof fn lemma_spawned_wf(self, role: Role, x: i64, y: i64, vx: i32, vy: i32, radius: u32)
        requires
            self.wf(),
            role != Role::Player,
            self.next_id < u64::MAX,
        ensures
            self.spawned(role, x, y, vx, vy, radius).wf(),
    {
    }

    /// The reaper keeps exactly what is still in the simulated area: a bullet
    /// or an obstacle is in the store afterwards if and only if it was there
    /// before and has not left.
    pub proof fn lemma_reaped(self, view: Viewport)
        ensures
            forall|e: Entity|
                self.reaped(view).others.contains(e) <==> self.others.contains(e)
                    && !e.off_screen(view),
            self.reaped(view).player == self.player,
    {
        let gone = self.strays(view);
        lemma_without_members(self.others, gone);
        assert forall|e: Entity|
            self.reaped(view).others.contains(e) <==> self.others.contains(e) && !e.off_screen(
                view,
            ) by {
            if self.others.contains(e) && !e.off_screen(view) {
                let k = choose|k: int| 0 <= k < self.others.len() && self.others[k] == e;
                assert(!gone[k] && self.others[k] == e);
            }
            if self.reaped(view).others.contains(e) {
                let k = choose|k: int|
                    0 <= k < self.others.len() && !gone[k] && #[trigger] self.others[k] == e;
                assert(self.others.contains(e));
            }
        }
    }

    /// Removing bullets and obstacles leaves a well-formed store.
    pub proof fn lemma_swept_wf(self, gone: Seq<bool>)
        requires
            self.wf(),
            gone.len() == self.others.len(),
        ensures
            self.swept(gone).wf(),
    {
        let kept = without(self.others, gone);
        assert(ascending(self.others));
        lemma_without_ascending(self.others, gone);
        lemma_without_members(self.others, gone);
        assert forall|i: int| 0 <= i < kept.len() implies {
            &&& (#[trigger] kept[i]).role != Role::Player
            &&& 0 < kept[i].id < self.next_id
        } by {
            assert(kept.contains(kept[i]));
            let k = choose|k: int|
                0 <= k < self.others.len() && !gone[k] && #[trigger] self.others[k] == kept[i];
        }
    }
}

/// Every live entity of the simulation.
pub struct Store {
    player: Entity,
    others: Vec<Entity>,
    next_id: u64,
}

impl View for Store {
    type V = StoreView;

    closed spec fn view(&self) -> StoreView {
        StoreView { player: self.player, others: self.others@, next_id: self.next_id as nat }
    }
}

impl Store {
    #[verifier::type_invariant]
    closed spec fn inv(&self) -> bool {
        self@.wf()
    }

    /// A store that holds only the ship, at rest in the centre.
    pub fn new() -> (s: Store)
        ensures
            s@ == StoreView::initial(),
            s@.wf(),
    {
        Store {
            player: Entity {
                id: 0,
                role: Role::Player,
                x: 0,
                y: 0,
                vx: 0,
                vy: 0,
                radius: PLAYER_RADIUS,
            },
            others: Vec::new(),
            next_id: 1,
        }
    }

    /// The player's ship.
    pub fn player(&self) -> (p: Entity)
        ensures
            p == self@.player,
    {
        self.player
    }

    /// The number of bullets and obstacles.
    pub fn len(&self) -> (n: usize)
        ensures
            n == self@.others.len(),
            self@.wf(),
    {
        proof {
            use_type_invariant(self);
        }
        self.others.len()
    }

    /// The bullet or obstacle at position `i`, oldest first.
    pub fn get(&self, i: usize) -> (e: Option<Entity>)
        ensures
            e == if i < self@.others.len() {
                Some(self@.others[i as int])
            } else {
                None
            },
    {
        if i < self.others.len() {
            Some(self.others[i])
        } else {
            None
        }
    }

    /// Every live entity, the ship first, then bullets and obstacles from
    /// the oldest to the newest.
    pub fn entities(&self) -> (all: Vec<Entity>)
        ensures
            all@ == self@.entities(),
    {
        let n = self.others.len();
        let mut all: Vec<Entity> = Vec::new();
        all.push(self.player);
        let mut i: usize = 0;
        while i < n
            invariant
                i <= n,
                n == self.others@.len(),
                all@.len() == i + 1,
                all@[0] == self.player,
                forall|k: int| 0 <= k < i ==> all@[k + 1] == self.others@[k],
            decreases n - i,
        {
            all.push(self.others[i]);
            i += 1;
        }
        proof {
            assert(all@ =~= self@.entities());
        }
        all
    }

    /// The identifier that the next entity will get.
    pub fn next_id(&self) -> (n: u64)
        ensures
            n == self@.next_id,
    {
        self.next_id
    }

    /// Adds a bullet or an obstacle and returns its identifier.
    pub fn spawn(&mut self, role: Role, x: i64, y: i64, vx: i32, vy: i32, radius: u32) -> (id:
        u64)
        requires
            role != Role::Player,
            old(self)@.next_id < u64::MAX,
        ensures
            final(self)@ == old(self)@.spawned(role, x, y, vx, vy, radius),
            final(self)@.wf(),
            id == old(self)@.next_id,
    {
        proof {
            use_type_invariant(&*self);
        }
        let id = self.next_id;
        let mut others: Vec<Entity> = Vec::new();
        std::mem::swap(&mut others, &mut self.others);
        others.push(Entity { id, role, x, y, vx, vy, radius });
        self.next_id = id + 1;
        self.others = others;
        id
    }

    /// Lets the keys pull on the ship's velocity: one unit per second for
    /// each axis on which a direction is held.
    pub fn ship_movement_input(&mut self, input: &Input)
        ensures
            final(self)@ == old(self)@.steered(*input),
            final(self)@.wf(),
    {
        proof {
            use_type_invariant(&*self);
        }
        self.player = self.player.push(input.axis_x(), input.axis_y());
    }

    /// Moves every entity for `dt` microseconds at its velocity.
    pub fn sprite_movement(&mut self, dt: u64)
        ensures
            final(self)@ == old(self)@.moved(dt as nat),
            final(self)@.wf(),
    {
        proof {
            use_type_invariant(&*self);
        }
        self.player = self.player.advance(dt);
        let mut others: Vec<Entity> = Vec::new();
        std::mem::swap(&mut others, &mut self.others);
        let ghost before = others@;
        let n = others.len();
        let mut i: usize = 0;
        while i < n
            invariant
                i <= n,
                n == before.len(),
                others@.len() == n,
                forall|k: int| 0 <= k < i ==> others@[k] == before[k].moved(dt as nat),
                forall|k: int| i <= k < n ==> others@[k] == before[k],
            decreases n - i,
        {
            let e = others[i].advance(dt);
            others.set(i, e);
            i += 1;
        }
        assert(others@ =~= Seq::new(before.len(), |k: int| before[k].moved(dt as nat)));
        self.others = others;
    }

    /// Puts the ship back on the edge of the viewport where it is beyond
    /// one and moving further out, and stops it on that axis. A ship
    /// inside, at rest, or on its way back is left alone.
    pub fn confine_player_to_screen(&mut self, view: &Viewport)
        ensures
            final(self)@ == old(self)@.confined(*view),
            final(self)@.wf(),
    {
        proof {
            use_type_invariant(&*self);
        }
        self.player = self.player.confine(view);
    }

    /// Removes the bullets and obstacles that have left the simulated area,
    /// those more than the margin above the top or below the bottom edge,
    /// and returns their identifiers.
    pub fn despawn_entities_outside_of_screen(&mut self, view: &Viewport) -> (left: Vec<u64>)
        ensures
            final(self)@ == old(self)@.reaped(*view),
            final(self)@.wf(),
            left@ == old(self)@.stray_ids(*view),
    {
        proof {
            use_type_invariant(&*self);
        }
        let mut others: Vec<Entity> = Vec::new();
        std::mem::swap(&mut others, &mut self.others);
        let n = others.len();
        let mut gone: Vec<bool> = Vec::new();
        let mut stay: Vec<bool> = Vec::new();
        let mut i: usize = 0;
        while i < n
            invariant
                i <= n,
                n == others@.len(),
                gone@.len() == i,
                stay@.len() == i,
                forall|k: int| 0 <= k < i ==> gone@[k] == others@[k].off_screen(*view),
                forall|k: int| 0 <= k < i ==> stay@[k] == !others@[k].off_screen(*view),
            decreases n - i,
        {
            let off = others[i].is_off_screen(view);
            gone.push(off);
            stay.push(!off);
            i += 1;
        }
        let kept = sweep(&others, &gone);
        let lost = sweep(&others, &stay);
        proof {
            assert(gone@ =~= old(self)@.strays(*view));
            assert(stay@ =~= old(self)@.stays(*view));
            old(self)@.lemma_swept_wf(gone@);
        }
        self.others = kept;
        id_list(&lost)
    }

    /// Destroys every bullet together with the first obstacle it overlaps
    /// that is still there, and returns the pairs.
    pub fn asteroid_bullet_collision(&mut self) -> (found: Vec<Hit>)
        ensures
            final(self)@ == old(self)@.collided(),
            final(self)@.wf(),
            found@ == hits(old(self)@.others),
    {
        proof {
            use_type_invariant(&*self);
        }
        let mut others: Vec<Entity> = Vec::new();
        std::mem::swap(&mut others, &mut self.others);
        let (found, gone) = find_hits(&others);
        let kept = sweep(&others, &gone);
        proof {
            old(self)@.lemma_swept_wf(gone@);
        }
        self.others = kept;
        found
    }
}

} // verus!
