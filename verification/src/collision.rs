//! Collisions between bullets and obstacles.
//!
//! Bullets take their turn in store order. A bullet destroys the first
//! obstacle it overlaps that no earlier bullet has destroyed, and is destroyed
//! with it; it is matched with nothing else, and neither is the obstacle.
use vstd::prelude::*;
use crate::entity::{Entity, Role};
use crate::sweep::{lemma_without_members, lemma_without_none, without};

verus! {

/// A bullet and the obstacle it destroyed, by identifier.
#[derive(Clone, Copy, Debug, PartialEq, Eq, Structural)]
pub struct Hit {
    pub bullet: u64,
    pub obstacle: u64,
}

/// Whether `b` is a bullet and `o` an obstacle whose circles overlap.
pub open spec fn can_hit(b: Entity, o: Entity) -> bool {
    b.role == Role::Bullet && o.role == Role::Obstacle && b.overlaps(o)
}

/// Whether the entity at position `i` is the bullet of one of the pairs.
pub open spec fn shot(p: Seq<(int, int)>, i: int) -> bool {
    exists|k: int| 0 <= k < p.len() && (#[trigger] p[k]).0 == i
}

/// Whether the entity at position `j` is the obstacle of one of the pairs.
pub open spec fn struck(p: Seq<(int, int)>, j: int) -> bool {
    exists|k: int| 0 <= k < p.len() && (#[trigger] p[k]).1 == j
}

/// Whether the entity at position `k` belongs to one of the pairs.
pub open spec fn marked(p: Seq<(int, int)>, k: int) -> bool {
    shot(p, k) || struck(p, k)
}

/// The position, at or after `from`, of the first obstacle that `b` hits and
/// that no pair of `p` has struck; the length of `s` if there is none.
pub open spec fn target(s: Seq<Entity>, p: Seq<(int, int)>, b: Entity, from: int) -> int
    decreases s.len() - from,
{
    if from < 0 || from >= s.len() {
        s.len() as int
    } else if can_hit(b, s[from]) && !struck(p, from) {
        from
    } else {
        target(s, p, b, from + 1)
    }
}

/// The pairs formed once the first `n` entities of `s` have had their turn,
/// each as the positions of a bullet and of the obstacle it destroyed.
pub open spec fn pairs_among(s: Seq<Entity>, n: int) -> Seq<(int, int)>
    decreases n,
{
    if n <= 0 {
        Seq::empty()
    } else {
        let p = pairs_among(s, n - 1);
        let j = target(s, p, s[n - 1], 0);
        if j < s.len() {
            p.push((n - 1, j))
        } else {
            p
        }
    }
}

/// The pairs formed in one pass over `s`.
pub open spec fn pairs(s: Seq<Entity>) -> Seq<(int, int)> {
    pairs_among(s, s.len() as int)
}

/// For each position of `s`, whether the entity there is destroyed.
pub open spec fn marks(s: Seq<Entity>) -> Seq<bool> {
    Seq::new(s.len(), |k: int| marked(pairs(s), k))
}

/// The pairs formed in one pass over `s`, by identifier.
pub open spec fn hits(s: Seq<Entity>) -> Seq<Hit> {
    Seq::new(
        pairs(s).len(),
        |k: int| Hit { bullet: s[pairs(s)[k].0].id, obstacle: s[pairs(s)[k].1].id },
    )
}

/// A bullet's target, if it has one, is an obstacle that it hits and that was
/// still free, and nothing before the target qualifies.
pub proof fn lemma_target(s: Seq<Entity>, p: Seq<(int, int)>, b: Entity, from: int)
    requires
        0 <= from,
    ensures
        from <= target(s, p, b, from) <= s.len() || (from > s.len() && target(s, p, b, from)
            == s.len()),
        target(s, p, b, from) < s.len() ==> {
            &&& can_hit(b, s[target(s, p, b, from)])
            &&& !struck(p, target(s, p, b, from))
        },
        forall|j: int|
            from <= j < target(s, p, b, from) ==> !(can_hit(b, #[trigger] s[j]) && !struck(p, j)),
    decreases s.len() - from,
{
    if from < s.len() && !(can_hit(b, s[from]) && !struck(p, from)) {
        lemma_target(s, p, b, from + 1);
    }
}

/// What holds of the pairs formed among the first `n` entities: each joins a
/// bullet that had its turn with an obstacle that it overlaps, and no entity
/// belongs to two pairs.
pub open spec fn matching(s: Seq<Entity>, p: Seq<(int, int)>, n: int) -> bool {
    &&& forall|k: int|
        0 <= k < p.len() ==> {
            &&& 0 <= (#[trigger] p[k]).0 < n
            &&& 0 <= p[k].1 < s.len()
            &&& can_hit(s[p[k].0], s[p[k].1])
        }
    &&& forall|k: int, l: int|
        0 <= k < l < p.len() ==> (#[trigger] p[k]).0 < (#[trigger] p[l]).0 && p[k].1 != p[l].1
}

/// The pairs formed among the first `n` entities are a matching.
pub proof fn lemma_pairs_among(s: Seq<Entity>, n: int)
    requires
        0 <= n <= s.len(),
    ensures
        matching(s, pairs_among(s, n), n),
    decreases n,
{
    if n > 0 {
        let p = pairs_among(s, n - 1);
        lemma_pairs_among(s, n - 1);
        let j = target(s, p, s[n - 1], 0);
        lemma_target(s, p, s[n - 1], 0);
        if j < s.len() {
            let q = p.push((n - 1, j));
            assert forall|k: int, l: int| 0 <= k < l < q.len() implies (#[trigger] q[k]).0 < (
            #[trigger] q[l]).0 && q[k].1 != q[l].1 by {
                if l == q.len() - 1 {
                    assert(q[k] == p[k]);
                    if p[k].1 == j {
                        assert(struck(p, j));
                    }
                } else {
                    assert(q[k] == p[k] && q[l] == p[l]);
                }
            }
            assert forall|k: int| 0 <= k < q.len() implies {
                &&& 0 <= (#[trigger] q[k]).0 < n
                &&& 0 <= q[k].1 < s.len()
                &&& can_hit(s[q[k].0], s[q[k].1])
            } by {
                if k < p.len() {
                    assert(q[k] == p[k]);
                }
            }
        }
    }
}

/// One more pair marks its two entities and no other.
pub proof fn lemma_marked_push(p: Seq<(int, int)>, pair: (int, int), k: int)
    ensures
        shot(p.push(pair), k) == (shot(p, k) || k == pair.0),
        struck(p.push(pair), k) == (struck(p, k) || k == pair.1),
        marked(p.push(pair), k) == (marked(p, k) || k == pair.0 || k == pair.1),
{
    let q = p.push(pair);
    if shot(p, k) {
        let w = choose|w: int| 0 <= w < p.len() && (#[trigger] p[w]).0 == k;
        assert(q[w] == p[w]);
    }
    if struck(p, k) {
        let w = choose|w: int| 0 <= w < p.len() && (#[trigger] p[w]).1 == k;
        assert(q[w] == p[w]);
    }
    if k == pair.0 || k == pair.1 {
        assert(q[q.len() - 1] == pair);
    }
    if shot(q, k) {
        let w = choose|w: int| 0 <= w < q.len() && (#[trigger] q[w]).0 == k;
        if w < p.len() {
            assert(q[w] == p[w]);
        }
    }
    if struck(q, k) {
        let w = choose|w: int| 0 <= w < q.len() && (#[trigger] q[w]).1 == k;
        if w < p.len() {
            assert(q[w] == p[w]);
        }
    }
}

/// An entity that is no bullet has no target.
pub proof fn lemma_target_of_other(s: Seq<Entity>, p: Seq<(int, int)>, b: Entity, from: int)
    requires
        b.role != Role::Bullet,
    ensures
        target(s, p, b, from) == s.len(),
    decreases s.len() - from,
{
    if 0 <= from < s.len() {
        lemma_target_of_other(s, p, b, from + 1);
    }
}

/// No bullet that is left overlaps an obstacle that is left: the pass
/// resolves every collision that it can.
pub proof fn lemma_survivors_apart(s: Seq<Entity>, i: int, j: int)
    requires
        0 <= i < s.len(),
        0 <= j < s.len(),
        !marked(pairs(s), i),
        !marked(pairs(s), j),
    ensures
        !can_hit(s[i], s[j]),
{
    lemma_free_stays_free(s, i + 1, s.len() as int, j);
    let p = pairs_among(s, i);
    lemma_target(s, p, s[i], 0);
    let t = target(s, p, s[i], 0);
    if t < s.len() {
        let q = p.push((i, t));
        assert(q[q.len() - 1].0 == i);
        assert(shot(pairs_among(s, i + 1), i));
        lemma_shot_stays_shot(s, i + 1, s.len() as int, i);
    } else {
        lemma_free_stays_free(s, i, s.len() as int, j);
    }
}

/// The pairs of one pass are a matching: each joins a bullet with an
/// obstacle that it overlaps, and once an entity is in a pair it is in no
/// other.
pub proof fn lemma_pairs(s: Seq<Entity>)
    ensures
        matching(s, pairs(s), s.len() as int),
{
    lemma_pairs_among(s, s.len() as int);
}

/// Among entities of which no bullet overlaps an obstacle, no pair forms.
pub proof fn lemma_no_pairs(s: Seq<Entity>, n: int)
    requires
        0 <= n <= s.len(),
        forall|i: int, j: int|
            0 <= i < s.len() && 0 <= j < s.len() ==> !can_hit(#[trigger] s[i], #[trigger] s[j]),
    ensures
        pairs_among(s, n).len() == 0,
    decreases n,
{
    if n > 0 {
        lemma_no_pairs(s, n - 1);
        lemma_target(s, pairs_among(s, n - 1), s[n - 1], 0);
    }
}

/// A second pass finds nothing to do: what one pass leaves, another pass
/// leaves as it is.
pub proof fn lemma_second_pass(s: Seq<Entity>)
    ensures
        pairs(without(s, marks(s))).len() == 0,
        without(without(s, marks(s)), marks(without(s, marks(s)))) == without(s, marks(s)),
{
    let t = without(s, marks(s));
    lemma_without_members(s, marks(s));
    assert forall|i: int, j: int| 0 <= i < t.len() && 0 <= j < t.len() implies !can_hit(
        #[trigger] t[i],
        #[trigger] t[j],
    ) by {
        assert(t.contains(t[i]));
        assert(t.contains(t[j]));
        let a = choose|a: int| 0 <= a < s.len() && !marks(s)[a] && #[trigger] s[a] == t[i];
        let b = choose|b: int| 0 <= b < s.len() && !marks(s)[b] && #[trigger] s[b] == t[j];
        lemma_survivors_apart(s, a, b);
    }
    lemma_no_pairs(t, t.len() as int);
    lemma_without_none(t, marks(t));
}

/// An obstacle that is free at the end of the pass was free all along.
proof fn lemma_free_stays_free(s: Seq<Entity>, n: int, m: int, j: int)
    requires
        0 <= n <= m,
        !struck(pairs_among(s, m), j),
    ensures
        !struck(pairs_among(s, n), j),
    decreases m - n,
{
    if n < m {
        lemma_free_stays_free(s, n + 1, m, j);
        let p = pairs_among(s, n);
        let t = target(s, p, s[n], 0);
        if t < s.len() {
            lemma_marked_push(p, (n, t), j);
        }
    }
}

/// A bullet that has found its target stays matched to the end of the pass.
proof fn lemma_shot_stays_shot(s: Seq<Entity>, n: int, m: int, i: int)
    requires
        0 <= n <= m,
        shot(pairs_among(s, n), i),
    ensures
        shot(pairs_among(s, m), i),
    decreases m - n,
{
    if n < m {
        let p = pairs_among(s, n);
        let t = target(s, p, s[n], 0);
        if t < s.len() {
            lemma_marked_push(p, (n, t), i);
        }
        lemma_shot_stays_shot(s, n + 1, m, i);
    }
}

/// Finds the collisions of one pass over `s`: the pairs by identifier, and
/// for each position whether the entity there is destroyed.
pub fn find_hits(s: &Vec<Entity>) -> (r: (Vec<Hit>, Vec<bool>))
    ensures
        r.0@ == hits(s@),
        r.1@ == marks(s@),
{
    let n = s.len();
    let mut dead: Vec<bool> = Vec::new();
    let mut k: usize = 0;
    while k < n
        invariant
            k <= n,
            dead@.len() == k,
            forall|l: int| 0 <= l < k ==> !dead@[l],
        decreases n - k,
    {
        dead.push(false);
        k += 1;
    }
    let mut found: Vec<Hit> = Vec::new();
    let ghost mut p: Seq<(int, int)> = Seq::empty();
    let mut i: usize = 0;
    while i < n
        invariant
            i <= n,
            n == s@.len(),
            dead@.len() == n,
            p == pairs_among(s@, i as int),
            matching(s@, p, i as int),
            found@.len() == p.len(),
            forall|l: int|
                0 <= l < p.len() ==> (#[trigger] found@[l]) == (Hit {
                    bullet: s@[p[l].0].id,
                    obstacle: s@[p[l].1].id,
                }),
            forall|l: int| 0 <= l < n ==> dead@[l] == marked(p, l),
        decreases n - i,
    {
        let b = s[i];
        let mut t: usize = n;
        proof {
            lemma_pairs_among(s@, i + 1);
        }
        if b.role == Role::Bullet {
            let mut j: usize = 0;
            while j < n && t == n
                invariant
                    j <= n,
                    t <= n,
                    n == s@.len(),
                    dead@.len() == n,
                    i < n,
                    b == s@[i as int],
                    b.role == Role::Bullet,
                    matching(s@, p, i as int),
                    forall|l: int| 0 <= l < n ==> dead@[l] == marked(p, l),
                    t == n ==> target(s@, p, b, 0) == target(s@, p, b, j as int),
                    t < n ==> t == target(s@, p, b, 0),
                decreases n - j + (if t == n { 1int } else { 0int }),
            {
                let o = s[j];
                proof {
                    if o.role == Role::Obstacle && shot(p, j as int) {
                        let w = choose|w: int| 0 <= w < p.len() && (#[trigger] p[w]).0 == j;
                        assert(can_hit(s@[p[w].0], s@[p[w].1]));
                    }
                    assert(dead@[j as int] == marked(p, j as int));
                    assert(can_hit(b, o) && !struck(p, j as int) <==> o.role == Role::Obstacle
                        && !dead@[j as int] && b.overlaps(o));
                }
                if o.role == Role::Obstacle && !dead[j] && b.hits(&o) {
                    t = j;
                } else {
                    j += 1;
                }
            }
        } else {
            proof {
                lemma_target_of_other(s@, p, b, 0);
            }
        }
        if t < n {
            found.push(Hit { bullet: b.id, obstacle: s[t].id });
            dead.set(i, true);
            dead.set(t, true);
            proof {
                assert forall|l: int| 0 <= l < n implies dead@[l] == marked(
                    p.push((i as int, t as int)),
                    l,
                ) by {
                    lemma_marked_push(p, (i as int, t as int), l);
                }
                p = p.push((i as int, t as int));
            }
        }
        i += 1;
    }
    proof {
        assert(found@ =~= hits(s@));
        assert(dead@ =~= marks(s@));
    }
    (found, dead)
}

} // verus!
