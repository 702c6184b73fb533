//! Removal of marked entities in one pass.
//!
//! A system that destroys entities never touches the live sequence while it
//! scans it: it marks, and the marked entities are dropped afterwards, the
//! others keeping their order.
use vstd::prelude::*;
use crate::entity::Entity;

verus! {

/// `s` without the entities whose mark is set, in the same order.
pub open spec fn without(s: Seq<Entity>, marks: Seq<bool>) -> Seq<Entity>
    decreases s.len(),
{
    if s.len() == 0 || marks.len() != s.len() {
        Seq::empty()
    } else {
        let rest = without(s.drop_last(), marks.drop_last());
        if marks.last() {
            rest
        } else {
            rest.push(s.last())
        }
    }
}

/// Whether identifiers grow strictly along `s`.
pub open spec fn ascending(s: Seq<Entity>) -> bool {
    forall|i: int, j: int|
        0 <= i < j < s.len() ==> (#[trigger] s[i]).id < (#[trigger] s[j]).id
}

/// Dropping marked entities keeps exactly the unmarked ones: an entity is in
/// the result if and only if it stands unmarked in `s`.
pub proof fn lemma_without_members(s: Seq<Entity>, marks: Seq<bool>)
    requires
        marks.len() == s.len(),
    ensures
        without(s, marks).len() <= s.len(),
        forall|e: Entity|
            without(s, marks).contains(e) <==> exists|k: int|
                0 <= k < s.len() && !marks[k] && #[trigger] s[k] == e,
    decreases s.len(),
{
    let t = without(s, marks);
    if s.len() == 0 {
        assert forall|e: Entity| t.contains(e) <==> exists|k: int|
            0 <= k < s.len() && !marks[k] && #[trigger] s[k] == e by {
            if t.contains(e) {
                let i = choose|i: int| 0 <= i < t.len() && t[i] == e;
            }
        }
    } else {
        let s0 = s.drop_last();
        let m0 = marks.drop_last();
        let t0 = without(s0, m0);
        let last = s.len() - 1;
        lemma_without_members(s0, m0);
        assert forall|e: Entity| t.contains(e) <==> exists|k: int|
            0 <= k < s.len() && !marks[k] && #[trigger] s[k] == e by {
            if t.contains(e) {
                let i = choose|i: int| 0 <= i < t.len() && t[i] == e;
                if !marks.last() && i == t.len() - 1 {
                    assert(s[last] == e);
                } else {
                    assert(t0[i] == e);
                    assert(t0.contains(e));
                    let k = choose|k: int| 0 <= k < s0.len() && !m0[k] && #[trigger] s0[k] == e;
                    assert(s[k] == e && !marks[k]);
                }
            }
            if exists|k: int| 0 <= k < s.len() && !marks[k] && #[trigger] s[k] == e {
                let k = choose|k: int| 0 <= k < s.len() && !marks[k] && #[trigger] s[k] == e;
                if k == last {
                    assert(t == t0.push(s.last()));
                    assert(t[t.len() - 1] == e);
                } else {
                    assert(s0[k] == e && !m0[k]);
                    assert(t0.contains(e));
                    let i = choose|i: int| 0 <= i < t0.len() && t0[i] == e;
                    assert(t[i] == e);
                }
            }
        }
    }
}

/// Dropping marked entities keeps identifiers growing along the sequence.
pub proof fn lemma_without_ascending(s: Seq<Entity>, marks: Seq<bool>)
    requires
        marks.len() == s.len(),
        ascending(s),
    ensures
        ascending(without(s, marks)),
    decreases s.len(),
{
    let t = without(s, marks);
    if s.len() > 0 {
        let s0 = s.drop_last();
        let m0 = marks.drop_last();
        let t0 = without(s0, m0);
        let last = s.len() - 1;
        assert forall|i: int, j: int| 0 <= i < j < s0.len() implies (#[trigger] s0[i]).id < (
        #[trigger] s0[j]).id by {
            assert(s0[i] == s[i] && s0[j] == s[j]);
        }
        lemma_without_ascending(s0, m0);
        lemma_without_members(s0, m0);
        if !marks.last() {
            assert forall|i: int, j: int| 0 <= i < j < t.len() implies (#[trigger] t[i]).id < (
            #[trigger] t[j]).id by {
                if j == t.len() - 1 {
                    assert(t0[i] == t[i]);
                    assert(t0.contains(t[i]));
                    let k = choose|k: int| 0 <= k < s0.len() && !m0[k] && #[trigger] s0[k] == t[i];
                    assert(s[k] == t[i]);
                    assert(s[last] == t[j]);
                } else {
                    assert(t0[i] == t[i] && t0[j] == t[j]);
                }
            }
        }
    }
}

/// With no mark set, nothing is dropped.
pub proof fn lemma_without_none(s: Seq<Entity>, marks: Seq<bool>)
    requires
        marks.len() == s.len(),
        forall|k: int| 0 <= k < marks.len() ==> !marks[k],
    ensures
        without(s, marks) == s,
    decreases s.len(),
{
    if s.len() > 0 {
        lemma_without_none(s.drop_last(), marks.drop_last());
        assert(s.drop_last().push(s.last()) =~= s);
    } else {
        assert(without(s, marks) =~= s);
    }
}

/// The identifiers of the entities of `s`, in order.
pub open spec fn ids(s: Seq<Entity>) -> Seq<u64> {
    Seq::new(s.len(), |k: int| s[k].id)
}

/// Lists the identifiers of the entities of `s`, in order.
pub fn id_list(s: &Vec<Entity>) -> (out: Vec<u64>)
    ensures
        out@ == ids(s@),
{
    let n = s.len();
    let mut out: Vec<u64> = Vec::new();
    let mut i: usize = 0;
    while i < n
        invariant
            i <= n,
            n == s@.len(),
            out@.len() == i,
            forall|k: int| 0 <= k < i ==> out@[k] == s@[k].id,
        decreases n - i,
    {
        out.push(s[i].id);
        i += 1;
    }
    proof {
        assert(out@ =~= ids(s@));
    }
    out
}

/// Drops the marked entities from `s`.
pub fn sweep(s: &Vec<Entity>, marks: &Vec<bool>) -> (out: Vec<Entity>)
    requires
        marks.len() == s.len(),
    ensures
        out@ == without(s@, marks@),
{
    let n = s.len();
    let mut out: Vec<Entity> = Vec::new();
    let mut i: usize = 0;
    while i < n
        invariant
            i <= n,
            n == s@.len(),
            n == marks@.len(),
            out@ == without(s@.subrange(0, i as int), marks@.subrange(0, i as int)),
        decreases n - i,
    {
        proof {
            let s1 = s@.subrange(0, i + 1);
            let m1 = marks@.subrange(0, i + 1);
            assert(s1.drop_last() =~= s@.subrange(0, i as int));
            assert(m1.drop_last() =~= marks@.subrange(0, i as int));
            assert(s1.last() == s@[i as int]);
            assert(m1.last() == marks@[i as int]);
        }
        if !marks[i] {
            out.push(s[i]);
        }
        i += 1;
    }
    proof {
        assert(s@.subrange(0, n as int) =~= s@);
        assert(marks@.subrange(0, n as int) =~= marks@);
    }
    out
}

} // verus!
