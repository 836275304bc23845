//! Idempotent, counter-synchronized relationship toggles.
//!
//! A relation is a `(kind, actor, target)` triple whose presence is the whole
//! boolean state: there is no separate "enabled" flag, and the store never
//! holds the same triple twice. Each kind keeps denormalized counters in sync
//! with the rows: a like bumps the target's like counter, a follow bumps both
//! the followee's follower counter and the actor's following counter, and a
//! bookmark touches no counter.
//!
//! Every operation is one state transition; callers that keep this state in
//! an external store must make each call one atomic unit (a conditional
//! write or equivalent row lock), so that concurrent calls serialize into
//! the sequences that the lemmas below speak about.

use std::collections::HashMap;
use vstd::prelude::*;

verus! {

use crate::seq_facts::{lemma_push_no_duplicates, lemma_remove_no_duplicates, lemma_to_set_push, lemma_to_set_remove};

/// The relation kinds the engine manages.
#[derive(Clone, Copy, Debug, PartialEq, Eq, Structural)]
pub enum ToggleKind {
    Like,
    Bookmark,
    Follow,
}

/// One relation row: `actor` stands in relation `kind` to `target`.
#[derive(Clone, Copy, Debug, PartialEq, Eq, Structural)]
pub struct Relation {
    pub kind: ToggleKind,
    pub actor: i64,
    pub target: i64,
}

/// Which denormalized counter family a count selects.
#[derive(Clone, Copy, PartialEq, Eq, Structural)]
pub enum CounterSel {
    /// Likes received by a target.
    Likes,
    /// Followers of a target.
    Followers,
    /// Users an actor follows.
    Following,
}

/// Whether row `r` is counted by the `sel` counter of `id`.
pub open spec fn rel_matches(r: Relation, sel: CounterSel, id: i64) -> bool {
    match sel {
        CounterSel::Likes => r.kind == ToggleKind::Like && r.target == id,
        CounterSel::Followers => r.kind == ToggleKind::Follow && r.target == id,
        CounterSel::Following => r.kind == ToggleKind::Follow && r.actor == id,
    }
}

/// How many rows of `rels` the `sel` counter of `id` counts.
pub open spec fn spec_count(rels: Seq<Relation>, sel: CounterSel, id: i64) -> nat
    decreases rels.len(),
{
    if rels.len() == 0 {
        0
    } else {
        spec_count(rels.drop_last(), sel, id) + (if rel_matches(rels.last(), sel, id) {
            1nat
        } else {
            0nat
        })
    }
}

/// The value of a counter map at `id`; an absent entry counts as zero.
pub open spec fn cnt(m: Map<i64, u64>, id: i64) -> nat {
    if m.contains_key(id) {
        m[id] as nat
    } else {
        0
    }
}

/// The relation set after one toggle: inserted when `desired`, removed
/// otherwise. Toggling what already holds changes nothing.
pub open spec fn spec_toggle(
    rels: Set<Relation>,
    kind: ToggleKind,
    actor: i64,
    target: i64,
    desired: bool,
) -> Set<Relation> {
    let r = Relation { kind, actor, target };
    if desired {
        rels.insert(r)
    } else {
        rels.remove(r)
    }
}

/// The relation rows and their synchronized counters.
pub struct ToggleStore {
    relations: Vec<Relation>,
    like_counts: HashMap<i64, u64>,
    follower_counts: HashMap<i64, u64>,
    following_counts: HashMap<i64, u64>,
}

impl ToggleStore {
    /// The rows, as the set that their presence stands for.
    pub closed spec fn rel_set(self) -> Set<Relation> {
        self.relations@.to_set()
    }

    /// Whether the `(kind, actor, target)` row is present.
    pub closed spec fn spec_has(self, kind: ToggleKind, actor: i64, target: i64) -> bool {
        self.relations@.contains(Relation { kind, actor, target })
    }

    /// The stored like counter of target `t`.
    pub closed spec fn like_count(self, t: i64) -> nat {
        cnt(self.like_counts@, t)
    }

    /// The stored follower counter of target `t`.
    pub closed spec fn follower_count(self, t: i64) -> nat {
        cnt(self.follower_counts@, t)
    }

    /// The stored following counter of actor `a`.
    pub closed spec fn following_count(self, a: i64) -> nat {
        cnt(self.following_counts@, a)
    }

    /// Well-formed: no duplicate rows, and every counter equals the number of
    /// rows it counts.
    pub closed spec fn wf(self) -> bool {
        &&& self.relations@.no_duplicates()
        &&& forall|t: i64| #[trigger]
            cnt(self.like_counts@, t) == spec_count(self.relations@, CounterSel::Likes, t)
        &&& forall|t: i64| #[trigger]
            cnt(self.follower_counts@, t) == spec_count(self.relations@, CounterSel::Followers, t)
        &&& forall|a: i64| #[trigger]
            cnt(self.following_counts@, a) == spec_count(self.relations@, CounterSel::Following, a)
    }

    /// An empty store: no rows, every counter zero.
    pub fn new() -> (s: ToggleStore)
        ensures
            s.wf(),
            s.rel_set() == Set::<Relation>::empty(),
            forall|t: i64| #[trigger] s.like_count(t) == 0,
            forall|t: i64| #[trigger] s.follower_count(t) == 0,
            forall|a: i64| #[trigger] s.following_count(a) == 0,
    {
        let s = ToggleStore {
            relations: Vec::new(),
            like_counts: HashMap::new(),
            follower_counts: HashMap::new(),
            following_counts: HashMap::new(),
        };
        proof {
            assert(s.relations@.to_set() =~= Set::<Relation>::empty());
        }
        s
    }

    /// Reads whether the `(kind, actor, target)` row is present.
    pub fn has(&self, kind: ToggleKind, actor: i64, target: i64) -> (r: bool)
        ensures
            r == self.spec_has(kind, actor, target),
    {
        let rel = Relation { kind, actor, target };
        match self.find(rel) {
            Some(_) => true,
            None => false,
        }
    }

    /// Reads the like counter of target `t`.
    pub fn likes(&self, t: i64) -> (r: u64)
        ensures
            r as nat == self.like_count(t),
    {
        match self.like_counts.get(&t) {
            Some(v) => *v,
            None => 0,
        }
    }

    /// Reads the follower counter of target `t`.
    pub fn followers(&self, t: i64) -> (r: u64)
        ensures
            r as nat == self.follower_count(t),
    {
        match self.follower_counts.get(&t) {
            Some(v) => *v,
            None => 0,
        }
    }

    /// Reads the following counter of actor `a`.
    pub fn following(&self, a: i64) -> (r: u64)
        ensures
            r as nat == self.following_count(a),
    {
        match self.following_counts.get(&a) {
            Some(v) => *v,
            None => 0,
        }
    }

    fn find(&self, rel: Relation) -> (idx: Option<usize>)
        ensures
            match idx {
                Some(i) => i < self.relations@.len() && self.relations@[i as int] == rel,
                None => !self.relations@.contains(rel),
            },
    {
        let n = self.relations.len();
        let mut i: usize = 0;
        while i < n
            invariant
                n == self.relations@.len(),
                i <= n,
                forall|j: int| 0 <= j < i ==> self.relations@[j] != rel,
            decreases n - i,
        {
            if self.relations[i] == rel {
                return Some(i);
            }
            i = i + 1;
        }
        None
    }

    /// Sets the `(kind, actor, target)` relation to `desired` and keeps every
    /// counter synchronized, in one indivisible state transition.
    ///
    /// When the relation already has the desired state nothing is written and
    /// `changed` is false: the idempotent no-op is a success, never an error.
    pub fn toggle(
        &mut self,
        kind: ToggleKind,
        actor: i64,
        target: i64,
        desired: bool,
    ) -> (changed: bool)
        requires
            old(self).wf(),
        ensures
            final(self).wf(),
            changed == (old(self).spec_has(kind, actor, target) != desired),
            final(self).spec_has(kind, actor, target) == desired,
            final(self).rel_set() == spec_toggle(old(self).rel_set(), kind, actor, target, desired),
            forall|t: i64| #[trigger] final(self).like_count(t) as int == old(self).like_count(t)
                + count_delta(changed, kind == ToggleKind::Like && t == target, desired),
            forall|t: i64| #[trigger] final(self).follower_count(t) as int == old(
                self,
            ).follower_count(t) + count_delta(
                changed,
                kind == ToggleKind::Follow && t == target,
                desired,
            ),
            forall|a: i64| #[trigger] final(self).following_count(a) as int == old(
                self,
            ).following_count(a) + count_delta(
                changed,
                kind == ToggleKind::Follow && a == actor,
                desired,
            ),
            toggle_post(*old(self), *final(self), kind, actor, target, desired),
    {
        let rel = Relation { kind, actor, target };
        let found = self.find(rel);
        proof {
            if found is Some {
                assert(self.relations@.contains(rel));
            }
        }
        if desired == found.is_some() {
            proof {
                assert(self.rel_set() =~= spec_toggle(self.rel_set(), kind, actor, target, desired));
            }
            return false;
        }
        if desired {
            self.relations.push(rel);
            let n = self.relations.len();
            proof {
                lemma_count_push_all(old(self).relations@, rel);
                lemma_push_no_duplicates(old(self).relations@, rel);
                lemma_to_set_push(old(self).relations@, rel);
                assert(n == self.relations@.len());
                assert(self.relations@.contains(rel)) by {
                    assert(self.relations@.last() == rel);
                }
            }
            match kind {
                ToggleKind::Like => {
                    proof {
                        lemma_count_le_len(self.relations@, CounterSel::Likes, target);
                        assert(rel_matches(rel, CounterSel::Likes, target));
                    }
                    bump(&mut self.like_counts, target);
                },
                ToggleKind::Bookmark => {},
                ToggleKind::Follow => {
                    proof {
                        lemma_count_le_len(self.relations@, CounterSel::Followers, target);
                        lemma_count_le_len(self.relations@, CounterSel::Following, actor);
                        assert(rel_matches(rel, CounterSel::Followers, target));
                        assert(rel_matches(rel, CounterSel::Following, actor));
                    }
                    bump(&mut self.follower_counts, target);
                    bump(&mut self.following_counts, actor);
                },
            }
            proof {
                assert forall|t: i64| #[trigger] cnt(self.like_counts@, t) == spec_count(
                    self.relations@,
                    CounterSel::Likes,
                    t,
                ) by {
                    assert(cnt(old(self).like_counts@, t) == spec_count(
                        old(self).relations@,
                        CounterSel::Likes,
                        t,
                    ));
                    assert(spec_count(self.relations@, CounterSel::Likes, t) == spec_count(
                        old(self).relations@,
                        CounterSel::Likes,
                        t,
                    ) + (if rel_matches(rel, CounterSel::Likes, t) {
                        1nat
                    } else {
                        0nat
                    }));
                }
                assert forall|t: i64| #[trigger] cnt(self.follower_counts@, t) == spec_count(
                    self.relations@,
                    CounterSel::Followers,
                    t,
                ) by {
                    assert(cnt(old(self).follower_counts@, t) == spec_count(
                        old(self).relations@,
                        CounterSel::Followers,
                        t,
                    ));
                    assert(spec_count(self.relations@, CounterSel::Followers, t) == spec_count(
                        old(self).relations@,
                        CounterSel::Followers,
                        t,
                    ) + (if rel_matches(rel, CounterSel::Followers, t) {
                        1nat
                    } else {
                        0nat
                    }));
                }
                assert forall|a: i64| #[trigger] cnt(self.following_counts@, a) == spec_count(
                    self.relations@,
                    CounterSel::Following,
                    a,
                ) by {
                    assert(cnt(old(self).following_counts@, a) == spec_count(
                        old(self).relations@,
                        CounterSel::Following,
                        a,
                    ));
                    assert(spec_count(self.relations@, CounterSel::Following, a) == spec_count(
                        old(self).relations@,
                        CounterSel::Following,
                        a,
                    ) + (if rel_matches(rel, CounterSel::Following, a) {
                        1nat
                    } else {
                        0nat
                    }));
                }
            }
            true
        } else {
            let i = match found {
                Some(i) => i,
                None => {
                    proof {
                        assert(false);
                    }
                    0
                },
            };
            self.relations.remove(i);
            proof {
                lemma_count_remove_all(old(self).relations@, i as int);
                lemma_remove_no_duplicates(old(self).relations@, i as int);
                lemma_to_set_remove(old(self).relations@, i as int);
                assert(old(self).relations@[i as int] == rel);
                assert(!self.relations@.contains(rel));
            }
            match kind {
                ToggleKind::Like => {
                    proof {
                        assert(rel_matches(rel, CounterSel::Likes, target));
                        assert(spec_count(self.relations@, CounterSel::Likes, target) + 1
                            == spec_count(old(self).relations@, CounterSel::Likes, target));
                    }
                    drop_one(&mut self.like_counts, target);
                },
                ToggleKind::Bookmark => {},
                ToggleKind::Follow => {
                    proof {
                        assert(rel_matches(rel, CounterSel::Followers, target));
                        assert(rel_matches(rel, CounterSel::Following, actor));
                        assert(spec_count(self.relations@, CounterSel::Followers, target) + 1
                            == spec_count(old(self).relations@, CounterSel::Followers, target));
                        assert(spec_count(self.relations@, CounterSel::Following, actor) + 1
                            == spec_count(old(self).relations@, CounterSel::Following, actor));
                    }
                    drop_one(&mut self.follower_counts, target);
                    drop_one(&mut self.following_counts, actor);
                },
            }
            proof {
                assert forall|t: i64| #[trigger] cnt(self.like_counts@, t) == spec_count(
                    self.relations@,
                    CounterSel::Likes,
                    t,
                ) by {
                    assert(cnt(old(self).like_counts@, t) == spec_count(
                        old(self).relations@,
                        CounterSel::Likes,
                        t,
                    ));
                    assert(spec_count(self.relations@, CounterSel::Likes, t) + (if rel_matches(
                        rel,
                        CounterSel::Likes,
                        t,
                    ) {
                        1nat
                    } else {
                        0nat
                    }) == spec_count(old(self).relations@, CounterSel::Likes, t));
                }
                assert forall|t: i64| #[trigger] cnt(self.follower_counts@, t) == spec_count(
                    self.relations@,
                    CounterSel::Followers,
                    t,
                ) by {
                    assert(cnt(old(self).follower_counts@, t) == spec_count(
                        old(self).relations@,
                        CounterSel::Followers,
                        t,
                    ));
                    assert(spec_count(self.relations@, CounterSel::Followers, t) + (if rel_matches(
                        rel,
                        CounterSel::Followers,
                        t,
                    ) {
                        1nat
                    } else {
                        0nat
                    }) == spec_count(old(self).relations@, CounterSel::Followers, t));
                }
                assert forall|a: i64| #[trigger] cnt(self.following_counts@, a) == spec_count(
                    self.relations@,
                    CounterSel::Following,
                    a,
                ) by {
                    assert(cnt(old(self).following_counts@, a) == spec_count(
                        old(self).relations@,
                        CounterSel::Following,
                        a,
                    ));
                    assert(spec_count(self.relations@, CounterSel::Following, a) + (if rel_matches(
                        rel,
                        CounterSel::Following,
                        a,
                    ) {
                        1nat
                    } else {
                        0nat
                    }) == spec_count(old(self).relations@, CounterSel::Following, a));
                }
            }
            true
        }
    }
}



/// The full observable effect of one `toggle(kind, actor, target, desired)`
/// call, as a relation between the state before and the state after.
pub open spec fn toggle_post(
    pre: ToggleStore,
    post: ToggleStore,
    kind: ToggleKind,
    actor: i64,
    target: i64,
    desired: bool,
) -> bool {
    let changed = pre.spec_has(kind, actor, target) != desired;
    &&& post.wf()
    &&& post.spec_has(kind, actor, target) == desired
    &&& post.rel_set() == spec_toggle(pre.rel_set(), kind, actor, target, desired)
    &&& forall|t: i64| #[trigger] post.like_count(t) as int == pre.like_count(t) + count_delta(
        changed,
        kind == ToggleKind::Like && t == target,
        desired,
    )
    &&& forall|t: i64| #[trigger] post.follower_count(t) as int == pre.follower_count(t)
        + count_delta(changed, kind == ToggleKind::Follow && t == target, desired)
    &&& forall|a: i64| #[trigger] post.following_count(a) as int == pre.following_count(a)
        + count_delta(changed, kind == ToggleKind::Follow && a == actor, desired)
}

/// Law: toggling a relation to the same desired state twice in sequence
/// yields exactly the state of toggling it once — the second call changes
/// neither the relation set nor any counter.
pub proof fn lemma_toggle_idempotent(
    s0: ToggleStore,
    s1: ToggleStore,
    s2: ToggleStore,
    kind: ToggleKind,
    actor: i64,
    target: i64,
    desired: bool,
)
    requires
        toggle_post(s0, s1, kind, actor, target, desired),
        toggle_post(s1, s2, kind, actor, target, desired),
    ensures
        s2.rel_set() == s1.rel_set(),
        forall|t: i64| #[trigger] s2.like_count(t) == s1.like_count(t),
        forall|t: i64| #[trigger] s2.follower_count(t) == s1.follower_count(t),
        forall|a: i64| #[trigger] s2.following_count(a) == s1.following_count(a),
{
    assert(s2.rel_set() =~= s1.rel_set());
}

/// Law: enabling a like that was not present and then disabling it restores
/// the relation set and every counter to their pre-call values exactly.
/// (When the like was already present, the pair of calls instead removes it.)
pub proof fn lemma_like_roundtrip(
    s0: ToggleStore,
    s1: ToggleStore,
    s2: ToggleStore,
    actor: i64,
    target: i64,
)
    requires
        !s0.spec_has(ToggleKind::Like, actor, target),
        toggle_post(s0, s1, ToggleKind::Like, actor, target, true),
        toggle_post(s1, s2, ToggleKind::Like, actor, target, false),
    ensures
        s2.rel_set() == s0.rel_set(),
        forall|t: i64| #[trigger] s2.like_count(t) == s0.like_count(t),
        forall|t: i64| #[trigger] s2.follower_count(t) == s0.follower_count(t),
        forall|a: i64| #[trigger] s2.following_count(a) == s0.following_count(a),
{
    assert(s2.rel_set() =~= s0.rel_set());
}

/// Law: a serialized run of repeated `toggle(kind, actor, target, true)`
/// calls — the order into which concurrent callers must be serialized — has
/// exactly the observable effect of a single call: one matching relation row
/// exists afterwards, and each affected counter moves up by at most one,
/// never by the number of calls.
pub proof fn lemma_repeated_enable_counts_once(
    chain: Seq<ToggleStore>,
    kind: ToggleKind,
    actor: i64,
    target: i64,
)
    requires
        chain.len() >= 2,
        forall|i: int| 0 <= i < chain.len() - 1 ==> toggle_post(
            #[trigger] chain[i],
            chain[i + 1],
            kind,
            actor,
            target,
            true,
        ),
    ensures
        toggle_post(chain[0], chain.last(), kind, actor, target, true),
        chain.last().spec_has(kind, actor, target),
    decreases chain.len(),
{
    assert(toggle_post(chain[0], chain[1], kind, actor, target, true));
    if chain.len() == 2 {
    } else {
        let rest = chain.drop_first();
        assert forall|i: int| 0 <= i < rest.len() - 1 implies toggle_post(
            #[trigger] rest[i],
            rest[i + 1],
            kind,
            actor,
            target,
            true,
        ) by {
            assert(rest[i] == chain[i + 1]);
            assert(rest[i + 1] == chain[i + 2]);
            assert(toggle_post(chain[i + 1], chain[i + 2], kind, actor, target, true));
        }
        lemma_repeated_enable_counts_once(rest, kind, actor, target);
        assert(rest[0] == chain[1]);
        assert(rest.last() == chain.last());
        assert(chain.last().rel_set() =~= spec_toggle(
            chain[0].rel_set(),
            kind,
            actor,
            target,
            true,
        ));
    }
}

/// The exact counter movement of one toggle: one up when a row appears, one
/// down when a row disappears, nothing otherwise.
pub open spec fn count_delta(changed: bool, applies: bool, desired: bool) -> int {
    if changed && applies {
        if desired {
            1
        } else {
            -1
        }
    } else {
        0
    }
}

fn bump(m: &mut HashMap<i64, u64>, id: i64)
    requires
        cnt(old(m)@, id) < u64::MAX,
    ensures
        final(m)@ == old(m)@.insert(id, (cnt(old(m)@, id) + 1) as u64),
{
    let c = match m.get(&id) {
        Some(v) => *v,
        None => 0,
    };
    m.insert(id, c + 1);
}

fn drop_one(m: &mut HashMap<i64, u64>, id: i64)
    requires
        cnt(old(m)@, id) > 0,
    ensures
        final(m)@ == old(m)@.insert(id, (cnt(old(m)@, id) - 1) as u64),
{
    let c = match m.get(&id) {
        Some(v) => *v,
        None => 0,
    };
    m.insert(id, c - 1);
}

/// A counter never exceeds the number of rows.
proof fn lemma_count_le_len(rels: Seq<Relation>, sel: CounterSel, id: i64)
    ensures
        spec_count(rels, sel, id) <= rels.len(),
    decreases rels.len(),
{
    if rels.len() > 0 {
        lemma_count_le_len(rels.drop_last(), sel, id);
    }
}

/// Appending a row raises exactly the counters that count it.
proof fn lemma_count_push_all(rels: Seq<Relation>, r: Relation)
    ensures
        forall|sel: CounterSel, id: i64| #[trigger] spec_count(rels.push(r), sel, id)
            == spec_count(rels, sel, id) + (if rel_matches(r, sel, id) {
            1nat
        } else {
            0nat
        }),
{
    assert forall|sel: CounterSel, id: i64| #[trigger] spec_count(rels.push(r), sel, id)
        == spec_count(rels, sel, id) + (if rel_matches(r, sel, id) {
        1nat
    } else {
        0nat
    }) by {
        assert(rels.push(r).drop_last() =~= rels);
        assert(rels.push(r).last() == r);
    }
}

proof fn lemma_count_remove(rels: Seq<Relation>, i: int, sel: CounterSel, id: i64)
    requires
        0 <= i < rels.len(),
    ensures
        spec_count(rels.remove(i), sel, id) + (if rel_matches(rels[i], sel, id) {
            1nat
        } else {
            0nat
        }) == spec_count(rels, sel, id),
    decreases rels.len(),
{
    if i == rels.len() - 1 {
        assert(rels.remove(i) =~= rels.drop_last());
    } else {
        assert(rels.remove(i).drop_last() =~= rels.drop_last().remove(i));
        assert(rels.remove(i).last() == rels.last());
        lemma_count_remove(rels.drop_last(), i, sel, id);
    }
}

/// Removing a row lowers exactly the counters that counted it.
proof fn lemma_count_remove_all(rels: Seq<Relation>, i: int)
    requires
        0 <= i < rels.len(),
    ensures
        forall|sel: CounterSel, id: i64| #[trigger] spec_count(rels.remove(i), sel, id) + (
        if rel_matches(rels[i], sel, id) {
            1nat
        } else {
            0nat
        }) == spec_count(rels, sel, id),
{
    assert forall|sel: CounterSel, id: i64| #[trigger] spec_count(rels.remove(i), sel, id) + (
    if rel_matches(rels[i], sel, id) {
        1nat
    } else {
        0nat
    }) == spec_count(rels, sel, id) by {
        lemma_count_remove(rels, i, sel, id);
    }
}



} // verus!
