//! The DAG store: the sole owner of all validated units known locally.
//!
//! Units are kept in an arena in insertion order.  A unit is accepted only
//! after its signature, shape, parent resolution and round arithmetic have
//! been checked, so insertion order is a topological order and the graph is
//! acyclic by construction.  Re-insertion of a known unit is a no-op, and a
//! second unit by the same creator at an already populated round is stored
//! but reported as a fork, to be escalated to the alert subsystem.

use vstd::prelude::*;
use crate::units::{
    Unit, control_hash, spec_parent_count, spec_quorum, quorum,
};

verus! {

/// Why a unit was refused by validation.
#[derive(Clone, Copy, PartialEq, Eq, Structural, Debug)]
pub enum Reject {
    /// The claimed creator is not a committee member.
    UnknownSigner,
    /// The creator's signature does not cover the unit's content hash.
    BadSignature,
    /// The unit's parent slots, control hash or round-zero shape are broken.
    MalformedUnit,
    /// A referenced parent is not (yet) known to the store.
    MissingParent,
    /// A parent sits at the wrong round or creator slot, or the unit lacks
    /// a quorum of parents for its round.
    RoundMismatch,
}

/// What accepting a unit did to the store.
#[derive(Clone, Copy, PartialEq, Eq, Structural, Debug)]
pub enum InsertResponse {
    /// The unit was new and was added.
    Added,
    /// The unit was already present; the store is unchanged.
    Duplicate,
    /// The unit was added, but its creator already has a different unit at
    /// the same round: Byzantine evidence for the alert subsystem.
    Fork,
}

/// Some stored unit has content hash `h`.
pub open spec fn spec_contains_hash(s: Seq<Unit>, h: u64) -> bool {
    exists|i: int| 0 <= i < s.len() && (#[trigger] s[i]).hash() == h
}

/// Some stored unit has content hash `h`, sits in creator slot `c`, and is
/// one round below `round`: it can serve as parent `c` of a unit at `round`.
pub open spec fn spec_has_parent(s: Seq<Unit>, h: u64, c: int, round: u64) -> bool {
    exists|j: int|
        0 <= j < s.len() && (#[trigger] s[j]).hash() == h && s[j].creator == c && s[j].round + 1
            == round
}

/// Full validity of `u` against the units already in `s`: well-shaped,
/// signed, every filled parent slot resolves to a stored unit of the right
/// creator one round below, and rounds past zero carry a quorum of parents.
pub open spec fn spec_unit_ok(s: Seq<Unit>, u: Unit, n: u64) -> bool {
    &&& u.shape_ok(n)
    &&& u.signed_ok()
    &&& forall|c: int|
        0 <= c < u.parents@.len() && (#[trigger] u.parents@[c]) is Some ==> spec_has_parent(
            s,
            u.parents@[c]->Some_0,
            c,
            u.round,
        )
    &&& u.round > 0 ==> spec_parent_count(u.parents@) >= spec_quorum(n)
}

/// The store already holds a unit by `u`'s creator at `u`'s round.
pub open spec fn spec_conflicts(s: Seq<Unit>, u: Unit) -> bool {
    exists|i: int|
        0 <= i < s.len() && (#[trigger] s[i]).creator == u.creator && s[i].round == u.round
}

/// The complete validation decision for inserting `u` into a store holding
/// `s`, for a committee of `n` members.  Checks run in this fixed order.
pub open spec fn spec_validate(s: Seq<Unit>, u: Unit, n: u64) -> Result<InsertResponse, Reject> {
    if spec_contains_hash(s, u.hash()) {
        Ok(InsertResponse::Duplicate)
    } else if u.creator >= n {
        Err(Reject::UnknownSigner)
    } else if !u.shape_ok(n) {
        Err(Reject::MalformedUnit)
    } else if !u.signed_ok() {
        Err(Reject::BadSignature)
    } else if exists|c: int|
        0 <= c < u.parents@.len() && (#[trigger] u.parents@[c]) is Some && !spec_contains_hash(
            s,
            u.parents@[c]->Some_0,
        ) {
        Err(Reject::MissingParent)
    } else if exists|c: int|
        0 <= c < u.parents@.len() && (#[trigger] u.parents@[c]) is Some && !spec_has_parent(
            s,
            u.parents@[c]->Some_0,
            c,
            u.round,
        ) {
        Err(Reject::RoundMismatch)
    } else if u.round > 0 && spec_parent_count(u.parents@) < spec_quorum(n) {
        Err(Reject::RoundMismatch)
    } else if spec_conflicts(s, u) {
        Ok(InsertResponse::Fork)
    } else {
        Ok(InsertResponse::Added)
    }
}

/// The DAG store.
pub struct Store {
    /// Committee size.
    pub n_members: u64,
    /// The arena of validated units, in insertion order.  Callers go through
    /// the methods; the invariant `wf` speaks of this arena.
    pub units: Vec<Unit>,
}

impl View for Store {
    type V = Seq<Unit>;

    open spec fn view(&self) -> Seq<Unit> {
        self.units@
    }
}

impl Store {
    /// The store invariant: every stored unit was valid against the units
    /// before it (so insertion order is topological and the graph acyclic),
    /// and content hashes are unique.
    pub open spec fn wf(self) -> bool {
        &&& 0 < self.n_members < 0x10000
        &&& forall|i: int|
            0 <= i < self@.len() ==> spec_unit_ok(
                self@.subrange(0, i),
                #[trigger] self@[i],
                self.n_members,
            )
        &&& forall|i: int, j: int|
            0 <= i < j < self@.len() ==> (#[trigger] self@[i]).hash() != (#[trigger] self@[j]).hash()
    }

    /// An empty store for a committee of `n_members`.
    pub fn new(n_members: u64) -> (r: Store)
        requires
            0 < n_members < 0x10000,
        ensures
            r.wf(),
            r.n_members == n_members,
            r@ == Seq::<Unit>::empty(),
    {
        let units: Vec<Unit> = Vec::new();
        proof {
            assert(units@ =~= Seq::<Unit>::empty());
        }
        Store { n_members, units }
    }

    /// Number of stored units.
    pub fn len(&self) -> (r: usize)
        ensures
            r == self@.len(),
    {
        self.units.len()
    }

    /// The unit at arena position `i`.
    pub fn unit_at(&self, i: usize) -> (r: &Unit)
        requires
            i < self@.len(),
        ensures
            *r == self@[i as int],
    {
        &self.units[i]
    }

    /// Arena index of the unit with content hash `h`, if any.
    pub fn find_by_hash(&self, h: u64) -> (r: Option<usize>)
        ensures
            match r {
                Some(i) => i < self@.len() && self@[i as int].hash() == h && forall|j: int|
                    0 <= j < i ==> (#[trigger] self@[j]).hash() != h,
                None => !spec_contains_hash(self@, h),
            },
    {
        let mut i: usize = 0;
        while i < self.units.len()
            invariant
                i <= self@.len(),
                forall|j: int| 0 <= j < i ==> (#[trigger] self@[j]).hash() != h,
            decreases self@.len() - i,
        {
            if self.units[i].content_hash() == h {
                return Some(i);
            }
            i = i + 1;
        }
        None
    }

    /// The stored unit with content hash `h`, if any.
    pub fn get(&self, h: u64) -> (r: Option<&Unit>)
        ensures
            match r {
                Some(u) => u.hash() == h && self@.contains(*u),
                None => !spec_contains_hash(self@, h),
            },
    {
        match self.find_by_hash(h) {
            Some(i) => {
                proof {
                    assert(self@.contains(self@[i as int]));
                }
                Some(&self.units[i])
            },
            None => None,
        }
    }

    /// Validate `u` and, if it passes, append it to the arena.
    ///
    /// Re-inserting a unit the store already holds returns `Ok(Duplicate)`
    /// and leaves the store observably unchanged, so insertion is
    /// idempotent.  A second, different unit by the same creator at an
    /// already populated round is stored and reported as `Ok(Fork)`.
    #[verifier::loop_isolation(false)]
    #[verifier::rlimit(50)]
    pub fn insert(&mut self, u: Unit) -> (r: Result<InsertResponse, Reject>)
        requires
            old(self).wf(),
        ensures
            final(self).wf(),
            final(self).n_members == old(self).n_members,
            r == spec_validate(old(self)@, u, old(self).n_members),
            r == Ok::<InsertResponse, Reject>(InsertResponse::Added) || r == Ok::<
                InsertResponse,
                Reject,
            >(InsertResponse::Fork) ==> final(self)@ == old(self)@.push(u),
            !(r == Ok::<InsertResponse, Reject>(InsertResponse::Added) || r == Ok::<
                InsertResponse,
                Reject,
            >(InsertResponse::Fork)) ==> final(self)@ == old(self)@,
            spec_contains_hash(old(self)@, u.hash()) ==> r == Ok::<InsertResponse, Reject>(
                InsertResponse::Duplicate,
            ) && final(self)@ == old(self)@,
    {
        let h = u.content_hash();
        if self.find_by_hash(h).is_some() {
            return Ok(InsertResponse::Duplicate);
        }
        if u.creator >= self.n_members {
            return Err(Reject::UnknownSigner);
        }
        if u.parents.len() as u64 != self.n_members {
            return Err(Reject::MalformedUnit);
        }
        if control_hash(&u.parents) != u.control_hash {
            return Err(Reject::MalformedUnit);
        }
        if u.round == 0 {
            let mut c: usize = 0;
            while c < u.parents.len()
                invariant
                    c <= u.parents@.len(),
                    forall|k: int| 0 <= k < c ==> (#[trigger] u.parents@[k]) is None,
                decreases u.parents@.len() - c,
            {
                if u.parents[c].is_some() {
                    return Err(Reject::MalformedUnit);
                }
                c = c + 1;
            }
        }
        assert(u.shape_ok(self.n_members));
        if !(u.signature.signer == u.creator && u.signature.msg == h) {
            return Err(Reject::BadSignature);
        }
        assert(u.signed_ok());
        // First parent pass: every filled slot must resolve to a known unit.
        let mut c: usize = 0;
        while c < u.parents.len()
            invariant
                c <= u.parents@.len(),
                forall|k: int|
                    0 <= k < c && (#[trigger] u.parents@[k]) is Some ==> spec_contains_hash(
                        self@,
                        u.parents@[k]->Some_0,
                    ),
            decreases u.parents@.len() - c,
        {
            match u.parents[c] {
                Some(ph) => {
                    if self.find_by_hash(ph).is_none() {
                        return Err(Reject::MissingParent);
                    }
                },
                None => {},
            }
            c = c + 1;
        }
        // Second parent pass: each resolved parent must sit in the right
        // creator slot exactly one round below.
        let mut c: usize = 0;
        while c < u.parents.len()
            invariant
                c <= u.parents@.len(),
                forall|k: int|
                    0 <= k < c && (#[trigger] u.parents@[k]) is Some ==> spec_has_parent(
                        self@,
                        u.parents@[k]->Some_0,
                        k,
                        u.round,
                    ),
            decreases u.parents@.len() - c,
        {
            match u.parents[c] {
                Some(ph) => {
                    match self.find_by_hash(ph) {
                        Some(j) => {
                            let p = &self.units[j];
                            if !(p.creator == c as u64 && u.round >= 1 && p.round == u.round - 1) {
                                proof {
                                    assert forall|k: int|
                                        0 <= k < self@.len() && (#[trigger] self@[k]).hash()
                                            == ph implies k == j as int by {
                                        if k != j as int {
                                            assert(self@[k].hash() != self@[j as int].hash());
                                        }
                                    }
                                }
                                return Err(Reject::RoundMismatch);
                            }
                        },
                        None => {
                            proof {
                                assert(false);
                            }
                        },
                    }
                },
                None => {},
            }
            c = c + 1;
        }
        if u.round > 0 {
            if u.parent_count() < quorum(self.n_members) {
                return Err(Reject::RoundMismatch);
            }
        }
        assert(spec_unit_ok(self@, u, self.n_members));
        // Fork check: an existing unit by the same creator at the same round.
        let mut i: usize = 0;
        let mut fork: bool = false;
        while i < self.units.len()
            invariant
                i <= self@.len(),
                fork == exists|k: int|
                    0 <= k < i && (#[trigger] self@[k]).creator == u.creator && self@[k].round
                        == u.round,
            decreases self@.len() - i,
        {
            if self.units[i].creator == u.creator && self.units[i].round == u.round {
                fork = true;
            }
            i = i + 1;
        }
        proof {
            lemma_push_preserves_wf(*self, u);
        }
        self.units.push(u);
        if fork {
            Ok(InsertResponse::Fork)
        } else {
            Ok(InsertResponse::Added)
        }
    }
}

/// Unit at arena position `a` is reachable from unit at position `d` by
/// following parent links (reflexively).  Parents of a stored unit sit
/// strictly earlier in the arena, so the recursion descends the arena.
pub open spec fn spec_ancestor(s: Seq<Unit>, a: int, d: int) -> bool
    decreases d,
{
    a == d || (0 <= d < s.len() && exists|c: int|
        0 <= c < s[d].parents@.len() && (#[trigger] s[d].parents@[c]) is Some && exists|k: int|
            0 <= k < d && (#[trigger] s[k]).hash() == s[d].parents@[c]->Some_0 && spec_ancestor(
                s,
                a,
                k,
            ))
}

/// The unit with hash `ha` is an ancestor of the unit with hash `hd`.
pub open spec fn spec_ancestor_hash(s: Seq<Unit>, ha: u64, hd: u64) -> bool {
    exists|i: int, j: int|
        0 <= i < s.len() && 0 <= j < s.len() && (#[trigger] s[i]).hash() == ha && (
        #[trigger] s[j]).hash() == hd && spec_ancestor(s, i, j)
}

impl Store {
    /// Ancestry between arena positions.
    #[verifier::loop_isolation(false)]
    #[verifier::rlimit(50)]
    pub fn is_ancestor_idx(&self, a: usize, d: usize) -> (r: bool)
        requires
            self.wf(),
            a < self@.len(),
            d < self@.len(),
        ensures
            r == spec_ancestor(self@, a as int, d as int),
        decreases d,
    {
        if a == d {
            return true;
        }
        assert(spec_unit_ok(self@.subrange(0, d as int), self@[d as int], self.n_members));
        let mut c: usize = 0;
        let n_slots = self.units[d].parents.len();
        while c < n_slots
            invariant
                c <= self@[d as int].parents@.len(),
                n_slots == self@[d as int].parents@.len(),
                forall|k: int|
                    0 <= k < c && (#[trigger] self@[d as int].parents@[k]) is Some
                        ==> !(exists|j: int| 0 <= j < d && (#[trigger] self@[j]).hash() == self@[d as int].parents@[k]->Some_0 && spec_ancestor(self@, a as int, j)),
            decreases n_slots - c,
        {
            let ph_opt = self.units[d].parents[c];
            match ph_opt {
                Some(ph) => {
                    proof {
                        assert(spec_has_parent(
                            self@.subrange(0, d as int),
                            ph,
                            c as int,
                            self@[d as int].round,
                        ));
                    }
                    match self.find_by_hash(ph) {
                        Some(j) => {
                            proof {
                                let w = choose|w: int|
                                    0 <= w < d && (#[trigger] self@.subrange(0, d as int)[w]).hash()
                                        == ph;
                                assert(self@[w].hash() == ph);
                                assert forall|k: int|
                                    0 <= k < self@.len() && (#[trigger] self@[k]).hash()
                                        == ph implies k == j as int by {
                                    if k != j as int {
                                        assert(self@[k].hash() != self@[j as int].hash());
                                    }
                                }
                                assert(j < d);
                            }
                            if self.is_ancestor_idx(a, j) {
                                return true;
                            }
                        },
                        None => {
                            proof {
                                let w = choose|w: int|
                                    0 <= w < d && (#[trigger] self@.subrange(0, d as int)[w]).hash()
                                        == ph;
                                assert(self@[w].hash() == ph);
                                assert(false);
                            }
                        },
                    }
                },
                None => {},
            }
            c = c + 1;
        }
        return false;
    }

    /// Ancestry between content hashes; false when either hash is unknown.
    #[verifier::loop_isolation(false)]
    pub fn is_ancestor(&self, ha: u64, hd: u64) -> (r: bool)
        requires
            self.wf(),
        ensures
            r == spec_ancestor_hash(self@, ha, hd),
    {
        let ia = match self.find_by_hash(ha) {
            Some(i) => i,
            None => {
                return false;
            },
        };
        let id = match self.find_by_hash(hd) {
            Some(i) => i,
            None => {
                return false;
            },
        };
        let r = self.is_ancestor_idx(ia, id);
        proof {
            assert forall|i: int, j: int|
                0 <= i < self@.len() && 0 <= j < self@.len() && (#[trigger] self@[i]).hash() == ha
                    && (#[trigger] self@[j]).hash() == hd implies i == ia as int && j
                == id as int by {
                if i != ia as int {
                    assert(self@[i].hash() != self@[ia as int].hash());
                }
                if j != id as int {
                    assert(self@[j].hash() != self@[id as int].hash());
                }
            }
        }
        r
    }

    /// Arena positions of all units at round `r`, in arena order.
    #[verifier::loop_isolation(false)]
    pub fn units_of_round(&self, r: u64) -> (out: Vec<usize>)
        ensures
            forall|k: int|
                0 <= k < out@.len() ==> (#[trigger] out@[k]) < self@.len() && self@[
                    out@[k] as int
                ].round == r,
            forall|i: int|
                0 <= i < self@.len() && (#[trigger] self@[i]).round == r ==> exists|k: int|
                    0 <= k < out@.len() && (#[trigger] out@[k]) == i,
            forall|k1: int, k2: int|
                0 <= k1 < k2 < out@.len() ==> (#[trigger] out@[k1]) < (#[trigger] out@[k2]),
    {
        let mut out: Vec<usize> = Vec::new();
        let mut i: usize = 0;
        while i < self.units.len()
            invariant
                i <= self@.len(),
                forall|k: int|
                    0 <= k < out@.len() ==> (#[trigger] out@[k]) < i && self@[
                        out@[k] as int
                    ].round == r,
                forall|j: int|
                    0 <= j < i && (#[trigger] self@[j]).round == r ==> exists|k: int|
                        0 <= k < out@.len() && (#[trigger] out@[k]) == j,
                forall|k1: int, k2: int|
                    0 <= k1 < k2 < out@.len() ==> (#[trigger] out@[k1]) < (#[trigger] out@[k2]),
            decreases self@.len() - i,
        {
            if self.units[i].round == r {
                let ghost old_out = out@;
                out.push(i);
                proof {
                    assert(out@ == old_out.push(i as usize));
                    assert(out@[out@.len() - 1] == i);
                    assert forall|j: int|
                        0 <= j < i + 1 && (#[trigger] self@[j]).round == r implies exists|k: int|
                        0 <= k < out@.len() && (#[trigger] out@[k]) == j by {
                        if j < i {
                            let k = choose|k: int|
                                0 <= k < old_out.len() && (#[trigger] old_out[k]) == j;
                            assert(out@[k] == j);
                        } else {
                            assert(out@[out@.len() - 1] == j);
                        }
                    }
                }
            }
            i = i + 1;
        }
        out
    }

    /// Arena positions of all units by creator `c` at round `r`, in arena
    /// order: more than one only when `c` has forked.
    #[verifier::loop_isolation(false)]
    pub fn units_of_creator_round(&self, c: u64, r: u64) -> (out: Vec<usize>)
        ensures
            forall|k: int|
                0 <= k < out@.len() ==> (#[trigger] out@[k]) < self@.len() && self@[
                    out@[k] as int
                ].round == r && self@[out@[k] as int].creator == c,
            forall|i: int|
                0 <= i < self@.len() && (#[trigger] self@[i]).round == r && self@[i].creator == c
                    ==> exists|k: int| 0 <= k < out@.len() && (#[trigger] out@[k]) == i,
            forall|k1: int, k2: int|
                0 <= k1 < k2 < out@.len() ==> (#[trigger] out@[k1]) < (#[trigger] out@[k2]),
    {
        let mut out: Vec<usize> = Vec::new();
        let mut i: usize = 0;
        while i < self.units.len()
            invariant
                i <= self@.len(),
                forall|k: int|
                    0 <= k < out@.len() ==> (#[trigger] out@[k]) < i && self@[
                        out@[k] as int
                    ].round == r && self@[out@[k] as int].creator == c,
                forall|j: int|
                    0 <= j < i && (#[trigger] self@[j]).round == r && self@[j].creator == c
                        ==> exists|k: int| 0 <= k < out@.len() && (#[trigger] out@[k]) == j,
                forall|k1: int, k2: int|
                    0 <= k1 < k2 < out@.len() ==> (#[trigger] out@[k1]) < (#[trigger] out@[k2]),
            decreases self@.len() - i,
        {
            if self.units[i].round == r && self.units[i].creator == c {
                let ghost old_out = out@;
                out.push(i);
                proof {
                    assert(out@ == old_out.push(i as usize));
                    assert(out@[out@.len() - 1] == i);
                    assert forall|j: int|
                        0 <= j < i + 1 && (#[trigger] self@[j]).round == r && self@[j].creator
                            == c implies exists|k: int|
                        0 <= k < out@.len() && (#[trigger] out@[k]) == j by {
                        if j < i {
                            let k = choose|k: int|
                                0 <= k < old_out.len() && (#[trigger] old_out[k]) == j;
                            assert(out@[k] == j);
                        } else {
                            assert(out@[out@.len() - 1] == j);
                        }
                    }
                }
            }
            i = i + 1;
        }
        out
    }

    /// The canonical unit of creator `c` at round `r`: the stored one with
    /// the least content hash, so every node that knows the same units picks
    /// the same representative even across forks.
    #[verifier::loop_isolation(false)]
    pub fn canonical_unit(&self, c: u64, r: u64) -> (out: Option<usize>)
        ensures
            match out {
                Some(i) => i < self@.len() && self@[i as int].creator == c && self@[
                    i as int
                ].round == r && forall|j: int|
                    0 <= j < self@.len() && (#[trigger] self@[j]).creator == c && self@[j].round
                        == r ==> self@[i as int].hash() <= self@[j].hash(),
                None => forall|j: int|
                    0 <= j < self@.len() ==> !((#[trigger] self@[j]).creator == c && self@[j].round
                        == r),
            },
    {
        let mut best: Option<usize> = None;
        let mut i: usize = 0;
        while i < self.units.len()
            invariant
                i <= self@.len(),
                match best {
                    Some(b) => b < i && self@[b as int].creator == c && self@[b as int].round == r
                        && forall|j: int|
                        0 <= j < i && (#[trigger] self@[j]).creator == c && self@[j].round == r
                            ==> self@[b as int].hash() <= self@[j].hash(),
                    None => forall|j: int|
                        0 <= j < i ==> !((#[trigger] self@[j]).creator == c && self@[j].round == r),
                },
            decreases self@.len() - i,
        {
            if self.units[i].creator == c && self.units[i].round == r {
                let h = self.units[i].content_hash();
                match best {
                    Some(b) => {
                        if h < self.units[b].content_hash() {
                            best = Some(i);
                        }
                    },
                    None => {
                        best = Some(i);
                    },
                }
            }
            i = i + 1;
        }
        best
    }
}

/// Appending a unit that validated against the whole arena preserves the
/// store invariant.
proof fn lemma_push_preserves_wf(s: Store, u: Unit)
    requires
        s.wf(),
        spec_unit_ok(s@, u, s.n_members),
        !spec_contains_hash(s@, u.hash()),
    ensures
        forall|i: int|
            0 <= i < s@.push(u).len() ==> spec_unit_ok(
                s@.push(u).subrange(0, i),
                #[trigger] s@.push(u)[i],
                s.n_members,
            ),
        forall|i: int, j: int|
            0 <= i < j < s@.push(u).len() ==> (#[trigger] s@.push(u)[i]).hash() != (
            #[trigger] s@.push(u)[j]).hash(),
{
    let t = s@.push(u);
    assert forall|i: int| 0 <= i < t.len() implies spec_unit_ok(
        t.subrange(0, i),
        #[trigger] t[i],
        s.n_members,
    ) by {
        assert(t.subrange(0, i) =~= s@.subrange(0, i));
        if i < s@.len() {
            assert(spec_unit_ok(s@.subrange(0, i), s@[i], s.n_members));
            assert(t[i] == s@[i]);
        } else {
            assert(t[i] == u);
            assert(s@.subrange(0, i) =~= s@);
        }
    }
    assert forall|i: int, j: int| 0 <= i < j < t.len() implies (#[trigger] t[i]).hash() != (
    #[trigger] t[j]).hash() by {
        if j < s@.len() {
            assert(s@[i].hash() != s@[j].hash());
        } else {
            assert(t[j] == u);
            if t[i].hash() == u.hash() {
                assert(spec_contains_hash(s@, u.hash()));
            }
        }
    }
}

/// Idempotence at the level of the validation decision: a unit accepted
/// into the store is classified as a duplicate, and therefore a no-op, on
/// any later insertion.
pub proof fn lemma_insert_idempotent(s: Seq<Unit>, u: Unit, n: u64)
    requires
        spec_validate(s, u, n) == Ok::<InsertResponse, Reject>(InsertResponse::Added)
            || spec_validate(s, u, n) == Ok::<InsertResponse, Reject>(InsertResponse::Fork),
    ensures
        spec_validate(s.push(u), u, n) == Ok::<InsertResponse, Reject>(InsertResponse::Duplicate),
{
    assert(s.push(u)[s.len() as int] == u);
    assert(spec_contains_hash(s.push(u), u.hash()));
}

} // verus!
