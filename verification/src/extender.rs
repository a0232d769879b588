//! The extender: computes the agreed total order over the DAG.
//!
//! Once the DAG is populated far enough past a round — a quorum of creators
//! have units one round above it, the lookahead margin tolerating
//! asynchrony — the extender elects that round's head unit by a
//! deterministic, DAG-structural, fork-aware rule (the least (creator,
//! hash) among the round's non-excluded units), then linearizes all
//! not-yet-ordered, non-excluded ancestors of the head in strictly
//! increasing (round, creator index, hash) order.  Every node that knows
//! the same units, exclusions and ordered prefix computes the same batch,
//! and an emitted batch is never revised.

use vstd::prelude::*;
use crate::units::{Unit, spec_quorum, quorum};
use crate::dag::{Store, spec_ancestor};
use crate::creator::spec_present_count;

verus! {

/// Whether `u` is excluded from ordering: a confirmed alert named its
/// creator, and `u` lies past the fork round.
pub open spec fn spec_excluded(excl: Seq<Option<u64>>, u: Unit) -> bool {
    u.creator < excl.len() && excl[u.creator as int] is Some && u.round > excl[
        u.creator as int
    ]->Some_0
}

/// Head election order within a round: by creator index, then content hash.
pub open spec fn spec_better_head(a: Unit, b: Unit) -> bool {
    a.creator < b.creator || (a.creator == b.creator && a.hash() < b.hash())
}

/// The linearization order: by round, then creator index, then content
/// hash.  Distinct stored units have distinct hashes, so this is a strict
/// total order on them.
pub open spec fn spec_key_lt(a: Unit, b: Unit) -> bool {
    ||| a.round < b.round
    ||| (a.round == b.round && a.creator < b.creator)
    ||| (a.round == b.round && a.creator == b.creator && a.hash() < b.hash())
}

/// The elected head among the first `m` arena entries: the unit of round
/// `r`, not excluded, least by `spec_better_head`.
pub open spec fn spec_head_upto(s: Seq<Unit>, r: u64, excl: Seq<Option<u64>>, m: int) -> Option<
    int,
>
    decreases m,
{
    if m <= 0 {
        None
    } else {
        let prev = spec_head_upto(s, r, excl, m - 1);
        let j = m - 1;
        if 0 <= j < s.len() && s[j].round == r && !spec_excluded(excl, s[j]) {
            match prev {
                None => Some(j),
                Some(b) => if spec_better_head(s[j], s[b]) {
                    Some(j)
                } else {
                    Some(b)
                },
            }
        } else {
            prev
        }
    }
}

/// The elected head of round `r`, if the round has any eligible unit.
pub open spec fn spec_head(s: Seq<Unit>, r: u64, excl: Seq<Option<u64>>) -> Option<int> {
    spec_head_upto(s, r, excl, s.len() as int)
}

/// Arena position `i` belongs to the next batch for head `head`: an
/// ancestor of the head, not excluded, not ordered before.
#[verifier::opaque]
pub open spec fn spec_candidate(
    s: Seq<Unit>,
    excl: Seq<Option<u64>>,
    done: Seq<u64>,
    head: int,
    i: int,
) -> bool {
    &&& 0 <= i < s.len()
    &&& spec_ancestor(s, i, head)
    &&& !spec_excluded(excl, s[i])
    &&& !done.contains(s[i].hash())
}

/// A round may be finalized once a quorum of creators have units one round
/// above it: the lookahead margin.
pub open spec fn spec_margin_met(s: Seq<Unit>, n: u64, r: u64) -> bool {
    r < 0xffffffffffffffff && spec_present_count(s, n, (r + 1) as u64) >= spec_quorum(n)
}

/// How many entries of `s` are true.
pub open spec fn spec_true_count(s: Seq<bool>) -> nat
    decreases s.len(),
{
    if s.len() == 0 {
        0
    } else {
        spec_true_count(s.drop_last()) + if s.last() {
            1nat
        } else {
            0nat
        }
    }
}

proof fn lemma_true_count_update(s: Seq<bool>, i: int)
    requires
        0 <= i < s.len(),
        !s[i],
    ensures
        spec_true_count(s.update(i, true)) == spec_true_count(s) + 1,
    decreases s.len(),
{
    let t = s.update(i, true);
    if i == s.len() - 1 {
        assert(t.drop_last() =~= s.drop_last());
    } else {
        assert(t.drop_last() =~= s.drop_last().update(i, true));
        assert(t.last() == s.last());
        lemma_true_count_update(s.drop_last(), i);
    }
}

proof fn lemma_true_count_full(s: Seq<bool>)
    requires
        spec_true_count(s) == s.len(),
    ensures
        forall|i: int| 0 <= i < s.len() ==> s[i],
    decreases s.len(),
{
    if s.len() > 0 {
        assert(spec_true_count(s.drop_last()) <= s.drop_last().len()) by {
            lemma_true_count_le_len(s.drop_last());
        }
        lemma_true_count_full(s.drop_last());
        assert forall|i: int| 0 <= i < s.len() implies s[i] by {
            if i < s.len() - 1 {
                assert(s.drop_last()[i]);
            }
        }
    }
}

proof fn lemma_true_count_le_len(s: Seq<bool>)
    ensures
        spec_true_count(s) <= s.len(),
    decreases s.len(),
{
    if s.len() > 0 {
        lemma_true_count_le_len(s.drop_last());
    }
}

/// The ordering state machine of one node.
pub struct Extender {
    /// Committee size.
    pub n_members: u64,
    /// Content hashes of all units ordered so far, in emission order.
    /// Emitted batches are never revised: this only grows by appending.
    pub ordered: Vec<u64>,
    /// Per creator, the fork round of a confirmed alert, if any: units by
    /// that creator past that round are excluded from ordering.
    pub exclusions: Vec<Option<u64>>,
    /// The next round to finalize.
    pub next_round: u64,
}

impl Extender {
    pub open spec fn wf(self) -> bool {
        &&& 0 < self.n_members < 0x10000
        &&& self.exclusions@.len() == self.n_members
    }

    /// A fresh extender: nothing ordered, nobody excluded, round zero next.
    pub fn new(n_members: u64) -> (r: Extender)
        requires
            0 < n_members < 0x10000,
        ensures
            r.wf(),
            r.n_members == n_members,
            r.ordered@.len() == 0,
            r.next_round == 0,
            forall|c: int| 0 <= c < r.exclusions@.len() ==> (#[trigger] r.exclusions@[c]) is None,
    {
        let mut exclusions: Vec<Option<u64>> = Vec::new();
        let mut c: u64 = 0;
        while c < n_members
            invariant
                c <= n_members,
                exclusions@.len() == c,
                forall|k: int| 0 <= k < c ==> (#[trigger] exclusions@[k]) is None,
            decreases n_members - c,
        {
            exclusions.push(None);
            c = c + 1;
        }
        Extender { n_members, ordered: Vec::new(), exclusions, next_round: 0 }
    }

    /// Install a confirmed alert: exclude `creator`'s units past
    /// `fork_round` from all batches emitted from now on.  An earlier fork
    /// point for the same creator is kept.
    pub fn exclude(&mut self, creator: u64, fork_round: u64)
        requires
            old(self).wf(),
            creator < old(self).n_members,
        ensures
            final(self).wf(),
            final(self).n_members == old(self).n_members,
            final(self).ordered == old(self).ordered,
            final(self).next_round == old(self).next_round,
            final(self).exclusions@ == old(self).exclusions@.update(
                creator as int,
                Some(
                    match old(self).exclusions@[creator as int] {
                        Some(prior) => if prior < fork_round {
                            prior
                        } else {
                            fork_round
                        },
                        None => fork_round,
                    },
                ),
            ),
    {
        let prior = self.exclusions[creator as usize];
        let bound = match prior {
            Some(p) => if p < fork_round {
                p
            } else {
                fork_round
            },
            None => fork_round,
        };
        self.exclusions.set(creator as usize, Some(bound));
    }

    /// Whether `u` is currently excluded from ordering.
    pub fn is_excluded(&self, u: &Unit) -> (r: bool)
        requires
            self.wf(),
        ensures
            r == spec_excluded(self.exclusions@, *u),
    {
        if u.creator < self.exclusions.len() as u64 {
            match self.exclusions[u.creator as usize] {
                Some(fr) => u.round > fr,
                None => false,
            }
        } else {
            false
        }
    }

    /// Whether hash `h` was already ordered.
    pub fn ordered_contains(&self, h: u64) -> (r: bool)
        ensures
            r == self.ordered@.contains(h),
    {
        let mut i: usize = 0;
        while i < self.ordered.len()
            invariant
                i <= self.ordered@.len(),
                forall|j: int| 0 <= j < i ==> self.ordered@[j] != h,
            decreases self.ordered@.len() - i,
        {
            if self.ordered[i] == h {
                proof {
                    assert(self.ordered@[i as int] == h);
                }
                return true;
            }
            i = i + 1;
        }
        false
    }

    /// Elect the head of the round to finalize next.
    #[verifier::loop_isolation(false)]
    pub fn find_head(&self, dag: &Store) -> (r: Option<usize>)
        requires
            self.wf(),
        ensures
            match r {
                Some(i) => i < dag@.len() && Some(i as int) == spec_head(
                    dag@,
                    self.next_round,
                    self.exclusions@,
                ),
                None => spec_head(dag@, self.next_round, self.exclusions@) is None,
            },
    {
        let mut best: Option<usize> = None;
        let mut i: usize = 0;
        while i < dag.len()
            invariant
                i <= dag@.len(),
                match best {
                    Some(b) => b < dag@.len() && Some(b as int) == spec_head_upto(
                        dag@,
                        self.next_round,
                        self.exclusions@,
                        i as int,
                    ),
                    None => spec_head_upto(
                        dag@,
                        self.next_round,
                        self.exclusions@,
                        i as int,
                    ) is None,
                },
            decreases dag@.len() - i,
        {
            let u = dag.unit_at(i);
            if u.round == self.next_round && !self.is_excluded(u) {
                match best {
                    Some(b) => {
                        let ub = dag.unit_at(b);
                        if u.creator < ub.creator || (u.creator == ub.creator && u.content_hash()
                            < ub.content_hash()) {
                            best = Some(i);
                        }
                    },
                    None => {
                        best = Some(i);
                    },
                }
            }
            i = i + 1;
        }
        best
    }
    /// The least remaining batch candidate by the linearization key.
    #[verifier::loop_isolation(false)]
    #[verifier::rlimit(100)]
    fn find_best_candidate(&self, dag: &Store, head: usize, taken: &Vec<bool>) -> (r: Option<
        usize,
    >)
        requires
            self.wf(),
            dag.wf(),
            head < dag@.len(),
            taken@.len() == dag@.len(),
        ensures
            match r {
                Some(i) => i < dag@.len() && spec_candidate(
                    dag@,
                    self.exclusions@,
                    self.ordered@,
                    head as int,
                    i as int,
                ) && !taken@[i as int] && forall|j: int|
                    0 <= j < dag@.len() && j != i && spec_candidate(
                        dag@,
                        self.exclusions@,
                        self.ordered@,
                        head as int,
                        j,
                    ) && !taken@[j] ==> spec_key_lt(dag@[i as int], #[trigger] dag@[j]),
                None => forall|j: int|
                    0 <= j < dag@.len() ==> !(spec_candidate(
                        dag@,
                        self.exclusions@,
                        self.ordered@,
                        head as int,
                        j,
                    ) && !(#[trigger] taken@[j])),
            },
    {
        let mut best: Option<usize> = None;
        let mut i: usize = 0;
        while i < dag.len()
            invariant
                i <= dag@.len(),
                match best {
                    Some(b) => b < i && spec_candidate(
                        dag@,
                        self.exclusions@,
                        self.ordered@,
                        head as int,
                        b as int,
                    ) && !taken@[b as int] && forall|j: int|
                        0 <= j < i && j != b && spec_candidate(
                            dag@,
                            self.exclusions@,
                            self.ordered@,
                            head as int,
                            j,
                        ) && !taken@[j] ==> spec_key_lt(dag@[b as int], #[trigger] dag@[j]),
                    None => forall|j: int|
                        0 <= j < i ==> !(spec_candidate(
                            dag@,
                            self.exclusions@,
                            self.ordered@,
                            head as int,
                            j,
                        ) && !(#[trigger] taken@[j])),
                },
            decreases dag@.len() - i,
        {
            let u = dag.unit_at(i);
            let h = u.content_hash();
            let is_cand: bool = if taken[i] {
                false
            } else if !dag.is_ancestor_idx(i, head) {
                false
            } else if self.is_excluded(u) {
                false
            } else if self.ordered_contains(h) {
                false
            } else {
                true
            };
            proof {
                reveal(spec_candidate);
                assert(is_cand == (spec_candidate(
                    dag@,
                    self.exclusions@,
                    self.ordered@,
                    head as int,
                    i as int,
                ) && !taken@[i as int]));
            }
            if is_cand {
                match best {
                    Some(b) => {
                        let ub = dag.unit_at(b);
                        let hb = ub.content_hash();
                        let lt = u.round < ub.round || (u.round == ub.round && (u.creator
                            < ub.creator || (u.creator == ub.creator && h < hb)));
                        if lt {
                            best = Some(i);
                        } else {
                            proof {
                                assert(dag@[b as int].hash() != dag@[i as int].hash());
                                assert(spec_key_lt(dag@[b as int], dag@[i as int]));
                            }
                        }
                    },
                    None => {
                        best = Some(i);
                    },
                }
            }
            i = i + 1;
        }
        best
    }

    /// Linearize the head's not-yet-ordered, non-excluded ancestors in
    /// strictly increasing (round, creator, hash) order, by repeatedly
    /// extracting the least remaining candidate.
    #[verifier::loop_isolation(false)]
    #[verifier::rlimit(100)]
    fn collect_batch(&self, dag: &Store, head: usize) -> (batch: Vec<usize>)
        requires
            self.wf(),
            dag.wf(),
            head < dag@.len(),
        ensures
            forall|k: int|
                0 <= k < batch@.len() ==> (#[trigger] batch@[k]) < dag@.len() && spec_candidate(
                    dag@,
                    self.exclusions@,
                    self.ordered@,
                    head as int,
                    batch@[k] as int,
                ),
            forall|i: int|
                0 <= i < dag@.len() && spec_candidate(
                    dag@,
                    self.exclusions@,
                    self.ordered@,
                    head as int,
                    i,
                ) ==> exists|k: int| 0 <= k < batch@.len() && (#[trigger] batch@[k]) == i,
            forall|k1: int, k2: int|
                0 <= k1 < k2 < batch@.len() ==> spec_key_lt(
                    dag@[(#[trigger] batch@[k1]) as int],
                    dag@[(#[trigger] batch@[k2]) as int],
                ),
    {
        let mut batch: Vec<usize> = Vec::new();
        let mut taken: Vec<bool> = Vec::new();
        let mut z: usize = 0;
        while z < dag.len()
            invariant
                z <= dag@.len(),
                taken@.len() == z,
                forall|j: int| 0 <= j < z ==> !(#[trigger] taken@[j]),
            decreases dag@.len() - z,
        {
            taken.push(false);
            z = z + 1;
        }
        proof {
            lemma_true_count_all_false(taken@);
        }
        let mut t: usize = 0;
        let mut done: bool = false;
        while t < dag.len() && !done
            invariant
                t <= dag@.len(),
                taken@.len() == dag@.len(),
                spec_true_count(taken@) == batch@.len(),
                batch@.len() == t || done,
                batch@.len() <= t,
                forall|k: int|
                    0 <= k < batch@.len() ==> (#[trigger] batch@[k]) < dag@.len()
                        && spec_candidate(
                        dag@,
                        self.exclusions@,
                        self.ordered@,
                        head as int,
                        batch@[k] as int,
                    ) && taken@[batch@[k] as int],
                forall|i: int|
                    0 <= i < dag@.len() && #[trigger] taken@[i] ==> exists|k: int|
                        0 <= k < batch@.len() && (#[trigger] batch@[k]) == i,
                forall|k1: int, k2: int|
                    0 <= k1 < k2 < batch@.len() ==> spec_key_lt(
                        dag@[(#[trigger] batch@[k1]) as int],
                        dag@[(#[trigger] batch@[k2]) as int],
                    ),
                forall|k: int, j: int|
                    0 <= k < batch@.len() && 0 <= j < dag@.len() && spec_candidate(
                        dag@,
                        self.exclusions@,
                        self.ordered@,
                        head as int,
                        j,
                    ) && !taken@[j] ==> spec_key_lt(
                        dag@[(#[trigger] batch@[k]) as int],
                        #[trigger] dag@[j],
                    ),
                done ==> forall|j: int|
                    0 <= j < dag@.len() ==> !(spec_candidate(
                        dag@,
                        self.exclusions@,
                        self.ordered@,
                        head as int,
                        j,
                    ) && !(#[trigger] taken@[j])),
            decreases dag@.len() - t, if done { 0int } else { 1int },
        {
            match self.find_best_candidate(dag, head, &taken) {
                None => {
                    done = true;
                },
                Some(i) => {
                    let ghost old_batch = batch@;
                    let ghost old_taken = taken@;
                    proof {
                        lemma_true_count_update(taken@, i as int);
                    }
                    batch.push(i);
                    taken.set(i, true);
                    proof {
                        assert(batch@ == old_batch.push(i));
                        assert(batch@[batch@.len() - 1] == i);
                        assert forall|ii: int|
                            0 <= ii < dag@.len() && #[trigger] taken@[ii] implies exists|k: int|
                            0 <= k < batch@.len() && (#[trigger] batch@[k]) == ii by {
                            if ii == i as int {
                                assert(batch@[batch@.len() - 1] == ii);
                            } else {
                                assert(old_taken[ii]);
                                let k = choose|k: int|
                                    0 <= k < old_batch.len() && (#[trigger] old_batch[k]) == ii;
                                assert(batch@[k] == ii);
                            }
                        }
                    }
                    t = t + 1;
                },
            }
        }
        proof {
            if !done {
                assert(batch@.len() == t && t == dag@.len());
                lemma_true_count_full(taken@);
            }
            assert forall|i: int|
                0 <= i < dag@.len() && spec_candidate(
                    dag@,
                    self.exclusions@,
                    self.ordered@,
                    head as int,
                    i,
                ) implies exists|k: int| 0 <= k < batch@.len() && (#[trigger] batch@[k]) == i by {
                assert(taken@[i]);
            }
        }
        batch
    }

    /// Whether the lookahead margin for the round to finalize next is met.
    #[verifier::loop_isolation(false)]
    pub fn margin_met(&self, dag: &Store) -> (r: bool)
        requires
            self.wf(),
            dag.wf(),
            dag.n_members == self.n_members,
        ensures
            r == spec_margin_met(dag@, self.n_members, self.next_round),
    {
        let n = self.n_members;
        if self.next_round == 0xffffffffffffffff {
            return false;
        }
        let nr1 = self.next_round + 1;
        let mut c: u64 = 0;
        let mut count: u64 = 0;
        while c < n
            invariant
                c <= n,
                count == spec_present_count(dag@, c, nr1),
                count <= c,
            decreases n - c,
        {
            let present = match dag.canonical_unit(c, nr1) {
                Some(i) => {
                    proof {
                        assert(crate::creator::spec_creator_present(dag@, c, nr1));
                    }
                    true
                },
                None => false,
            };
            if present {
                count = count + 1;
            }
            c = c + 1;
        }
        count >= quorum(n)
    }

    /// Try to finalize the next round.
    ///
    /// Returns a batch — the arena positions of the head's not-yet-ordered,
    /// non-excluded ancestors, in strictly increasing (round, creator,
    /// hash) order — exactly when the lookahead margin is met: a quorum of
    /// creators have units one round above the round being finalized.  The
    /// already emitted prefix is never revised: the ordered log only grows
    /// by appending the new batch.  No unit by a creator excluded through a
    /// confirmed alert, past its fork round, ever enters a batch.
    #[verifier::rlimit(100)]
    #[verifier::spinoff_prover]
    pub fn next_batch(&mut self, dag: &Store) -> (r: Option<Vec<usize>>)
        requires
            old(self).wf(),
            dag.wf(),
            dag.n_members == old(self).n_members,
        ensures
            final(self).wf(),
            final(self).n_members == old(self).n_members,
            final(self).exclusions@ == old(self).exclusions@,
            (r is Some) == spec_margin_met(dag@, old(self).n_members, old(self).next_round),
            r is None ==> *final(self) == *old(self),
            r is Some ==> final(self).next_round == old(self).next_round + 1,
            r is Some ==> final(self).ordered@.len() == old(self).ordered@.len()
                + r->Some_0@.len() && final(self).ordered@.subrange(
                0,
                old(self).ordered@.len() as int,
            ) == old(self).ordered@ && forall|k: int|
                0 <= k < r->Some_0@.len() ==> final(self).ordered@[old(self).ordered@.len() + k]
                    == dag@[(#[trigger] r->Some_0@[k]) as int].hash(),
            match (r, spec_head(dag@, old(self).next_round, old(self).exclusions@)) {
                (Some(batch), Some(head)) => {
                    &&& forall|k: int|
                        0 <= k < batch@.len() ==> (#[trigger] batch@[k]) < dag@.len()
                            && spec_candidate(
                            dag@,
                            old(self).exclusions@,
                            old(self).ordered@,
                            head,
                            batch@[k] as int,
                        )
                    &&& forall|i: int|
                        0 <= i < dag@.len() && spec_candidate(
                            dag@,
                            old(self).exclusions@,
                            old(self).ordered@,
                            head,
                            i,
                        ) ==> exists|k: int| 0 <= k < batch@.len() && (#[trigger] batch@[k]) == i
                    &&& forall|k1: int, k2: int|
                        0 <= k1 < k2 < batch@.len() ==> spec_key_lt(
                            dag@[(#[trigger] batch@[k1]) as int],
                            dag@[(#[trigger] batch@[k2]) as int],
                        )
                },
                (Some(batch), None) => batch@.len() == 0,
                (None, _) => true,
            },
    {
        if !self.margin_met(dag) {
            return None;
        }
        let head_opt = self.find_head(dag);
        let batch: Vec<usize> = match head_opt {
            None => Vec::new(),
            Some(head) => self.collect_batch(dag, head),
        };
        self.append_hashes(dag, &batch);
        self.next_round = self.next_round + 1;
        Some(batch)
    }

    /// Append the content hashes of the batch's units to the ordered log.
    #[verifier::loop_isolation(false)]
    fn append_hashes(&mut self, dag: &Store, batch: &Vec<usize>)
        requires
            forall|m: int| 0 <= m < batch@.len() ==> (#[trigger] batch@[m]) < dag@.len(),
        ensures
            final(self).n_members == old(self).n_members,
            final(self).exclusions == old(self).exclusions,
            final(self).next_round == old(self).next_round,
            final(self).ordered@.len() == old(self).ordered@.len() + batch@.len(),
            final(self).ordered@.subrange(0, old(self).ordered@.len() as int) == old(
                self,
            ).ordered@,
            forall|m: int|
                0 <= m < batch@.len() ==> final(self).ordered@[old(self).ordered@.len() + m]
                    == dag@[(#[trigger] batch@[m]) as int].hash(),
    {
        let ghost old_ordered = self.ordered@;
        let mut k: usize = 0;
        while k < batch.len()
            invariant
                k <= batch@.len(),
                self.n_members == old(self).n_members,
                self.exclusions == old(self).exclusions,
                self.next_round == old(self).next_round,
                self.ordered@.len() == old_ordered.len() + k,
                self.ordered@.subrange(0, old_ordered.len() as int) == old_ordered,
                forall|m: int|
                    0 <= m < k ==> self.ordered@[old_ordered.len() + m] == dag@[(
                    #[trigger] batch@[m]) as int].hash(),
            decreases batch@.len() - k,
        {
            let ghost prev = self.ordered@;
            let h = dag.unit_at(batch[k]).content_hash();
            self.ordered.push(h);
            proof {
                assert(self.ordered@.subrange(0, old_ordered.len() as int) =~= prev.subrange(
                    0,
                    old_ordered.len() as int,
                ));
            }
            k = k + 1;
        }
    }
}

/// Safety of the agreed order: a strictly key-sorted linearization of a
/// candidate set is unique.  Any two honest nodes that hold the same units,
/// the same exclusions and the same already-ordered prefix therefore emit
/// the identical batch — and since the ordered log only ever grows by
/// appending such batches, any two honest nodes with overlapping finalized
/// prefixes agree on the shared prefix exactly.
pub proof fn lemma_linearization_unique(
    s: Seq<Unit>,
    cand: spec_fn(int) -> bool,
    b1: Seq<usize>,
    b2: Seq<usize>,
)
    requires
        forall|i: int, j: int| 0 <= i < j < s.len() ==> s[i].hash() != s[j].hash(),
        forall|k: int| 0 <= k < b1.len() ==> (#[trigger] b1[k]) < s.len() && cand(b1[k] as int),
        forall|k: int| 0 <= k < b2.len() ==> (#[trigger] b2[k]) < s.len() && cand(b2[k] as int),
        forall|i: int|
            0 <= i < s.len() && #[trigger] cand(i) ==> exists|k: int|
                0 <= k < b1.len() && (#[trigger] b1[k]) == i,
        forall|i: int|
            0 <= i < s.len() && #[trigger] cand(i) ==> exists|k: int|
                0 <= k < b2.len() && (#[trigger] b2[k]) == i,
        forall|k1: int, k2: int|
            0 <= k1 < k2 < b1.len() ==> spec_key_lt(
                s[(#[trigger] b1[k1]) as int],
                s[(#[trigger] b1[k2]) as int],
            ),
        forall|k1: int, k2: int|
            0 <= k1 < k2 < b2.len() ==> spec_key_lt(
                s[(#[trigger] b2[k1]) as int],
                s[(#[trigger] b2[k2]) as int],
            ),
    ensures
        b1 == b2,
    decreases b1.len(),
{
    if b1.len() == 0 {
        if b2.len() > 0 {
            assert(cand(b2[0] as int));
            assert(exists|k: int| 0 <= k < b1.len() && b1[k] == b2[0]);
            assert(false);
        }
        assert(b1 =~= b2);
    } else {
        assert(cand(b1[0] as int));
        if b2.len() == 0 {
            assert(exists|k: int| 0 <= k < b2.len() && b2[k] == b1[0]);
            assert(false);
        }
        let h1 = b1[0];
        let h2 = b2[0];
        // each front element occurs in the other batch, and sortedness
        // makes both the unique key-minimum of the shared candidate set
        let k2 = choose|k: int| 0 <= k < b2.len() && b2[k] == h1;
        let k1 = choose|k: int| 0 <= k < b1.len() && b1[k] == h2;
        if h1 != h2 {
            if k2 > 0 {
                assert(spec_key_lt(s[h2 as int], s[h1 as int]));
            }
            if k1 > 0 {
                assert(spec_key_lt(s[h1 as int], s[h2 as int]));
            }
            assert(k1 > 0 || k2 > 0);
            assert(s[h1 as int].hash() != s[h2 as int].hash());
            assert(false);
        }
        let t1 = b1.drop_first();
        let t2 = b2.drop_first();
        let remaining = (|i: int| cand(i) && i != h1 as int);
        assert forall|k: int| 0 <= k < t1.len() implies (#[trigger] t1[k]) < s.len() && remaining(
            t1[k] as int,
        ) by {
            assert(t1[k] == b1[k + 1]);
            assert(spec_key_lt(s[b1[0] as int], s[b1[k + 1] as int]));
        }
        assert forall|k: int| 0 <= k < t2.len() implies (#[trigger] t2[k]) < s.len() && remaining(
            t2[k] as int,
        ) by {
            assert(t2[k] == b2[k + 1]);
            assert(spec_key_lt(s[b2[0] as int], s[b2[k + 1] as int]));
        }
        assert forall|i: int| 0 <= i < s.len() && #[trigger] remaining(i) implies exists|k: int|
            0 <= k < t1.len() && (#[trigger] t1[k]) == i by {
            assert(cand(i));
            let k = choose|k: int| 0 <= k < b1.len() && (#[trigger] b1[k]) == i;
            assert(k != 0);
            assert(t1[k - 1] == i);
        }
        assert forall|i: int| 0 <= i < s.len() && #[trigger] remaining(i) implies exists|k: int|
            0 <= k < t2.len() && (#[trigger] t2[k]) == i by {
            assert(cand(i));
            let k = choose|k: int| 0 <= k < b2.len() && (#[trigger] b2[k]) == i;
            assert(k != 0);
            assert(t2[k - 1] == i);
        }
        assert forall|k1a: int, k2a: int| 0 <= k1a < k2a < t1.len() implies spec_key_lt(
            s[(#[trigger] t1[k1a]) as int],
            s[(#[trigger] t1[k2a]) as int],
        ) by {
            assert(t1[k1a] == b1[k1a + 1] && t1[k2a] == b1[k2a + 1]);
        }
        assert forall|k1a: int, k2a: int| 0 <= k1a < k2a < t2.len() implies spec_key_lt(
            s[(#[trigger] t2[k1a]) as int],
            s[(#[trigger] t2[k2a]) as int],
        ) by {
            assert(t2[k1a] == b2[k1a + 1] && t2[k2a] == b2[k2a + 1]);
        }
        lemma_linearization_unique(s, remaining, t1, t2);
        assert(b1.len() == b2.len());
        assert forall|k: int| 0 <= k < b1.len() implies b1[k] == b2[k] by {
            if k > 0 {
                assert(t1[k - 1] == b1[k]);
                assert(t2[k - 1] == b2[k]);
                assert(t1[k - 1] == t2[k - 1]);
            }
        }
        assert(b1 =~= b2);
    }
}

/// Fork exclusion: once a confirmed alert has installed an exclusion for a
/// creator, no unit of that creator past the fork round is a batch
/// candidate, so none appears in any batch emitted from then on.
pub proof fn lemma_fork_exclusion(
    s: Seq<Unit>,
    excl: Seq<Option<u64>>,
    done: Seq<u64>,
    head: int,
    batch: Seq<usize>,
    c: u64,
    fork_round: u64,
)
    requires
        c < excl.len(),
        excl[c as int] == Some(fork_round),
        forall|k: int|
            0 <= k < batch.len() ==> (#[trigger] batch[k]) < s.len() && spec_candidate(
                s,
                excl,
                done,
                head,
                batch[k] as int,
            ),
    ensures
        forall|k: int|
            0 <= k < batch.len() && s[(#[trigger] batch[k]) as int].creator == c ==> s[
                batch[k] as int
            ].round <= fork_round,
{
    reveal(spec_candidate);
    assert forall|k: int|
        0 <= k < batch.len() && s[(#[trigger] batch[k]) as int].creator == c implies s[
        batch[k] as int
    ].round <= fork_round by {
        assert(spec_candidate(s, excl, done, head, batch[k] as int));
        assert(!spec_excluded(excl, s[batch[k] as int]));
    }
}

proof fn lemma_true_count_all_false(s: Seq<bool>)
    requires
        forall|i: int| 0 <= i < s.len() ==> !s[i],
    ensures
        spec_true_count(s) == 0,
    decreases s.len(),
{
    if s.len() > 0 {
        lemma_true_count_all_false(s.drop_last());
    }
}

} // verus!
