//! The unit-creation scheduler of one node.
//!
//! Per round the creator is idle until (a) a quorum of creators, this node
//! among them, have units at the previous round, and (b) the configured
//! per-round creation delay has elapsed since the round was entered.  It
//! then deterministically selects one parent per eligible creator — for a
//! forked creator the canonical, least-hash unit — signs the new unit, and
//! moves to the next round.  Creation halts permanently at the round
//! ceiling.

use vstd::prelude::*;
use crate::units::{Unit, spec_quorum, quorum};
use crate::keys::Keychain;
use crate::config::DelaySchedule;
use crate::dag::{Store, spec_has_parent};

verus! {

/// Creator `c` has some unit at round `r` in `s`.
pub open spec fn spec_creator_present(s: Seq<Unit>, c: u64, r: u64) -> bool {
    exists|i: int| 0 <= i < s.len() && (#[trigger] s[i]).creator == c && s[i].round == r
}

/// How many of the creators `0 .. n` have a unit at round `r` in `s`.
pub open spec fn spec_present_count(s: Seq<Unit>, n: u64, r: u64) -> nat
    decreases n,
{
    if n == 0 {
        0
    } else {
        spec_present_count(s, (n - 1) as u64, r) + if spec_creator_present(s, (n - 1) as u64, r) {
            1nat
        } else {
            0nat
        }
    }
}

/// `slot` is the correct parent choice for creator `c` at round `r`: the
/// canonical (least-hash) unit of `c` at `r` when one exists, none
/// otherwise.
pub open spec fn spec_parent_choice(s: Seq<Unit>, c: int, r: u64, slot: Option<u64>) -> bool {
    match slot {
        Some(h) => exists|i: int|
            0 <= i < s.len() && (#[trigger] s[i]).creator == c && s[i].round == r && s[i].hash()
                == h && (forall|j: int|
                0 <= j < s.len() && (#[trigger] s[j]).creator == c && s[j].round == r ==> h
                    <= s[j].hash()),
        None => forall|j: int|
            0 <= j < s.len() ==> !((#[trigger] s[j]).creator == c && s[j].round == r),
    }
}

/// The next round a node may create at, given the units it already created
/// and saved: one past the highest own saved round, or round zero afresh.
pub open spec fn spec_next_own_round(s: Seq<Unit>, me: u64) -> int
    decreases s.len(),
{
    if s.len() == 0 {
        0
    } else {
        let rest = spec_next_own_round(s.drop_last(), me);
        if s.last().creator == me && s.last().round + 1 > rest {
            s.last().round + 1
        } else {
            rest
        }
    }
}

/// An all-empty parent slot vector for a round-zero unit.
fn empty_parents(n: u64) -> (out: Vec<Option<u64>>)
    ensures
        out@.len() == n,
        forall|k: int| 0 <= k < out@.len() ==> (#[trigger] out@[k]) is None,
{
    let mut parents: Vec<Option<u64>> = Vec::new();
    let mut c: u64 = 0;
    while c < n
        invariant
            c <= n,
            parents@.len() == c,
            forall|k: int| 0 <= k < c ==> (#[trigger] parents@[k]) is None,
        decreases n - c,
    {
        parents.push(None);
        c = c + 1;
    }
    parents
}

/// Deterministic parent selection for a unit at round `prev + 1`: for each
/// creator that has a unit at round `prev`, its canonical (least-hash) one.
#[verifier::loop_isolation(false)]
#[verifier::rlimit(100)]
fn select_parents(dag: &Store, prev: u64, next_round: u64, n: u64) -> (out: Vec<Option<u64>>)
    requires
        dag.wf(),
        dag.n_members == n,
        next_round == prev + 1,
    ensures
        out@.len() == n,
        crate::units::spec_parent_count(out@) == spec_present_count(dag@, n, prev),
        forall|k: int| 0 <= k < n ==> spec_parent_choice(dag@, k, prev, #[trigger] out@[k]),
        forall|k: int|
            0 <= k < n ==> ((#[trigger] out@[k]) is Some <==> spec_creator_present(
                dag@,
                k as u64,
                prev,
            )),
        forall|k: int|
            0 <= k < n && (#[trigger] out@[k]) is Some ==> spec_has_parent(
                dag@,
                out@[k]->Some_0,
                k,
                next_round,
            ),
{
    let mut parents: Vec<Option<u64>> = Vec::new();
    let mut c: u64 = 0;
    while c < n
        invariant
            c <= n,
            parents@.len() == c,
            forall|k: int|
                0 <= k < c ==> spec_parent_choice(dag@, k, prev, #[trigger] parents@[k]),
        decreases n - c,
    {
        let ghost old_parents = parents@;
        match dag.canonical_unit(c, prev) {
            Some(i) => {
                let h = dag.unit_at(i).content_hash();
                parents.push(Some(h));
                proof {
                    assert(dag@[i as int].creator == c && dag@[i as int].round == prev);
                    assert(dag@[i as int].hash() == h);
                    assert(spec_parent_choice(dag@, c as int, prev, Some(h)));
                    assert(forall|k: int| 0 <= k < c ==> parents@[k] == old_parents[k]);
                }
            },
            None => {
                parents.push(None);
                proof {
                    assert(forall|k: int| 0 <= k < c ==> parents@[k] == old_parents[k]);
                }
            },
        }
        c = c + 1;
    }
    proof {
        assert forall|k: int| 0 <= k < n && (#[trigger] parents@[k]) is Some implies spec_has_parent(
            dag@,
            parents@[k]->Some_0,
            k,
            next_round,
        ) && spec_creator_present(dag@, k as u64, prev) by {
            assert(spec_parent_choice(dag@, k, prev, parents@[k]));
            let h = parents@[k]->Some_0;
            let i = choose|i: int|
                0 <= i < dag@.len() && (#[trigger] dag@[i]).creator == k && dag@[i].round == prev
                    && dag@[i].hash() == h;
            assert(spec_has_parent(dag@, h, k, next_round));
        }
        assert forall|k: int| 0 <= k < n && (#[trigger] parents@[k]) is None implies !spec_creator_present(
            dag@,
            k as u64,
            prev,
        ) by {
            assert(spec_parent_choice(dag@, k, prev, parents@[k]));
        }
        lemma_parent_count_matches_present(dag@, parents@, n, prev);
    }
    parents
}

/// When each slot is filled exactly for the creators present at round `r`,
/// the filled-slot count equals the present-creator count.
proof fn lemma_parent_count_matches_present(s: Seq<Unit>, out: Seq<Option<u64>>, n: u64, r: u64)
    requires
        out.len() == n,
        forall|k: int|
            0 <= k < n ==> ((#[trigger] out[k]) is Some <==> spec_creator_present(s, k as u64, r)),
    ensures
        crate::units::spec_parent_count(out) == spec_present_count(s, n, r),
    decreases n,
{
    if n > 0 {
        lemma_parent_count_matches_present(s, out.drop_last(), (n - 1) as u64, r);
    }
}

/// The per-node unit creation state machine.
pub struct Creator {
    /// This node's index.
    pub node_ix: u64,
    /// Committee size.
    pub n_members: u64,
    /// Creation halts once this round is reached.
    pub max_round: u64,
    /// The round of the next unit to create.
    pub round: u64,
    /// When the current round was entered, against the session clock.
    pub round_started_ms: u64,
    /// Delay from entering a round to creating its unit.
    pub creation_delay: DelaySchedule,
}

impl Creator {
    pub open spec fn wf(self) -> bool {
        &&& self.node_ix < self.n_members
        &&& 0 < self.n_members < 0x10000
        &&& self.max_round < 0xffffffffffffffff
    }

    /// The creation precondition for the current round: below the ceiling,
    /// the delay has elapsed, and past round zero a quorum of creators —
    /// this node among them — have units at the previous round.
    pub open spec fn spec_ready(self, s: Seq<Unit>, now_ms: u64) -> bool {
        &&& self.round < self.max_round
        &&& now_ms >= self.round_started_ms + self.creation_delay.spec_delay_ms(self.round)
        &&& self.round > 0 ==> {
            &&& spec_present_count(s, self.n_members, (self.round - 1) as u64) >= spec_quorum(
                self.n_members,
            )
            &&& spec_creator_present(s, self.node_ix, (self.round - 1) as u64)
        }
    }

    pub fn new(
        node_ix: u64,
        n_members: u64,
        max_round: u64,
        creation_delay: DelaySchedule,
        now_ms: u64,
    ) -> (r: Creator)
        requires
            node_ix < n_members,
            0 < n_members < 0x10000,
            max_round < 0xffffffffffffffff,
        ensures
            r.wf(),
            r.node_ix == node_ix,
            r.n_members == n_members,
            r.max_round == max_round,
            r.round == 0,
            r.round_started_ms == now_ms,
            r.creation_delay == creation_delay,
    {
        Creator { node_ix, n_members, max_round, round: 0, round_started_ms: now_ms, creation_delay }
    }

    /// Decide whether the current round's unit may be created now.
    #[verifier::loop_isolation(false)]
    pub fn ready(&self, dag: &Store, now_ms: u64) -> (r: bool)
        requires
            self.wf(),
            dag.n_members == self.n_members,
        ensures
            r == self.spec_ready(dag@, now_ms),
    {
        if self.round >= self.max_round {
            return false;
        }
        let delay = self.creation_delay.delay_ms(self.round);
        if !(now_ms >= self.round_started_ms && now_ms - self.round_started_ms >= delay) {
            return false;
        }
        if self.round == 0 {
            return true;
        }
        let prev = self.round - 1;
        let mut c: u64 = 0;
        let mut count: u64 = 0;
        while c < self.n_members
            invariant
                c <= self.n_members,
                count == spec_present_count(dag@, c, prev),
                count <= c,
            decreases self.n_members - c,
        {
            if self.units_exist(dag, c, prev) {
                count = count + 1;
            }
            c = c + 1;
        }
        count >= quorum(self.n_members) && self.units_exist(dag, self.node_ix, prev)
    }

    /// Whether creator `c` has any unit at round `r` in the store.
    fn units_exist(&self, dag: &Store, c: u64, r: u64) -> (out: bool)
        ensures
            out == spec_creator_present(dag@, c, r),
    {
        match dag.canonical_unit(c, r) {
            Some(i) => {
                proof {
                    assert(spec_creator_present(dag@, c, r));
                }
                true
            },
            None => false,
        }
    }

    /// Create, sign and return the unit of the current round, advancing the
    /// state machine to the next round.
    ///
    /// The returned unit is fully valid against the store it was built
    /// from: its parents are the canonical units of the previous round, one
    /// per creator that has one, its own previous unit among them.
    #[verifier::loop_isolation(false)]
    #[verifier::rlimit(100)]
    pub fn create_unit(
        &mut self,
        dag: &Store,
        payload: u64,
        keychain: &Keychain,
        now_ms: u64,
    ) -> (r: Unit)
        requires
            old(self).wf(),
            dag.wf(),
            dag.n_members == old(self).n_members,
            keychain.index == old(self).node_ix,
            old(self).spec_ready(dag@, now_ms),
        ensures
            final(self).wf(),
            final(self).round == old(self).round + 1,
            final(self).round_started_ms == now_ms,
            final(self).node_ix == old(self).node_ix,
            final(self).n_members == old(self).n_members,
            final(self).max_round == old(self).max_round,
            final(self).creation_delay == old(self).creation_delay,
            r.creator == old(self).node_ix,
            r.round == old(self).round,
            r.payload == payload,
            r.signed_ok(),
            crate::dag::spec_unit_ok(dag@, r, old(self).n_members),
            old(self).round == 0 ==> forall|c: int|
                0 <= c < r.parents@.len() ==> r.parents@[c] is None,
            old(self).round > 0 ==> forall|c: int|
                0 <= c < r.parents@.len() ==> spec_parent_choice(
                    dag@,
                    c,
                    (old(self).round - 1) as u64,
                    r.parents@[c],
                ),
            old(self).round > 0 ==> r.parents@[old(self).node_ix as int] is Some,
    {
        let n = self.n_members;
        let parents: Vec<Option<u64>> = if self.round == 0 {
            empty_parents(n)
        } else {
            select_parents(dag, self.round - 1, self.round, n)
        };
        let u = Unit::new(self.node_ix, self.round, parents, payload, keychain);
        proof {
            assert(u.shape_ok(n));
            assert(crate::dag::spec_unit_ok(dag@, u, n));
        }
        self.round = self.round + 1;
        self.round_started_ms = now_ms;
        u
    }

    /// Replay the units this node saved before a crash: resume creation at
    /// the round past the highest round it had already committed to, so the
    /// node never re-creates or re-signs a unit for a round it already
    /// handed out.
    #[verifier::loop_isolation(false)]
    pub fn resume(&mut self, saved: &Vec<Unit>, now_ms: u64) -> (ok: bool)
        requires
            old(self).wf(),
            old(self).round == 0,
        ensures
            final(self).wf(),
            final(self).node_ix == old(self).node_ix,
            final(self).n_members == old(self).n_members,
            final(self).max_round == old(self).max_round,
            final(self).creation_delay == old(self).creation_delay,
            ok ==> final(self).round == spec_next_own_round(saved@, old(self).node_ix),
            ok ==> final(self).round_started_ms == now_ms,
            !ok ==> *final(self) == *old(self),
            ok == (spec_next_own_round(saved@, old(self).node_ix) <= old(self).max_round),
    {
        let mut next: u64 = 0;
        let mut i: usize = 0;
        while i < saved.len()
            invariant
                i <= saved@.len(),
                next == spec_next_own_round(saved@.subrange(0, i as int), self.node_ix),
                next <= 0xffffffffffffffff,
            decreases saved@.len() - i,
        {
            proof {
                assert(saved@.subrange(0, i + 1).drop_last() =~= saved@.subrange(0, i as int));
                assert(saved@.subrange(0, i + 1).last() == saved@[i as int]);
            }
            if saved[i].creator == self.node_ix {
                let r = saved[i].round;
                if r == 0xffffffffffffffff {
                    proof {
                        assert(spec_next_own_round(saved@.subrange(0, i + 1), self.node_ix) > self.max_round);
                        lemma_next_own_round_monotonic(saved@, self.node_ix, i + 1);
                    }
                    return false;
                }
                if r + 1 > next {
                    next = r + 1;
                }
            }
            i = i + 1;
        }
        proof {
            assert(saved@.subrange(0, saved@.len() as int) =~= saved@);
        }
        if next > self.max_round {
            return false;
        }
        self.round = next;
        self.round_started_ms = now_ms;
        true
    }
}

/// Extending the saved log never lowers the resumption round.
proof fn lemma_next_own_round_monotonic(s: Seq<Unit>, me: u64, i: int)
    requires
        0 <= i <= s.len(),
    ensures
        spec_next_own_round(s, me) >= spec_next_own_round(s.subrange(0, i), me),
    decreases s.len(),
{
    if i < s.len() {
        assert(s.drop_last().subrange(0, i) =~= s.subrange(0, i));
        lemma_next_own_round_monotonic(s.drop_last(), me, i);
    } else {
        assert(s.subrange(0, i) =~= s);
    }
}

/// After replaying the backup, the creator resumes strictly past the round
/// of every unit it had already created and saved: a restarted node never
/// re-creates, and never differently re-signs, a unit at a round it had
/// committed to before the crash.
pub proof fn lemma_no_recreation_after_replay(saved: Seq<Unit>, me: u64, i: int)
    requires
        0 <= i < saved.len(),
        saved[i].creator == me,
    ensures
        spec_next_own_round(saved, me) > saved[i].round,
    decreases saved.len(),
{
    if i == saved.len() - 1 {
    } else {
        assert(saved.drop_last()[i] == saved[i]);
        lemma_no_recreation_after_replay(saved.drop_last(), me, i);
    }
}

} // verus!
