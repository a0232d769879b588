//! The disseminator: push broadcast plus the three pull recovery requests.
//!
//! This is the reconciliation scheduler as a pure state machine.  It tracks
//! which units still await a rebroadcast, which (creator, round) slots lack
//! a unit, which parents are missing, and when the next newest-unit probe is
//! due.  On every clock tick it decides, from the current virtual time and a
//! caller-supplied random draw, which network actions to perform; the caller
//! performs them and reports outcomes back.  A task is retried on every due
//! tick until it is explicitly resolved, so recovery keeps going as long as
//! the network eventually delivers.

use vstd::prelude::*;
use crate::config::DelayConfig;

verus! {

/// A network action the session should perform now.
#[derive(Clone, Copy, PartialEq, Eq, Structural, Debug)]
pub enum NetAction {
    /// Broadcast the unit with this content hash to all peers.
    Broadcast { hash: u64 },
    /// Ask `recipients` random peers for `creator`'s unit at `round`.
    RequestCoord { creator: u64, round: u64, recipients: u64 },
    /// Ask `recipients` random peers for the parents of this unit.
    RequestParents { hash: u64, recipients: u64 },
    /// Ask one random peer for its newest unit.
    RequestNewest,
}

/// A unit not yet acknowledged by the peers, awaiting rebroadcast.
#[derive(Clone, Copy, PartialEq, Eq, Structural, Debug)]
pub struct PendingUnit {
    pub hash: u64,
    pub next_due_ms: u64,
    pub acked: bool,
}

/// A (creator, round) slot this node has no unit for.
#[derive(Clone, Copy, PartialEq, Eq, Structural, Debug)]
pub struct CoordTask {
    pub creator: u64,
    pub round: u64,
    pub attempt: u64,
    pub next_due_ms: u64,
    pub satisfied: bool,
}

/// A referenced parent this node has not validated yet.
#[derive(Clone, Copy, PartialEq, Eq, Structural, Debug)]
pub struct ParentTask {
    pub hash: u64,
    pub attempt: u64,
    pub next_due_ms: u64,
    pub satisfied: bool,
}

/// Draw a rebroadcast interval between the configured bounds from a random
/// value: herd effects stay bounded while every draw lies in range.
pub open spec fn spec_interval(min_ms: u64, max_ms: u64, rand: u64) -> u64
    recommends
        min_ms <= max_ms,
{
    ((min_ms as int) + (rand as int) % ((max_ms as int) - (min_ms as int) + 1)) as u64
}

/// Compute the randomized rebroadcast interval.
pub fn interval_from(min_ms: u64, max_ms: u64, rand: u64) -> (r: u64)
    requires
        min_ms <= max_ms,
        max_ms < 0xffffffffffffffff,
    ensures
        r == spec_interval(min_ms, max_ms, rand),
        min_ms <= r <= max_ms,
{
    min_ms + rand % (max_ms - min_ms + 1)
}

/// What one clock tick does to a pending unit: a due, unacknowledged unit
/// is rebroadcast and rescheduled after the drawn interval.
pub open spec fn spec_pending_step(t: PendingUnit, now_ms: u64, iv: u64) -> PendingUnit {
    if !t.acked && now_ms >= t.next_due_ms {
        PendingUnit { next_due_ms: (now_ms + iv) as u64, ..t }
    } else {
        t
    }
}

/// What one clock tick does to a coordinator-request task: a due,
/// unsatisfied slot is asked for again and rescheduled; the attempt count
/// grows, and the task stays alive until it is resolved.
pub open spec fn spec_coord_step(t: CoordTask, cfg: DelayConfig, now_ms: u64) -> CoordTask {
    if !t.satisfied && now_ms >= t.next_due_ms {
        CoordTask {
            attempt: (t.attempt + 1) as u64,
            next_due_ms: (now_ms + cfg.coord_request_delay.spec_delay_ms(t.attempt)) as u64,
            ..t
        }
    } else {
        t
    }
}

/// What one clock tick does to a parent-request task.
pub open spec fn spec_parent_step(t: ParentTask, cfg: DelayConfig, now_ms: u64) -> ParentTask {
    if !t.satisfied && now_ms >= t.next_due_ms {
        ParentTask {
            attempt: (t.attempt + 1) as u64,
            next_due_ms: (now_ms + cfg.parent_request_delay.spec_delay_ms(t.attempt)) as u64,
            ..t
        }
    } else {
        t
    }
}

/// Recovery persists under loss: a clock tick never abandons a task.  A
/// dropped request leaves the slot unsatisfied, so the task survives the
/// tick unchanged but for its schedule, and is asked again at its next due
/// time — only the arrival of what it asks for resolves it.  With a network
/// that eventually delivers some attempt, every tracked unit, coordinator
/// slot and parent is therefore eventually recovered.
pub proof fn lemma_ticks_never_abandon(
    p: PendingUnit,
    c: CoordTask,
    t: ParentTask,
    cfg: DelayConfig,
    now_ms: u64,
    iv: u64,
)
    ensures
        spec_pending_step(p, now_ms, iv).acked == p.acked,
        spec_pending_step(p, now_ms, iv).hash == p.hash,
        spec_coord_step(c, cfg, now_ms).satisfied == c.satisfied,
        spec_coord_step(c, cfg, now_ms).creator == c.creator,
        spec_coord_step(c, cfg, now_ms).round == c.round,
        spec_parent_step(t, cfg, now_ms).satisfied == t.satisfied,
        spec_parent_step(t, cfg, now_ms).hash == t.hash,
{
}

/// The reconciliation scheduler of one node.
pub struct Disseminator {
    /// The session delay schedule.
    pub cfg: DelayConfig,
    /// Units broadcast but not yet seen reflected back.
    pub pending: Vec<PendingUnit>,
    /// Rounds where some creator's unit is missing.
    pub coords: Vec<CoordTask>,
    /// Units whose parents are still unknown.
    pub parents_wanted: Vec<ParentTask>,
    /// When the next newest-unit probe is due.
    pub newest_due_ms: u64,
    /// How many newest-unit probes were sent.
    pub newest_attempt: u64,
}

impl Disseminator {
    pub open spec fn wf(self) -> bool {
        &&& self.cfg.wf()
        &&& self.cfg.unit_rebroadcast_interval_max_ms < 0x1000000000000000
    }

    pub fn new(cfg: DelayConfig, now_ms: u64) -> (r: Disseminator)
        requires
            cfg.wf(),
            cfg.unit_rebroadcast_interval_max_ms < 0x1000000000000000,
        ensures
            r.wf(),
            r.cfg == cfg,
            r.pending@.len() == 0,
            r.coords@.len() == 0,
            r.parents_wanted@.len() == 0,
            r.newest_due_ms == now_ms,
            r.newest_attempt == 0,
    {
        Disseminator {
            cfg,
            pending: Vec::new(),
            coords: Vec::new(),
            parents_wanted: Vec::new(),
            newest_due_ms: now_ms,
            newest_attempt: 0,
        }
    }

    /// Track a locally created or newly validated unit: it is broadcast at
    /// the next tick and rebroadcast until acknowledged.
    pub fn add_unit(&mut self, hash: u64, now_ms: u64)
        requires
            old(self).wf(),
        ensures
            final(self).wf(),
            final(self).pending@ == old(self).pending@.push(
                PendingUnit { hash, next_due_ms: now_ms, acked: false },
            ),
            final(self).cfg == old(self).cfg,
            final(self).coords@ == old(self).coords@,
            final(self).parents_wanted@ == old(self).parents_wanted@,
            final(self).newest_due_ms == old(self).newest_due_ms,
            final(self).newest_attempt == old(self).newest_attempt,
    {
        self.pending.push(PendingUnit { hash, next_due_ms: now_ms, acked: false });
    }

    /// A peer reflected the unit back: stop rebroadcasting it.
    pub fn ack_unit(&mut self, hash: u64)
        requires
            old(self).wf(),
        ensures
            final(self).wf(),
            final(self).pending@.len() == old(self).pending@.len(),
            forall|i: int|
                0 <= i < old(self).pending@.len() ==> final(self).pending@[i] == (if old(
                    self,
                ).pending@[i].hash == hash {
                    PendingUnit { acked: true, ..old(self).pending@[i] }
                } else {
                    old(self).pending@[i]
                }),
            final(self).cfg == old(self).cfg,
            final(self).coords@ == old(self).coords@,
            final(self).parents_wanted@ == old(self).parents_wanted@,
            final(self).newest_due_ms == old(self).newest_due_ms,
            final(self).newest_attempt == old(self).newest_attempt,
    {
        let mut i: usize = 0;
        while i < self.pending.len()
            invariant
                i <= self.pending@.len(),
                self.pending@.len() == old(self).pending@.len(),
                forall|j: int|
                    0 <= j < i ==> self.pending@[j] == (if old(self).pending@[j].hash == hash {
                        PendingUnit { acked: true, ..old(self).pending@[j] }
                    } else {
                        old(self).pending@[j]
                    }),
                forall|j: int|
                    i <= j < self.pending@.len() ==> self.pending@[j] == old(self).pending@[j],
                self.cfg == old(self).cfg,
                self.coords@ == old(self).coords@,
                self.parents_wanted@ == old(self).parents_wanted@,
                self.newest_due_ms == old(self).newest_due_ms,
                self.newest_attempt == old(self).newest_attempt,
            decreases self.pending@.len() - i,
        {
            if self.pending[i].hash == hash {
                let t = self.pending[i];
                self.pending.set(i, PendingUnit { acked: true, ..t });
            }
            i = i + 1;
        }
    }

    /// Track a missing (creator, round) slot; the first request fans out
    /// wider than the later ones, as the schedule prescribes.
    pub fn note_missing_coord(&mut self, creator: u64, round: u64, now_ms: u64)
        requires
            old(self).wf(),
        ensures
            final(self).wf(),
            final(self).coords@ == old(self).coords@.push(
                CoordTask { creator, round, attempt: 0, next_due_ms: now_ms, satisfied: false },
            ),
            final(self).cfg == old(self).cfg,
            final(self).pending@ == old(self).pending@,
            final(self).parents_wanted@ == old(self).parents_wanted@,
            final(self).newest_due_ms == old(self).newest_due_ms,
            final(self).newest_attempt == old(self).newest_attempt,
    {
        self.coords.push(
            CoordTask { creator, round, attempt: 0, next_due_ms: now_ms, satisfied: false },
        );
    }

    /// The missing unit arrived: stop requesting that slot.
    pub fn resolve_coord(&mut self, creator: u64, round: u64)
        requires
            old(self).wf(),
        ensures
            final(self).wf(),
            final(self).coords@.len() == old(self).coords@.len(),
            forall|i: int|
                0 <= i < old(self).coords@.len() ==> final(self).coords@[i] == (if old(
                    self,
                ).coords@[i].creator == creator && old(self).coords@[i].round == round {
                    CoordTask { satisfied: true, ..old(self).coords@[i] }
                } else {
                    old(self).coords@[i]
                }),
            final(self).cfg == old(self).cfg,
            final(self).pending@ == old(self).pending@,
            final(self).parents_wanted@ == old(self).parents_wanted@,
            final(self).newest_due_ms == old(self).newest_due_ms,
            final(self).newest_attempt == old(self).newest_attempt,
    {
        let mut i: usize = 0;
        while i < self.coords.len()
            invariant
                i <= self.coords@.len(),
                self.coords@.len() == old(self).coords@.len(),
                forall|j: int|
                    0 <= j < i ==> self.coords@[j] == (if old(self).coords@[j].creator == creator
                        && old(self).coords@[j].round == round {
                        CoordTask { satisfied: true, ..old(self).coords@[j] }
                    } else {
                        old(self).coords@[j]
                    }),
                forall|j: int|
                    i <= j < self.coords@.len() ==> self.coords@[j] == old(self).coords@[j],
                self.cfg == old(self).cfg,
                self.pending@ == old(self).pending@,
                self.parents_wanted@ == old(self).parents_wanted@,
                self.newest_due_ms == old(self).newest_due_ms,
                self.newest_attempt == old(self).newest_attempt,
            decreases self.coords@.len() - i,
        {
            if self.coords[i].creator == creator && self.coords[i].round == round {
                let t = self.coords[i];
                self.coords.set(i, CoordTask { satisfied: true, ..t });
            }
            i = i + 1;
        }
    }

    /// Rebroadcast every due, unacknowledged unit, rescheduling each after
    /// the drawn interval.  An unacknowledged unit is retried on every due
    /// tick until it is acknowledged: the tick itself never abandons one.
    #[verifier::loop_isolation(false)]
    pub fn tick_broadcasts(&mut self, now_ms: u64, rand: u64) -> (actions: Vec<NetAction>)
        requires
            old(self).wf(),
            now_ms < 0x1000000000000000,
        ensures
            final(self).wf(),
            final(self).cfg == old(self).cfg,
            final(self).coords@ == old(self).coords@,
            final(self).parents_wanted@ == old(self).parents_wanted@,
            final(self).newest_due_ms == old(self).newest_due_ms,
            final(self).newest_attempt == old(self).newest_attempt,
            final(self).pending@.len() == old(self).pending@.len(),
            forall|i: int|
                0 <= i < old(self).pending@.len() ==> final(self).pending@[i] == spec_pending_step(
                    old(self).pending@[i],
                    now_ms,
                    spec_interval(
                        old(self).cfg.unit_rebroadcast_interval_min_ms,
                        old(self).cfg.unit_rebroadcast_interval_max_ms,
                        rand,
                    ),
                ),
            forall|i: int|
                0 <= i < old(self).pending@.len() && !old(self).pending@[i].acked && now_ms >= old(
                    self,
                ).pending@[i].next_due_ms ==> actions@.contains(
                    NetAction::Broadcast { hash: old(self).pending@[i].hash },
                ),
    {
        let iv = interval_from(
            self.cfg.unit_rebroadcast_interval_min_ms,
            self.cfg.unit_rebroadcast_interval_max_ms,
            rand,
        );
        let mut actions: Vec<NetAction> = Vec::new();
        let mut i: usize = 0;
        while i < self.pending.len()
            invariant
                i <= self.pending@.len(),
                self.pending@.len() == old(self).pending@.len(),
                forall|j: int|
                    0 <= j < i ==> self.pending@[j] == spec_pending_step(
                        old(self).pending@[j],
                        now_ms,
                        iv,
                    ),
                forall|j: int|
                    i <= j < self.pending@.len() ==> self.pending@[j] == old(self).pending@[j],
                forall|j: int|
                    0 <= j < i && !old(self).pending@[j].acked && now_ms >= old(
                        self,
                    ).pending@[j].next_due_ms ==> actions@.contains(
                        NetAction::Broadcast { hash: old(self).pending@[j].hash },
                    ),
                self.cfg == old(self).cfg,
                self.coords@ == old(self).coords@,
                self.parents_wanted@ == old(self).parents_wanted@,
                self.newest_due_ms == old(self).newest_due_ms,
                self.newest_attempt == old(self).newest_attempt,
            decreases self.pending@.len() - i,
        {
            let t = self.pending[i];
            if !t.acked && now_ms >= t.next_due_ms {
                let ghost old_actions = actions@;
                actions.push(NetAction::Broadcast { hash: t.hash });
                self.pending.set(i, PendingUnit { next_due_ms: now_ms + iv, ..t });
                proof {
                    assert(actions@[actions@.len() - 1] == NetAction::Broadcast { hash: t.hash });
                    assert forall|a: NetAction| old_actions.contains(a) implies actions@.contains(
                        a,
                    ) by {
                        let k = choose|k: int| 0 <= k < old_actions.len() && old_actions[k] == a;
                        assert(actions@[k] == a);
                    }
                }
            }
            i = i + 1;
        }
        actions
    }

    /// Issue every due coordinator request, fanning out to the scheduled
    /// number of recipients for its attempt, and reschedule it.  An
    /// unsatisfied slot is retried on every due tick until it is resolved.
    #[verifier::loop_isolation(false)]
    pub fn tick_coord_requests(&mut self, now_ms: u64) -> (actions: Vec<NetAction>)
        requires
            old(self).wf(),
            now_ms < 0x1000000000000000,
            old(self).cfg.coord_request_delay.first_ms < 0x1000000000000000,
            old(self).cfg.coord_request_delay.later_ms < 0x1000000000000000,
            forall|i: int|
                0 <= i < old(self).coords@.len() ==> (#[trigger] old(self).coords@[i]).attempt
                    < 0xffffffffffffffff,
        ensures
            final(self).wf(),
            final(self).cfg == old(self).cfg,
            final(self).pending@ == old(self).pending@,
            final(self).parents_wanted@ == old(self).parents_wanted@,
            final(self).newest_due_ms == old(self).newest_due_ms,
            final(self).newest_attempt == old(self).newest_attempt,
            final(self).coords@.len() == old(self).coords@.len(),
            forall|i: int|
                0 <= i < old(self).coords@.len() ==> final(self).coords@[i] == spec_coord_step(
                    old(self).coords@[i],
                    old(self).cfg,
                    now_ms,
                ),
            forall|i: int|
                0 <= i < old(self).coords@.len() && !old(self).coords@[i].satisfied && now_ms
                    >= old(self).coords@[i].next_due_ms ==> actions@.contains(
                    NetAction::RequestCoord {
                        creator: old(self).coords@[i].creator,
                        round: old(self).coords@[i].round,
                        recipients: old(self).cfg.coord_request_recipients.spec_recipients(
                            old(self).coords@[i].attempt,
                        ),
                    },
                ),
    {
        let mut actions: Vec<NetAction> = Vec::new();
        let mut i: usize = 0;
        while i < self.coords.len()
            invariant
                i <= self.coords@.len(),
                self.coords@.len() == old(self).coords@.len(),
                forall|j: int|
                    0 <= j < i ==> self.coords@[j] == spec_coord_step(
                        old(self).coords@[j],
                        old(self).cfg,
                        now_ms,
                    ),
                forall|j: int|
                    i <= j < self.coords@.len() ==> self.coords@[j] == old(self).coords@[j],
                forall|j: int|
                    0 <= j < i && !old(self).coords@[j].satisfied && now_ms >= old(
                        self,
                    ).coords@[j].next_due_ms ==> actions@.contains(
                        NetAction::RequestCoord {
                            creator: old(self).coords@[j].creator,
                            round: old(self).coords@[j].round,
                            recipients: old(self).cfg.coord_request_recipients.spec_recipients(
                                old(self).coords@[j].attempt,
                            ),
                        },
                    ),
                self.cfg == old(self).cfg,
                self.pending@ == old(self).pending@,
                self.parents_wanted@ == old(self).parents_wanted@,
                self.newest_due_ms == old(self).newest_due_ms,
                self.newest_attempt == old(self).newest_attempt,
            decreases self.coords@.len() - i,
        {
            let t = self.coords[i];
            if !t.satisfied && now_ms >= t.next_due_ms {
                let ghost old_actions = actions@;
                let recipients = self.cfg.coord_request_recipients.recipients(t.attempt);
                let delay = self.cfg.coord_request_delay.delay_ms(t.attempt);
                actions.push(
                    NetAction::RequestCoord { creator: t.creator, round: t.round, recipients },
                );
                self.coords.set(
                    i,
                    CoordTask { attempt: t.attempt + 1, next_due_ms: now_ms + delay, ..t },
                );
                proof {
                    assert forall|a: NetAction| old_actions.contains(a) implies actions@.contains(
                        a,
                    ) by {
                        let k = choose|k: int| 0 <= k < old_actions.len() && old_actions[k] == a;
                        assert(actions@[k] == a);
                    }
                    assert(actions@[actions@.len() - 1] == NetAction::RequestCoord {
                        creator: t.creator,
                        round: t.round,
                        recipients,
                    });
                }
            }
            i = i + 1;
        }
        actions
    }

    /// Issue every due parent request and reschedule it; retried on every
    /// due tick until the parent arrives.
    #[verifier::loop_isolation(false)]
    pub fn tick_parent_requests(&mut self, now_ms: u64) -> (actions: Vec<NetAction>)
        requires
            old(self).wf(),
            now_ms < 0x1000000000000000,
            old(self).cfg.parent_request_delay.first_ms < 0x1000000000000000,
            old(self).cfg.parent_request_delay.later_ms < 0x1000000000000000,
            forall|i: int|
                0 <= i < old(self).parents_wanted@.len() ==> (#[trigger] old(
                    self,
                ).parents_wanted@[i]).attempt < 0xffffffffffffffff,
        ensures
            final(self).wf(),
            final(self).cfg == old(self).cfg,
            final(self).pending@ == old(self).pending@,
            final(self).coords@ == old(self).coords@,
            final(self).newest_due_ms == old(self).newest_due_ms,
            final(self).newest_attempt == old(self).newest_attempt,
            final(self).parents_wanted@.len() == old(self).parents_wanted@.len(),
            forall|i: int|
                0 <= i < old(self).parents_wanted@.len() ==> final(self).parents_wanted@[i]
                    == spec_parent_step(old(self).parents_wanted@[i], old(self).cfg, now_ms),
            forall|i: int|
                0 <= i < old(self).parents_wanted@.len() && !old(
                    self,
                ).parents_wanted@[i].satisfied && now_ms >= old(
                    self,
                ).parents_wanted@[i].next_due_ms ==> actions@.contains(
                    NetAction::RequestParents {
                        hash: old(self).parents_wanted@[i].hash,
                        recipients: old(self).cfg.parent_request_recipients.spec_recipients(
                            old(self).parents_wanted@[i].attempt,
                        ),
                    },
                ),
    {
        let mut actions: Vec<NetAction> = Vec::new();
        let mut i: usize = 0;
        while i < self.parents_wanted.len()
            invariant
                i <= self.parents_wanted@.len(),
                self.parents_wanted@.len() == old(self).parents_wanted@.len(),
                forall|j: int|
                    0 <= j < i ==> self.parents_wanted@[j] == spec_parent_step(
                        old(self).parents_wanted@[j],
                        old(self).cfg,
                        now_ms,
                    ),
                forall|j: int|
                    i <= j < self.parents_wanted@.len() ==> self.parents_wanted@[j] == old(
                        self,
                    ).parents_wanted@[j],
                forall|j: int|
                    0 <= j < i && !old(self).parents_wanted@[j].satisfied && now_ms >= old(
                        self,
                    ).parents_wanted@[j].next_due_ms ==> actions@.contains(
                        NetAction::RequestParents {
                            hash: old(self).parents_wanted@[j].hash,
                            recipients: old(self).cfg.parent_request_recipients.spec_recipients(
                                old(self).parents_wanted@[j].attempt,
                            ),
                        },
                    ),
                self.cfg == old(self).cfg,
                self.pending@ == old(self).pending@,
                self.coords@ == old(self).coords@,
                self.newest_due_ms == old(self).newest_due_ms,
                self.newest_attempt == old(self).newest_attempt,
            decreases self.parents_wanted@.len() - i,
        {
            let t = self.parents_wanted[i];
            if !t.satisfied && now_ms >= t.next_due_ms {
                let ghost old_actions = actions@;
                let recipients = self.cfg.parent_request_recipients.recipients(t.attempt);
                let delay = self.cfg.parent_request_delay.delay_ms(t.attempt);
                actions.push(NetAction::RequestParents { hash: t.hash, recipients });
                self.parents_wanted.set(
                    i,
                    ParentTask { attempt: t.attempt + 1, next_due_ms: now_ms + delay, ..t },
                );
                proof {
                    assert forall|a: NetAction| old_actions.contains(a) implies actions@.contains(
                        a,
                    ) by {
                        let k = choose|k: int| 0 <= k < old_actions.len() && old_actions[k] == a;
                        assert(actions@[k] == a);
                    }
                    assert(actions@[actions@.len() - 1] == NetAction::RequestParents {
                        hash: t.hash,
                        recipients,
                    });
                }
            }
            i = i + 1;
        }
        actions
    }

    /// Track a unit whose parents are unknown.
    pub fn note_missing_parents(&mut self, hash: u64, now_ms: u64)
        requires
            old(self).wf(),
        ensures
            final(self).wf(),
            final(self).parents_wanted@ == old(self).parents_wanted@.push(
                ParentTask { hash, attempt: 0, next_due_ms: now_ms, satisfied: false },
            ),
            final(self).cfg == old(self).cfg,
            final(self).pending@ == old(self).pending@,
            final(self).coords@ == old(self).coords@,
            final(self).newest_due_ms == old(self).newest_due_ms,
            final(self).newest_attempt == old(self).newest_attempt,
    {
        self.parents_wanted.push(
            ParentTask { hash, attempt: 0, next_due_ms: now_ms, satisfied: false },
        );
    }

    /// The parents arrived and the unit validated: stop requesting them.
    pub fn resolve_parents(&mut self, hash: u64)
        requires
            old(self).wf(),
        ensures
            final(self).wf(),
            final(self).parents_wanted@.len() == old(self).parents_wanted@.len(),
            forall|i: int|
                0 <= i < old(self).parents_wanted@.len() ==> final(self).parents_wanted@[i] == (
                if old(self).parents_wanted@[i].hash == hash {
                    ParentTask { satisfied: true, ..old(self).parents_wanted@[i] }
                } else {
                    old(self).parents_wanted@[i]
                }),
            final(self).cfg == old(self).cfg,
            final(self).pending@ == old(self).pending@,
            final(self).coords@ == old(self).coords@,
            final(self).newest_due_ms == old(self).newest_due_ms,
            final(self).newest_attempt == old(self).newest_attempt,
    {
        let mut i: usize = 0;
        while i < self.parents_wanted.len()
            invariant
                i <= self.parents_wanted@.len(),
                self.parents_wanted@.len() == old(self).parents_wanted@.len(),
                forall|j: int|
                    0 <= j < i ==> self.parents_wanted@[j] == (if old(
                        self,
                    ).parents_wanted@[j].hash == hash {
                        ParentTask { satisfied: true, ..old(self).parents_wanted@[j] }
                    } else {
                        old(self).parents_wanted@[j]
                    }),
                forall|j: int|
                    i <= j < self.parents_wanted@.len() ==> self.parents_wanted@[j] == old(
                        self,
                    ).parents_wanted@[j],
                self.cfg == old(self).cfg,
                self.pending@ == old(self).pending@,
                self.coords@ == old(self).coords@,
                self.newest_due_ms == old(self).newest_due_ms,
                self.newest_attempt == old(self).newest_attempt,
            decreases self.parents_wanted@.len() - i,
        {
            if self.parents_wanted[i].hash == hash {
                let t = self.parents_wanted[i];
                self.parents_wanted.set(i, ParentTask { satisfied: true, ..t });
            }
            i = i + 1;
        }
    }

    /// Probe a peer for its newest unit when the probe is due, and
    /// reschedule the probe.
    pub fn tick_newest(&mut self, now_ms: u64) -> (r: Option<NetAction>)
        requires
            old(self).wf(),
            now_ms < 0x1000000000000000,
            old(self).cfg.newest_request_delay.first_ms < 0x1000000000000000,
            old(self).cfg.newest_request_delay.later_ms < 0x1000000000000000,
            old(self).newest_attempt < 0xffffffffffffffff,
        ensures
            final(self).wf(),
            final(self).cfg == old(self).cfg,
            final(self).pending@ == old(self).pending@,
            final(self).coords@ == old(self).coords@,
            final(self).parents_wanted@ == old(self).parents_wanted@,
            (r is Some) == (now_ms >= old(self).newest_due_ms),
            r is Some ==> r->Some_0 == NetAction::RequestNewest && final(self).newest_attempt
                == old(self).newest_attempt + 1 && final(self).newest_due_ms == now_ms + old(
                self,
            ).cfg.newest_request_delay.spec_delay_ms(old(self).newest_attempt),
            r is None ==> *final(self) == *old(self),
    {
        if now_ms >= self.newest_due_ms {
            let delay = self.cfg.newest_request_delay.delay_ms(self.newest_attempt);
            self.newest_due_ms = now_ms + delay;
            self.newest_attempt = self.newest_attempt + 1;
            Some(NetAction::RequestNewest)
        } else {
            None
        }
    }
}

} // verus!
