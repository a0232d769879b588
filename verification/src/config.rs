//! Session configuration: committee identity, the round ceiling, and the
//! delay schedule driving creation, rebroadcast and the recovery requests.
//!
//! Schedules are plain data mapping a round or attempt number to a duration
//! in milliseconds or to a recipient count, so scheduling stays deterministic
//! and testable under a virtual clock.

use vstd::prelude::*;

verus! {

/// The index of a node within the committee.
#[derive(Clone, Copy, PartialEq, Eq, Structural, Debug, Hash)]
pub struct NodeIndex(pub u64);

/// The size of the committee.
#[derive(Clone, Copy, PartialEq, Eq, Structural, Debug, Hash)]
pub struct NodeCount(pub u64);

/// A schedule from a round or attempt number to a delay in milliseconds:
/// one value for the first round or attempt, another for all later ones.
#[derive(Clone, Copy, PartialEq, Eq, Structural, Debug)]
pub struct DelaySchedule {
    pub first_ms: u64,
    pub later_ms: u64,
}

impl DelaySchedule {
    /// The delay prescribed for round or attempt `n`.
    pub open spec fn spec_delay_ms(self, n: u64) -> u64 {
        if n == 0 {
            self.first_ms
        } else {
            self.later_ms
        }
    }

    pub fn delay_ms(&self, n: u64) -> (r: u64)
        ensures
            r == self.spec_delay_ms(n),
    {
        if n == 0 {
            self.first_ms
        } else {
            self.later_ms
        }
    }
}

/// A schedule from an attempt number to a recipient count: the first attempt
/// may fan out wider than the later ones.
#[derive(Clone, Copy, PartialEq, Eq, Structural, Debug)]
pub struct RecipientSchedule {
    pub first: u64,
    pub later: u64,
}

impl RecipientSchedule {
    /// How many peers to address on attempt `n`.
    pub open spec fn spec_recipients(self, n: u64) -> u64 {
        if n == 0 {
            self.first
        } else {
            self.later
        }
    }

    pub fn recipients(&self, n: u64) -> (r: u64)
        ensures
            r == self.spec_recipients(n),
    {
        if n == 0 {
            self.first
        } else {
            self.later
        }
    }
}

/// All timing parameters of a session, immutable after session start.
#[derive(Clone, Copy, PartialEq, Eq, Structural, Debug)]
pub struct DelayConfig {
    /// Scheduler granularity.
    pub tick_interval_ms: u64,
    /// Lower bound of the randomized unit-rebroadcast interval.
    pub unit_rebroadcast_interval_min_ms: u64,
    /// Upper bound of the randomized unit-rebroadcast interval.
    pub unit_rebroadcast_interval_max_ms: u64,
    /// Delay before creating the unit of a given round.
    pub unit_creation_delay: DelaySchedule,
    /// Delay between attempts of a coordinator request.
    pub coord_request_delay: DelaySchedule,
    /// Fan-out of a coordinator request as a function of the attempt number.
    pub coord_request_recipients: RecipientSchedule,
    /// Delay between attempts of a parent request.
    pub parent_request_delay: DelaySchedule,
    /// Fan-out of a parent request as a function of the attempt number.
    pub parent_request_recipients: RecipientSchedule,
    /// Delay between attempts of a newest-unit request.
    pub newest_request_delay: DelaySchedule,
}

impl DelayConfig {
    /// The rebroadcast bounds are ordered, so an interval can be drawn
    /// between them.
    pub open spec fn wf(self) -> bool {
        self.unit_rebroadcast_interval_min_ms <= self.unit_rebroadcast_interval_max_ms
    }
}

/// Everything a consensus session is started with, immutable thereafter.
#[derive(Clone, Copy, PartialEq, Eq, Structural, Debug)]
pub struct Config {
    /// This node's index within the committee.
    pub node_ix: NodeIndex,
    /// Identifier of this session.
    pub session_id: u64,
    /// Size of the committee.
    pub n_members: NodeCount,
    /// The delay schedule.
    pub delay_config: DelayConfig,
    /// Safety valve: unit creation halts once this round is reached.
    pub max_round: u64,
}

impl Config {
    pub open spec fn wf(self) -> bool {
        &&& self.node_ix.0 < self.n_members.0
        &&& 0 < self.n_members.0 < 0x10000
        &&& self.delay_config.wf()
    }
}

/// The stock configuration used by the test committees: a 5 ms tick,
/// rebroadcast after 400 to 500 ms, a flat 50 ms creation delay, coordinator
/// requests every 100 ms addressed to 3 peers first and 1 thereafter, parent
/// and newest-unit requests every 50 ms, and a ceiling of 5000 rounds.
pub fn gen_config(node_ix: NodeIndex, n_members: NodeCount) -> (r: Config)
    ensures
        r.node_ix == node_ix,
        r.session_id == 0,
        r.n_members == n_members,
        r.max_round == 5000,
        r.delay_config.tick_interval_ms == 5,
        r.delay_config.unit_rebroadcast_interval_min_ms == 400,
        r.delay_config.unit_rebroadcast_interval_max_ms == 500,
        forall|n: u64| r.delay_config.unit_creation_delay.spec_delay_ms(n) == 50,
        forall|n: u64| r.delay_config.coord_request_delay.spec_delay_ms(n) == 100,
        forall|n: u64|
            r.delay_config.coord_request_recipients.spec_recipients(n) == if n == 0 {
                3u64
            } else {
                1u64
            },
        forall|n: u64| r.delay_config.parent_request_delay.spec_delay_ms(n) == 50,
        forall|n: u64| r.delay_config.parent_request_recipients.spec_recipients(n) == 1,
        forall|n: u64| r.delay_config.newest_request_delay.spec_delay_ms(n) == 50,
        r.delay_config.wf(),
        node_ix.0 < n_members.0 && n_members.0 < 0x10000 && n_members.0 > 0 ==> r.wf(),
{
    let delay_config = DelayConfig {
        tick_interval_ms: 5,
        unit_rebroadcast_interval_min_ms: 400,
        unit_rebroadcast_interval_max_ms: 500,
        // 50, 50, 50, 50, ...
        unit_creation_delay: DelaySchedule { first_ms: 50, later_ms: 50 },
        // 100, 100, 100, ...
        coord_request_delay: DelaySchedule { first_ms: 100, later_ms: 100 },
        // 3, 1, 1, 1, ...
        coord_request_recipients: RecipientSchedule { first: 3, later: 1 },
        // 50, 50, 50, 50, ...
        parent_request_delay: DelaySchedule { first_ms: 50, later_ms: 50 },
        // 1, 1, 1, ...
        parent_request_recipients: RecipientSchedule { first: 1, later: 1 },
        // 50, 50, 50, 50, ...
        newest_request_delay: DelaySchedule { first_ms: 50, later_ms: 50 },
    };
    Config { node_ix, session_id: 0, n_members, delay_config, max_round: 5000 }
}

} // verus!
