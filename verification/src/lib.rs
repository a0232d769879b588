//! An asynchronous Byzantine-fault-tolerant consensus core.
//!
//! A committee of `n` nodes, up to `f < n/3` of them faulty, grows a shared
//! directed acyclic graph of signed units and agrees on one total order over
//! them.  This crate holds the protocol logic itself as plain, verified state
//! machines: unit validation and DAG construction, the unit-creation
//! scheduler, the pull-based reconciliation scheduler, fork alerts with
//! threshold confirmation, the ordering algorithm, the crash-recovery log of
//! locally created units, and the cooperative-shutdown scope tree.  Clocks,
//! channels, networking and signing keys live outside; callers drive these
//! machines with plain values and perform the effects they decide on.

pub mod keys;
pub mod units;
pub mod config;
pub mod dag;
pub mod creator;
pub mod backup;
pub mod alerts;
pub mod extender;
pub mod terminator;
pub mod dissemination;
