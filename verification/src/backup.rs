//! The durable log of locally created units.
//!
//! Every unit this node creates is appended here, and handed to the network
//! only once the append is durable; the log is never rewritten.  On startup
//! the whole log is replayed so that creation resumes past every round the
//! node had already committed to.  The storage medium itself is an external
//! collaborator: a write that cannot be made durable is fatal to the
//! session, and the caller halts rather than risk forking itself across a
//! future crash.

use vstd::prelude::*;
use crate::units::Unit;

verus! {

/// The append-only session log of locally created units, in creation order.
pub struct Backup {
    /// The logged units, oldest first.
    pub log: Vec<Unit>,
}

impl View for Backup {
    type V = Seq<Unit>;

    open spec fn view(&self) -> Seq<Unit> {
        self.log@
    }
}

impl Backup {
    /// An empty log for a fresh session.
    pub fn new() -> (r: Backup)
        ensures
            r@ == Seq::<Unit>::empty(),
    {
        let log: Vec<Unit> = Vec::new();
        proof {
            assert(log@ =~= Seq::<Unit>::empty());
        }
        Backup { log }
    }

    /// A log recovered from durable storage, to be replayed at startup.
    pub fn from_units(units: Vec<Unit>) -> (r: Backup)
        ensures
            r@ == units@,
    {
        Backup { log: units }
    }

    /// Append a unit to the log.  The caller must treat the unit as
    /// broadcastable only after this returns, and must halt the session if
    /// the mirroring durable write fails.
    pub fn save(&mut self, u: Unit) -> (h: u64)
        ensures
            final(self)@ == old(self)@.push(u),
            h == u.hash(),
    {
        let h = u.content_hash();
        self.log.push(u);
        h
    }

    /// How many units the log holds.
    pub fn len(&self) -> (r: usize)
        ensures
            r == self@.len(),
    {
        self.log.len()
    }

    /// Read access for replay: the logged units, oldest first.
    pub fn units(&self) -> (r: &Vec<Unit>)
        ensures
            r@ == self@,
    {
        &self.log
    }
}

} // verus!
