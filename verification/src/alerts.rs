//! The alert subsystem: fork evidence and its threshold confirmation.
//!
//! A fork is two distinct units by the same creator at the same round.  The
//! node that detects one packages both units as an alert, signs it, and asks
//! every peer for a confirming signature; each honest peer signs only after
//! verifying the evidence itself.  Once a quorum of distinct signers has
//! contributed a share the alert is confirmed: every node receiving the
//! multisigned alert excludes the forker's units past the fork point from
//! ordering without re-verifying the fork.

use vstd::prelude::*;
use crate::units::{Unit, spec_mix};
use crate::keys::{Multisig, Signature, spec_sig_valid};

verus! {

/// Byzantine evidence: two conflicting units by one creator at one round.
#[derive(Clone, PartialEq, Eq, Debug)]
pub struct Alert {
    /// The accused creator.
    pub forker: u64,
    /// The round at which the fork happened.
    pub round: u64,
    /// One of the conflicting units.
    pub unit_a: Unit,
    /// The other conflicting unit.
    pub unit_b: Unit,
}

impl Alert {
    /// The evidence actually shows a fork: both units are by the accused
    /// creator at the stated round, both are signed by that creator, and
    /// their content differs.
    pub open spec fn spec_evidence_ok(self) -> bool {
        &&& self.unit_a.creator == self.forker
        &&& self.unit_b.creator == self.forker
        &&& self.unit_a.round == self.round
        &&& self.unit_b.round == self.round
        &&& self.unit_a.signed_ok()
        &&& self.unit_b.signed_ok()
        &&& self.unit_a.hash() != self.unit_b.hash()
    }

    /// The digest that confirmation signatures cover.
    pub open spec fn spec_digest(self) -> u64 {
        spec_mix(
            spec_mix(spec_mix(spec_mix(11, self.forker), self.round), self.unit_a.hash()),
            self.unit_b.hash(),
        )
    }

    /// Package two conflicting units as an alert.
    pub fn new(forker: u64, round: u64, unit_a: Unit, unit_b: Unit) -> (r: Alert)
        ensures
            r.forker == forker,
            r.round == round,
            r.unit_a == unit_a,
            r.unit_b == unit_b,
    {
        Alert { forker, round, unit_a, unit_b }
    }

    /// Independently verify the fork evidence, as every honest peer does
    /// before contributing its confirmation signature.
    pub fn verify_evidence(&self) -> (r: bool)
        ensures
            r == self.spec_evidence_ok(),
    {
        let ha = self.unit_a.content_hash();
        let hb = self.unit_b.content_hash();
        self.unit_a.creator == self.forker && self.unit_b.creator == self.forker
            && self.unit_a.round == self.round && self.unit_b.round == self.round
            && self.unit_a.signature.signer == self.unit_a.creator && self.unit_a.signature.msg
            == ha && self.unit_b.signature.signer == self.unit_b.creator
            && self.unit_b.signature.msg == hb && ha != hb
    }

    /// Compute the digest that confirmation signatures cover.
    pub fn digest(&self) -> (r: u64)
        ensures
            r == self.spec_digest(),
    {
        let ha = self.unit_a.content_hash();
        let hb = self.unit_b.content_hash();
        crate::units::mix(
            crate::units::mix(
                crate::units::mix(crate::units::mix(11, self.forker), self.round),
                ha,
            ),
            hb,
        )
    }
}

/// An alert together with the confirmation shares collected so far.
#[derive(Clone, PartialEq, Eq, Debug)]
pub struct AlertState {
    /// The verified fork evidence.
    pub alert: Alert,
    /// The threshold signature under construction over the alert digest.
    pub confirmations: Multisig,
}

impl AlertState {
    pub open spec fn wf(self) -> bool {
        &&& self.alert.spec_evidence_ok()
        &&& self.confirmations.wf()
        &&& self.confirmations.msg == self.alert.spec_digest()
    }

    /// Start collecting confirmations for verified evidence over a
    /// committee of `n_members`.
    pub fn new(alert: Alert, n_members: u64) -> (r: AlertState)
        requires
            alert.spec_evidence_ok(),
        ensures
            r.wf(),
            r.alert == alert,
            r.confirmations.count() == 0,
            r.confirmations.shares@.len() == n_members,
    {
        let digest = alert.digest();
        let confirmations = Multisig::new(digest, n_members);
        AlertState { alert, confirmations }
    }

    /// Record `signer`'s confirmation share if it is a valid signature over
    /// the alert digest and the slot was still empty.
    pub fn add_confirmation(&mut self, signer: u64, sig: Signature) -> (r: bool)
        requires
            old(self).wf(),
        ensures
            final(self).wf(),
            final(self).alert == old(self).alert,
            final(self).confirmations.shares@.len() == old(self).confirmations.shares@.len(),
            r == (signer < old(self).confirmations.shares@.len() && old(
                self,
            ).confirmations.shares@[signer as int] is None && spec_sig_valid(
                sig,
                old(self).alert.spec_digest(),
                signer,
            )),
            r ==> final(self).confirmations.count() == old(self).confirmations.count() + 1,
            !r ==> final(self).confirmations == old(self).confirmations,
    {
        self.confirmations.add_share(signer, sig)
    }

    /// Whether a quorum of `quorum` distinct committee members has signed:
    /// only then may the alert be acted on, and the forker's units past the
    /// fork point be excluded from ordering.
    pub fn is_confirmed(&self, quorum: u64) -> (r: bool)
        requires
            self.wf(),
        ensures
            r == (self.confirmations.count() >= quorum),
    {
        self.confirmations.is_complete(quorum)
    }
}

} // verus!
