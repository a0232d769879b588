//! Signatures, the per-node keychain, and threshold multisignatures.
//!
//! The concrete cryptography is an external collaborator; the scheme modelled
//! here carries exactly the information the protocol reads from it: which
//! node signed which message, and how many distinct nodes contributed a share
//! to a threshold signature.

use vstd::prelude::*;

verus! {

/// A single-node signature over a 64-bit message digest.
#[derive(Clone, Copy, PartialEq, Eq, Structural, Debug)]
pub struct Signature {
    pub signer: u64,
    pub msg: u64,
}

/// Holds when `sig` is a valid signature by node `signer` over `msg`.
pub open spec fn spec_sig_valid(sig: Signature, msg: u64, signer: u64) -> bool {
    sig.signer == signer && sig.msg == msg
}

/// The signing capability of one node of a committee of `node_count`.
#[derive(Clone, Copy, PartialEq, Eq, Structural, Debug)]
pub struct Keychain {
    pub node_count: u64,
    pub index: u64,
}

impl Keychain {
    pub open spec fn wf(self) -> bool {
        self.index < self.node_count
    }

    pub fn new(node_count: u64, index: u64) -> (r: Keychain)
        requires
            index < node_count,
        ensures
            r.node_count == node_count,
            r.index == index,
            r.wf(),
    {
        Keychain { node_count, index }
    }

    /// Sign a message digest with this node's key.
    pub fn sign(&self, msg: u64) -> (r: Signature)
        ensures
            spec_sig_valid(r, msg, self.index),
            r.signer == self.index,
    {
        Signature { signer: self.index, msg }
    }

    /// Check a signature claimed to be by `signer` over `msg`.
    pub fn verify(&self, msg: u64, sig: &Signature, signer: u64) -> (r: bool)
        ensures
            r == spec_sig_valid(*sig, msg, signer),
    {
        sig.signer == signer && sig.msg == msg
    }
}

/// The number of shares present in a partial multisignature.
pub open spec fn spec_share_count(s: Seq<Option<Signature>>) -> nat
    decreases s.len(),
{
    if s.len() == 0 {
        0
    } else {
        spec_share_count(s.drop_last()) + if s.last() is Some {
            1nat
        } else {
            0nat
        }
    }
}

/// Every share present is a valid signature over `msg` by the node whose
/// slot it occupies.
pub open spec fn spec_shares_valid(s: Seq<Option<Signature>>, msg: u64) -> bool {
    forall|i: int|
        0 <= i < s.len() && s[i] is Some ==> spec_sig_valid(s[i]->Some_0, msg, i as u64)
}

/// A threshold multisignature under construction: one optional share per
/// committee member, all over the same message digest.
#[derive(Clone, PartialEq, Eq, Debug)]
pub struct Multisig {
    pub msg: u64,
    pub shares: Vec<Option<Signature>>,
}

impl Multisig {
    pub open spec fn wf(self) -> bool {
        spec_shares_valid(self.shares@, self.msg)
    }

    pub open spec fn count(self) -> nat {
        spec_share_count(self.shares@)
    }

    /// Start collecting shares over `msg` from a committee of `node_count`.
    pub fn new(msg: u64, node_count: u64) -> (r: Multisig)
        ensures
            r.msg == msg,
            r.shares@.len() == node_count,
            forall|i: int| 0 <= i < r.shares@.len() ==> r.shares@[i] is None,
            r.wf(),
            r.count() == 0,
    {
        let mut shares: Vec<Option<Signature>> = Vec::new();
        let mut i: u64 = 0;
        while i < node_count
            invariant
                i <= node_count,
                shares@.len() == i,
                forall|j: int| 0 <= j < shares@.len() ==> shares@[j] is None,
            decreases node_count - i,
        {
            shares.push(None);
            i = i + 1;
        }
        proof {
            lemma_share_count_all_none(shares@);
        }
        Multisig { msg, shares }
    }

    /// Add `signer`'s share if it verifies and the slot is still empty.
    /// Returns whether the share was accepted.
    pub fn add_share(&mut self, signer: u64, sig: Signature) -> (r: bool)
        requires
            old(self).wf(),
        ensures
            final(self).wf(),
            final(self).msg == old(self).msg,
            final(self).shares@.len() == old(self).shares@.len(),
            r == (signer < old(self).shares@.len() && old(self).shares@[signer as int] is None
                && spec_sig_valid(sig, old(self).msg, signer)),
            r ==> final(self).shares@ == old(self).shares@.update(signer as int, Some(sig)),
            r ==> final(self).count() == old(self).count() + 1,
            !r ==> *final(self) == *old(self),
    {
        if signer < self.shares.len() as u64 && sig.signer == signer && sig.msg == self.msg {
            let slot_empty = self.shares[signer as usize].is_none();
            if slot_empty {
                self.shares.set(signer as usize, Some(sig));
                proof {
                    lemma_share_count_update_some(old(self).shares@, signer as int, sig);
                }
                return true;
            }
        }
        false
    }

    /// How many shares have been collected so far.
    pub fn share_count(&self) -> (r: u64)
        ensures
            r == self.count(),
    {
        let mut i: usize = 0;
        let mut c: u64 = 0;
        while i < self.shares.len()
            invariant
                i <= self.shares@.len(),
                c == spec_share_count(self.shares@.subrange(0, i as int)),
                c <= i,
            decreases self.shares@.len() - i,
        {
            proof {
                assert(self.shares@.subrange(0, i + 1).drop_last() =~= self.shares@.subrange(
                    0,
                    i as int,
                ));
                assert(self.shares@.subrange(0, i + 1).last() == self.shares@[i as int]);
            }
            if self.shares[i].is_some() {
                c = c + 1;
            }
            i = i + 1;
        }
        proof {
            assert(self.shares@.subrange(0, self.shares@.len() as int) =~= self.shares@);
        }
        c
    }

    /// Whether a quorum of `quorum` distinct nodes has contributed a share.
    pub fn is_complete(&self, quorum: u64) -> (r: bool)
        ensures
            r == (self.count() >= quorum),
    {
        self.share_count() >= quorum
    }
}

pub proof fn lemma_share_count_all_none(s: Seq<Option<Signature>>)
    requires
        forall|i: int| 0 <= i < s.len() ==> s[i] is None,
    ensures
        spec_share_count(s) == 0,
    decreases s.len(),
{
    if s.len() > 0 {
        lemma_share_count_all_none(s.drop_last());
    }
}

/// Filling an empty slot raises the share count by exactly one.
pub proof fn lemma_share_count_update_some(s: Seq<Option<Signature>>, i: int, sig: Signature)
    requires
        0 <= i < s.len(),
        s[i] is None,
    ensures
        spec_share_count(s.update(i, Some(sig))) == spec_share_count(s) + 1,
    decreases s.len(),
{
    let t = s.update(i, Some(sig));
    if i == s.len() - 1 {
        assert(t.drop_last() =~= s.drop_last());
    } else {
        assert(t.drop_last() =~= s.drop_last().update(i, Some(sig)));
        assert(t.last() == s.last());
        lemma_share_count_update_some(s.drop_last(), i, sig);
    }
}

} // verus!
