//! Units: the atomic contributions each node adds to the DAG.
//!
//! A unit carries its creator's index, its round, one optional parent hash
//! per committee member (none at round zero), a control hash binding the
//! parent set, an opaque payload reference, and the creator's signature over
//! the unit's content hash.  The content hash is derived from the fields by a
//! fixed mixing function; the protocol never relies on which hash algorithm
//! stands behind it, only on it being a deterministic function of content.

use vstd::prelude::*;
use crate::keys::{Keychain, Signature, spec_sig_valid};

verus! {

/// One mixing step of the rolling content hash.  Opaque: proofs treat the
/// result as an uninterpreted function of its inputs.
#[verifier::opaque]
pub open spec fn spec_mix(acc: u64, x: u64) -> u64 {
    (((acc as int) * 1099511628211 + (x as int) + 1) % 0x10000000000000000) as u64
}

/// Executable mixing step; matches `spec_mix` exactly.
pub fn mix(acc: u64, x: u64) -> (r: u64)
    ensures
        r == spec_mix(acc, x),
{
    proof {
        reveal(spec_mix);
    }
    let wide: u128 = (acc as u128) * 1099511628211 + (x as u128) + 1;
    (wide % 0x10000000000000000) as u64
}

/// Rolling hash of a parent slot sequence, up to slot `n`.
pub open spec fn spec_control_hash_prefix(parents: Seq<Option<u64>>, n: int) -> u64
    decreases n,
{
    if n <= 0 {
        0
    } else {
        let acc = spec_control_hash_prefix(parents, n - 1);
        match parents[n - 1] {
            Some(h) => spec_mix(spec_mix(acc, 1), h),
            None => spec_mix(acc, 0),
        }
    }
}

/// The control hash binding a unit's parent set.
pub open spec fn spec_control_hash(parents: Seq<Option<u64>>) -> u64 {
    spec_control_hash_prefix(parents, parents.len() as int)
}

/// Compute the control hash of a parent slot sequence.
pub fn control_hash(parents: &Vec<Option<u64>>) -> (r: u64)
    ensures
        r == spec_control_hash(parents@),
{
    let mut acc: u64 = 0;
    let mut i: usize = 0;
    while i < parents.len()
        invariant
            i <= parents@.len(),
            acc == spec_control_hash_prefix(parents@, i as int),
        decreases parents@.len() - i,
    {
        match parents[i] {
            Some(h) => {
                acc = mix(mix(acc, 1), h);
            },
            None => {
                acc = mix(acc, 0);
            },
        }
        i = i + 1;
    }
    acc
}

/// A unit of the DAG.
#[derive(Clone, PartialEq, Eq, Debug)]
pub struct Unit {
    /// Index of the node that created this unit.
    pub creator: u64,
    /// The unit's round: zero for parentless units, otherwise one more than
    /// the round of every parent.
    pub round: u64,
    /// One optional parent hash per committee member, indexed by creator.
    pub parents: Vec<Option<u64>>,
    /// Control hash binding the parent set.
    pub control_hash: u64,
    /// Opaque reference to the ordered payload.
    pub payload: u64,
    /// The creator's signature over the unit's content hash.
    pub signature: Signature,
}

/// The derived content hash of a unit: a function of creator, round,
/// parent set (through the control hash) and payload.
pub open spec fn spec_unit_hash(u: Unit) -> u64 {
    spec_mix(spec_mix(spec_mix(spec_mix(7, u.creator), u.round), u.control_hash), u.payload)
}

/// Number of parent slots that are filled.
pub open spec fn spec_parent_count(parents: Seq<Option<u64>>) -> nat
    decreases parents.len(),
{
    if parents.len() == 0 {
        0
    } else {
        spec_parent_count(parents.drop_last()) + if parents.last() is Some {
            1nat
        } else {
            0nat
        }
    }
}

impl Unit {
    /// The unit's derived content hash.
    pub open spec fn hash(self) -> u64 {
        spec_unit_hash(self)
    }

    /// Compute the content hash of this unit.
    pub fn content_hash(&self) -> (r: u64)
        ensures
            r == self.hash(),
    {
        mix(mix(mix(mix(7, self.creator), self.round), self.control_hash), self.payload)
    }

    /// Structural well-formedness against a committee of `n_members`:
    /// the creator is a member, there is one parent slot per member, the
    /// control hash matches the parent set, and a round-zero unit is
    /// parentless.
    pub open spec fn shape_ok(self, n_members: u64) -> bool {
        &&& self.creator < n_members
        &&& self.parents@.len() == n_members
        &&& self.control_hash == spec_control_hash(self.parents@)
        &&& (self.round == 0 ==> forall|c: int|
            0 <= c < self.parents@.len() ==> self.parents@[c] is None)
    }

    /// The creator's signature covers the content hash.
    pub open spec fn signed_ok(self) -> bool {
        spec_sig_valid(self.signature, self.hash(), self.creator)
    }

    /// Build and sign a unit.  The keychain must belong to the creator.
    pub fn new(
        creator: u64,
        round: u64,
        parents: Vec<Option<u64>>,
        payload: u64,
        keychain: &Keychain,
    ) -> (r: Unit)
        requires
            keychain.index == creator,
        ensures
            r.creator == creator,
            r.round == round,
            r.parents@ == parents@,
            r.payload == payload,
            r.control_hash == spec_control_hash(parents@),
            r.signed_ok(),
    {
        let ch = control_hash(&parents);
        let mut u = Unit {
            creator,
            round,
            parents,
            control_hash: ch,
            payload,
            signature: Signature { signer: creator, msg: 0 },
        };
        let h = u.content_hash();
        u.signature = keychain.sign(h);
        u
    }

    /// Count the filled parent slots.
    pub fn parent_count(&self) -> (r: u64)
        ensures
            r == spec_parent_count(self.parents@),
    {
        let mut i: usize = 0;
        let mut c: u64 = 0;
        while i < self.parents.len()
            invariant
                i <= self.parents@.len(),
                c == spec_parent_count(self.parents@.subrange(0, i as int)),
                c <= i,
            decreases self.parents@.len() - i,
        {
            proof {
                assert(self.parents@.subrange(0, i + 1).drop_last() =~= self.parents@.subrange(
                    0,
                    i as int,
                ));
                assert(self.parents@.subrange(0, i + 1).last() == self.parents@[i as int]);
            }
            if self.parents[i].is_some() {
                c = c + 1;
            }
            i = i + 1;
        }
        proof {
            assert(self.parents@.subrange(0, self.parents@.len() as int) =~= self.parents@);
        }
        c
    }
}

/// The quorum size: with `n = 3f + 1` members this is `2f + 1`, and in
/// general the least size any two of whose holders overlap in an honest
/// node when at most `f < n/3` members are faulty.
pub open spec fn spec_quorum(n: u64) -> u64
    recommends
        n > 0,
{
    ((2 * (n as int)) / 3 + 1) as u64
}

/// Compute the quorum size for a committee of `n` members.
pub fn quorum(n: u64) -> (r: u64)
    requires
        0 < n < 0x10000,
    ensures
        r == spec_quorum(n),
{
    2 * n / 3 + 1
}

} // verus!
