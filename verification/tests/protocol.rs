//! DAG validation, creation scheduling and crash recovery.

use consensus::backup::Backup;
use consensus::creator::Creator;
use consensus::config::DelaySchedule;
use consensus::dag::{InsertResponse, Reject, Store};
use consensus::keys::{Keychain, Multisig, Signature};
use consensus::units::{quorum, Unit};

fn round0_unit(creator: u64, n: u64, payload: u64) -> Unit {
    let kc = Keychain::new(n, creator);
    let parents: Vec<Option<u64>> = (0..n).map(|_| None).collect();
    Unit::new(creator, 0, parents, payload, &kc)
}

const DELAY: DelaySchedule = DelaySchedule { first_ms: 50, later_ms: 50 };

#[test]
fn quorum_values() {
    assert_eq!(quorum(4), 3);
    assert_eq!(quorum(7), 5);
    assert_eq!(quorum(10), 7);
    assert_eq!(quorum(1), 1);
}

#[test]
fn round0_insert_and_get() {
    let mut dag = Store::new(4);
    let u = round0_unit(0, 4, 7);
    let h = u.content_hash();
    assert_eq!(dag.insert(u.clone()), Ok(InsertResponse::Added));
    assert_eq!(dag.len(), 1);
    let got = dag.get(h).expect("unit should be stored");
    assert_eq!(*got, u);
    assert!(dag.get(h.wrapping_add(1)).is_none());
}

#[test]
fn insert_is_idempotent() {
    let mut dag = Store::new(4);
    let u = round0_unit(1, 4, 9);
    assert_eq!(dag.insert(u.clone()), Ok(InsertResponse::Added));
    let len_once = dag.len();
    let round_units_once = dag.units_of_round(0);
    assert_eq!(dag.insert(u.clone()), Ok(InsertResponse::Duplicate));
    assert_eq!(dag.len(), len_once);
    assert_eq!(dag.units_of_round(0), round_units_once);
    assert_eq!(dag.insert(u), Ok(InsertResponse::Duplicate));
    assert_eq!(dag.len(), len_once);
}

#[test]
fn unknown_signer_rejected() {
    let mut dag = Store::new(4);
    let u = round0_unit(9, 16, 0);
    assert_eq!(dag.insert(u), Err(Reject::UnknownSigner));
    assert_eq!(dag.len(), 0);
}

#[test]
fn bad_signature_rejected() {
    let mut dag = Store::new(4);
    let mut u = round0_unit(2, 4, 5);
    u.signature = Signature { signer: 1, msg: u.signature.msg };
    assert_eq!(dag.insert(u), Err(Reject::BadSignature));
    let mut v = round0_unit(2, 4, 5);
    v.signature = Signature { signer: 2, msg: v.signature.msg.wrapping_add(1) };
    assert_eq!(dag.insert(v), Err(Reject::BadSignature));
}

#[test]
fn malformed_unit_rejected() {
    let mut dag = Store::new(4);
    // wrong number of parent slots
    let u = round0_unit(0, 3, 1);
    assert_eq!(dag.insert(u), Err(Reject::MalformedUnit));
    // control hash not matching the parent set
    let mut v = round0_unit(0, 4, 1);
    v.control_hash = v.control_hash.wrapping_add(1);
    assert_eq!(dag.insert(v), Err(Reject::MalformedUnit));
}

#[test]
fn missing_parent_rejected() {
    let mut dag = Store::new(4);
    let kc = Keychain::new(4, 0);
    let parents = vec![Some(123u64), None, None, None];
    let u = Unit::new(0, 1, parents, 0, &kc);
    assert_eq!(dag.insert(u), Err(Reject::MissingParent));
}

#[test]
fn round_mismatch_rejected() {
    let mut dag = Store::new(4);
    let u0 = round0_unit(0, 4, 0);
    let h0 = u0.content_hash();
    dag.insert(u0).unwrap();
    // parent exists but sits in the wrong creator slot
    let kc1 = Keychain::new(4, 1);
    let bad_slot = Unit::new(1, 1, vec![None, Some(h0), None, None], 0, &kc1);
    assert_eq!(dag.insert(bad_slot), Err(Reject::RoundMismatch));
    // parents resolve but are fewer than a quorum
    let one_parent = Unit::new(1, 1, vec![Some(h0), None, None, None], 0, &kc1);
    assert_eq!(dag.insert(one_parent), Err(Reject::RoundMismatch));
}

#[test]
fn fork_is_stored_and_reported() {
    let mut dag = Store::new(4);
    let a = round0_unit(3, 4, 10);
    let b = round0_unit(3, 4, 11);
    assert_ne!(a.content_hash(), b.content_hash());
    assert_eq!(dag.insert(a), Ok(InsertResponse::Added));
    assert_eq!(dag.insert(b), Ok(InsertResponse::Fork));
    assert_eq!(dag.len(), 2);
    assert_eq!(dag.units_of_creator_round(3, 0).len(), 2);
}

#[test]
fn creator_needs_quorum_with_own_unit() {
    // the end-to-end eligibility rule: 4 nodes, f = 1; once a node sees 3 of
    // 4 round-0 units, its own among them, round-1 creation becomes eligible
    let n = 4u64;
    let mut dag = Store::new(n);
    let kc0 = Keychain::new(n, 0);
    let mut creator = Creator::new(0, n, 5000, DELAY, 0);
    assert!(creator.ready(&dag, 50));
    let u0 = creator.create_unit(&dag, 100, &kc0, 50);
    assert_eq!(u0.round, 0);
    assert_eq!(u0.creator, 0);
    dag.insert(u0).unwrap();
    // only two round-0 units known: not yet eligible for round 1
    dag.insert(round0_unit(1, n, 101)).unwrap();
    assert!(!creator.ready(&dag, 1000));
    // the third distinct creator completes the quorum
    dag.insert(round0_unit(2, n, 102)).unwrap();
    assert!(creator.ready(&dag, 1000));
    let u1 = creator.create_unit(&dag, 103, &kc0, 1000);
    assert_eq!(u1.round, 1);
    assert_eq!(u1.parents.iter().filter(|p| p.is_some()).count(), 3);
    assert!(u1.parents[0].is_some());
    assert!(u1.parents[3].is_none());
    assert_eq!(dag.insert(u1), Ok(InsertResponse::Added));
}

#[test]
fn creator_respects_delay_and_ceiling() {
    let n = 4u64;
    let dag = Store::new(n);
    let creator = Creator::new(0, n, 5000, DELAY, 100);
    assert!(!creator.ready(&dag, 120));
    assert!(creator.ready(&dag, 150));
    let capped = Creator::new(0, n, 0, DELAY, 0);
    assert!(!capped.ready(&dag, 1_000_000));
}

#[test]
fn backup_replay_resumes_past_saved_rounds() {
    let n = 4u64;
    let mut dag = Store::new(n);
    let kc0 = Keychain::new(n, 0);
    let mut creator = Creator::new(0, n, 5000, DELAY, 0);
    let mut backup = Backup::new();
    let u0 = creator.create_unit(&dag, 1, &kc0, 50);
    backup.save(u0.clone());
    dag.insert(u0.clone()).unwrap();
    for c in 1..n {
        dag.insert(round0_unit(c, n, c)).unwrap();
    }
    let u1 = creator.create_unit(&dag, 2, &kc0, 100);
    backup.save(u1.clone());
    assert_eq!(backup.len(), 2);

    // crash: a fresh creator replays the backup and resumes at round 2,
    // so the saved units are never re-created or re-signed
    let recovered = Backup::from_units(backup.units().clone());
    let mut restarted = Creator::new(0, n, 5000, DELAY, 0);
    assert!(restarted.resume(recovered.units(), 0));
    assert_eq!(restarted.round, 2);
    assert!(restarted.round > u0.round);
    assert!(restarted.round > u1.round);
}

#[test]
fn backup_replay_of_empty_log_starts_at_zero() {
    let mut creator = Creator::new(2, 4, 5000, DELAY, 0);
    let empty: Vec<Unit> = Vec::new();
    assert!(creator.resume(&empty, 0));
    assert_eq!(creator.round, 0);
}

#[test]
fn multisig_counts_distinct_signers() {
    let mut ms = Multisig::new(77, 4);
    assert!(!ms.is_complete(3));
    let s1 = Keychain::new(4, 1).sign(77);
    assert!(ms.add_share(1, s1));
    // a duplicate share from the same signer is not counted twice
    assert!(!ms.add_share(1, s1));
    assert_eq!(ms.share_count(), 1);
    // a share over the wrong message is refused
    assert!(!ms.add_share(2, Keychain::new(4, 2).sign(78)));
    assert!(ms.add_share(2, Keychain::new(4, 2).sign(77)));
    assert!(ms.add_share(0, Keychain::new(4, 0).sign(77)));
    assert!(ms.is_complete(3));
}

#[test]
fn ancestry_follows_parent_links() {
    let n = 4u64;
    let mut dag = Store::new(n);
    let mut hashes0: Vec<u64> = Vec::new();
    for c in 0..n {
        let u = round0_unit(c, n, c);
        hashes0.push(u.content_hash());
        dag.insert(u).unwrap();
    }
    let kc0 = Keychain::new(n, 0);
    let parents = vec![Some(hashes0[0]), Some(hashes0[1]), Some(hashes0[2]), None];
    let u1 = Unit::new(0, 1, parents, 10, &kc0);
    let h1 = u1.content_hash();
    dag.insert(u1).unwrap();
    let kc2 = Keychain::new(n, 2);
    let parents2 = vec![Some(hashes0[0]), Some(hashes0[1]), Some(hashes0[2]), Some(hashes0[3])];
    let u2 = Unit::new(2, 1, parents2, 11, &kc2);
    let h2 = u2.content_hash();
    dag.insert(u2).unwrap();
    // reflexive, and through one parent link
    assert!(dag.is_ancestor(h1, h1));
    assert!(dag.is_ancestor(hashes0[1], h1));
    // the round-0 unit of creator 3 is a parent of u2 but not of u1
    assert!(dag.is_ancestor(hashes0[3], h2));
    assert!(!dag.is_ancestor(hashes0[3], h1));
    // no unit is an ancestor of an earlier one, and unknown hashes are not
    // ancestors of anything
    assert!(!dag.is_ancestor(h1, hashes0[0]));
    assert!(!dag.is_ancestor(12345, h1));
}
