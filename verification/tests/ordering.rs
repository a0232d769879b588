//! Ordering: safety across nodes, fork exclusion, and the whole-committee
//! scenario.

use consensus::alerts::{Alert, AlertState};
use consensus::creator::Creator;
use consensus::config::DelaySchedule;
use consensus::dag::Store;
use consensus::extender::Extender;
use consensus::keys::Keychain;
use consensus::units::{quorum, Unit};

const DELAY: DelaySchedule = DelaySchedule { first_ms: 50, later_ms: 50 };

fn round0_unit(creator: u64, n: u64, payload: u64) -> Unit {
    let kc = Keychain::new(n, creator);
    let parents: Vec<Option<u64>> = (0..n).map(|_| None).collect();
    Unit::new(creator, 0, parents, payload, &kc)
}

/// Run a loss-free committee of `n` nodes for `rounds` rounds; each node
/// inserts every round's units in a different (rotated) order, then drains
/// its extender.  Returns each node's finalized hash log.
fn run_committee(n: u64, rounds: u64) -> Vec<Vec<u64>> {
    let mut dags: Vec<Store> = (0..n).map(|_| Store::new(n)).collect();
    let mut creators: Vec<Creator> =
        (0..n).map(|i| Creator::new(i, n, rounds, DELAY, 0)).collect();
    let mut extenders: Vec<Extender> = (0..n).map(|_| Extender::new(n)).collect();
    let mut logs: Vec<Vec<u64>> = (0..n).map(|_| Vec::new()).collect();
    let mut now = 0u64;
    for _round in 0..rounds {
        now += 50;
        // every node creates its unit from its own DAG view
        let mut created: Vec<Unit> = Vec::new();
        for i in 0..n as usize {
            let kc = Keychain::new(n, i as u64);
            assert!(creators[i].ready(&dags[i], now));
            created.push(creators[i].create_unit(&dags[i], now + i as u64, &kc, now));
        }
        // delivery order differs per node
        for i in 0..n as usize {
            for k in 0..n as usize {
                let u = created[(i + k) % n as usize].clone();
                dags[i].insert(u).unwrap();
            }
        }
        // each node finalizes as far as its view allows
        for i in 0..n as usize {
            while let Some(batch) = extenders[i].next_batch(&dags[i]) {
                for &ix in &batch {
                    logs[i].push(dags[i].unit_at(ix).content_hash());
                }
            }
        }
    }
    logs
}

#[test]
fn safety_identical_logs_across_nodes() {
    let logs = run_committee(4, 6);
    assert!(!logs[0].is_empty());
    for i in 1..4 {
        assert_eq!(logs[0], logs[i]);
    }
}

#[test]
fn end_to_end_committee_finalizes_every_creator() {
    // 4 nodes, f = 1, rounds up to the configured ceiling of the test run:
    // the finalized logs are identical and hold one unit per creator for
    // every finalized round
    let n = 4u64;
    let rounds = 6u64;
    let logs = run_committee(n, rounds);
    for i in 1..n as usize {
        assert_eq!(logs[0], logs[i]);
    }
    // the lookahead margin lags the newest round by two: everything below
    // it is finalized — n units per round plus the last elected head
    assert_eq!(logs[0].len() as u64, n * (rounds - 2) + 1);
    // nothing is ordered twice
    let mut dedup = logs[0].clone();
    dedup.sort_unstable();
    dedup.dedup();
    assert_eq!(dedup.len(), logs[0].len());
}

#[test]
fn batches_are_emitted_in_order_and_never_revised() {
    let n = 4u64;
    let mut dag = Store::new(n);
    for c in 0..n {
        dag.insert(round0_unit(c, n, c)).unwrap();
    }
    let mut ext = Extender::new(n);
    // margin not met: round 1 has no units yet
    assert!(ext.next_batch(&dag).is_none());
    // grow round 1 from a quorum of creators
    let h: Vec<usize> = (0..n).map(|c| dag.units_of_creator_round(c, 0)[0]).collect();
    let hashes: Vec<u64> = h.iter().map(|&i| dag.unit_at(i).content_hash()).collect();
    for c in 0..3u64 {
        let kc = Keychain::new(n, c);
        let parents = vec![Some(hashes[0]), Some(hashes[1]), Some(hashes[2]), Some(hashes[3])];
        let u = Unit::new(c, 1, parents, 100 + c, &kc);
        dag.insert(u).unwrap();
    }
    let batch = ext.next_batch(&dag).expect("round 0 should finalize");
    assert!(!batch.is_empty());
    let prefix = ext.ordered.clone();
    // later calls only append
    let _ = ext.next_batch(&dag);
    assert_eq!(&ext.ordered[..prefix.len()], &prefix[..]);
    // the batch is sorted by (round, creator, hash)
    for w in batch.windows(2) {
        let a = dag.unit_at(w[0]);
        let b = dag.unit_at(w[1]);
        let ka = (a.round, a.creator, a.content_hash());
        let kb = (b.round, b.creator, b.content_hash());
        assert!(ka < kb);
    }
}

#[test]
fn alert_confirmation_needs_quorum() {
    let n = 4u64;
    let a = round0_unit(2, n, 50);
    let b = round0_unit(2, n, 51);
    let alert = Alert::new(2, 0, a, b);
    assert!(alert.verify_evidence());
    let mut state = AlertState::new(alert, n);
    let q = quorum(n);
    assert!(!state.is_confirmed(q));
    let digest = state.alert.digest();
    assert!(state.add_confirmation(0, Keychain::new(n, 0).sign(digest)));
    assert!(state.add_confirmation(1, Keychain::new(n, 1).sign(digest)));
    assert!(!state.is_confirmed(q));
    // a signature over something else contributes nothing
    assert!(!state.add_confirmation(3, Keychain::new(n, 3).sign(digest.wrapping_add(1))));
    assert!(!state.is_confirmed(q));
    assert!(state.add_confirmation(3, Keychain::new(n, 3).sign(digest)));
    assert!(state.is_confirmed(q));
}

#[test]
fn bad_evidence_is_not_an_alert() {
    let n = 4u64;
    let a = round0_unit(2, n, 50);
    let b = round0_unit(3, n, 51);
    // different creators: no fork
    assert!(!Alert::new(2, 0, a.clone(), b).verify_evidence());
    // the same unit twice: no fork
    assert!(!Alert::new(2, 0, a.clone(), a).verify_evidence());
}

#[test]
fn confirmed_fork_excludes_later_units() {
    let n = 4u64;
    let mut dag = Store::new(n);
    for c in 0..n {
        dag.insert(round0_unit(c, n, c)).unwrap();
    }
    // creator 2 forks at round 0
    let fork_twin = round0_unit(2, n, 99);
    dag.insert(fork_twin).unwrap();
    let hashes: Vec<u64> = (0..n)
        .map(|c| {
            let i = dag.canonical_unit(c, 0).unwrap();
            dag.unit_at(i).content_hash()
        })
        .collect();
    // rounds 1 and 2 from all creators, creator 2 included
    let mut prev = hashes.clone();
    for r in 1..3u64 {
        let mut next: Vec<u64> = Vec::new();
        for c in 0..n {
            let kc = Keychain::new(n, c);
            let parents = prev.iter().map(|&h| Some(h)).collect();
            let u = Unit::new(c, r, parents, 1000 * r + c, &kc);
            next.push(u.content_hash());
            dag.insert(u).unwrap();
        }
        prev = next;
    }
    // the alert for the round-0 fork is confirmed: exclude creator 2
    // beyond the fork point before anything is finalized
    let mut ext = Extender::new(n);
    ext.exclude(2, 0);
    let mut finalized: Vec<usize> = Vec::new();
    while let Some(batch) = ext.next_batch(&dag) {
        finalized.extend(batch);
    }
    assert!(!finalized.is_empty());
    for &i in &finalized {
        let u = dag.unit_at(i);
        assert!(
            !(u.creator == 2 && u.round > 0),
            "no unit of the forker past the fork point may be finalized"
        );
    }
    // units of creator 2 at the fork round itself may still be ordered
    assert!(finalized.iter().any(|&i| dag.unit_at(i).creator == 2));
}
