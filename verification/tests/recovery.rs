//! Reconciliation scheduling, configuration, and cooperative shutdown.

use consensus::config::{gen_config, NodeCount, NodeIndex};
use consensus::dissemination::{Disseminator, NetAction};
use consensus::terminator::Terminator;

#[test]
fn gen_config_matches_the_stock_schedule() {
    let cfg = gen_config(NodeIndex(1), NodeCount(4));
    assert_eq!(cfg.node_ix, NodeIndex(1));
    assert_eq!(cfg.session_id, 0);
    assert_eq!(cfg.n_members, NodeCount(4));
    assert_eq!(cfg.max_round, 5000);
    let d = cfg.delay_config;
    assert_eq!(d.tick_interval_ms, 5);
    assert_eq!(d.unit_rebroadcast_interval_min_ms, 400);
    assert_eq!(d.unit_rebroadcast_interval_max_ms, 500);
    // 50, 50, 50, 50, ...
    assert_eq!(d.unit_creation_delay.delay_ms(0), 50);
    assert_eq!(d.unit_creation_delay.delay_ms(4999), 50);
    // 100, 100, 100, ...
    assert_eq!(d.coord_request_delay.delay_ms(0), 100);
    assert_eq!(d.coord_request_delay.delay_ms(17), 100);
    // 3, 1, 1, 1, ...
    assert_eq!(d.coord_request_recipients.recipients(0), 3);
    assert_eq!(d.coord_request_recipients.recipients(1), 1);
    assert_eq!(d.coord_request_recipients.recipients(90), 1);
    // 50, 50, 50, 50, ...
    assert_eq!(d.parent_request_delay.delay_ms(0), 50);
    // 1, 1, 1, ...
    assert_eq!(d.parent_request_recipients.recipients(0), 1);
    assert_eq!(d.parent_request_recipients.recipients(5), 1);
    // 50, 50, 50, 50, ...
    assert_eq!(d.newest_request_delay.delay_ms(0), 50);
}

#[test]
fn coordinator_requests_fan_out_three_then_one_until_resolved() {
    let cfg = gen_config(NodeIndex(0), NodeCount(4)).delay_config;
    let mut diss = Disseminator::new(cfg, 0);
    diss.note_missing_coord(2, 7, 0);
    // the network drops everything: the request is retried on every due
    // tick, 3 recipients on the first attempt, 1 on every later one
    let first = diss.tick_coord_requests(0);
    assert_eq!(first, vec![NetAction::RequestCoord { creator: 2, round: 7, recipients: 3 }]);
    // not due again before the configured 100 ms delay
    assert!(diss.tick_coord_requests(50).is_empty());
    for attempt in 1..5u64 {
        let actions = diss.tick_coord_requests(attempt * 100);
        assert_eq!(
            actions,
            vec![NetAction::RequestCoord { creator: 2, round: 7, recipients: 1 }],
            "retry must continue while the slot is unsatisfied"
        );
    }
    // the unit finally arrives: no further requests
    diss.resolve_coord(2, 7);
    assert!(diss.tick_coord_requests(10_000).is_empty());
}

#[test]
fn rebroadcast_until_acknowledged_within_interval_bounds() {
    let cfg = gen_config(NodeIndex(0), NodeCount(4)).delay_config;
    let mut diss = Disseminator::new(cfg, 0);
    diss.add_unit(42, 0);
    let a = diss.tick_broadcasts(0, 12345);
    assert_eq!(a, vec![NetAction::Broadcast { hash: 42 }]);
    // the drawn interval lies in [400, 500]: nothing is due at 399
    assert!(diss.tick_broadcasts(399, 0).is_empty());
    // by 500 every possible draw is due again
    let b = diss.tick_broadcasts(500, 777);
    assert_eq!(b, vec![NetAction::Broadcast { hash: 42 }]);
    // the exact draw is min + rand % (max - min + 1)
    assert_eq!(diss.pending[0].next_due_ms, 500 + 400 + 777 % 101);
    diss.ack_unit(42);
    assert!(diss.tick_broadcasts(100_000, 3).is_empty());
}

#[test]
fn parent_and_newest_requests_retry_until_satisfied() {
    let cfg = gen_config(NodeIndex(0), NodeCount(4)).delay_config;
    let mut diss = Disseminator::new(cfg, 0);
    diss.note_missing_parents(9, 0);
    assert_eq!(
        diss.tick_parent_requests(0),
        vec![NetAction::RequestParents { hash: 9, recipients: 1 }]
    );
    assert!(diss.tick_parent_requests(49).is_empty());
    assert_eq!(
        diss.tick_parent_requests(50),
        vec![NetAction::RequestParents { hash: 9, recipients: 1 }]
    );
    diss.resolve_parents(9);
    assert!(diss.tick_parent_requests(1000).is_empty());

    assert_eq!(diss.tick_newest(1000), Some(NetAction::RequestNewest));
    assert_eq!(diss.tick_newest(1049), None);
    assert_eq!(diss.tick_newest(1050), Some(NetAction::RequestNewest));
}

#[test]
fn terminator_waits_for_every_scope() {
    let mut term = Terminator::create_root();
    let creation = term.add_scope(0);
    let network = term.add_scope(0);
    let network_child = term.add_scope(network);
    assert!(!term.terminated());
    term.fire();
    assert!(term.should_exit());
    assert!(!term.terminated(), "no scope has acknowledged yet");
    term.ack(creation);
    term.ack(network);
    assert!(
        !term.scope_terminated(network),
        "a scope is not done while a nested scope still runs"
    );
    term.ack(network_child);
    assert!(term.scope_terminated(network));
    assert!(!term.terminated(), "the root has not acknowledged");
    term.ack(0);
    assert!(term.terminated());
}

#[test]
fn exit_signal_is_observed_before_any_ack() {
    let mut term = Terminator::create_root();
    let worker = term.add_scope(0);
    assert!(!term.should_exit());
    term.fire();
    assert!(term.should_exit());
    term.ack(worker);
    term.ack(0);
    assert!(term.terminated());
}
