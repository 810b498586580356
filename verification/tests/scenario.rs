use bsm::config::port_from_config;
use bsm::protocol::QuerySession;
use bsm::supervisor::{
    interpret_liveness, start_decision, stop_decision, StartDecision, StopDecision,
};

// The `arena` instance from end to end: discovered with a config line
// `-p 5154 -suspend`, no pid marker and no disabled marker, it is started,
// confirmed running, then stopped while empty.
#[test]
fn arena_lifecycle() {
    let config = b"-p 5154 -suspend\n";
    assert_eq!(port_from_config(config), b"5154".to_vec());

    // no pid marker: not running, so status would show "not running"
    let running = interpret_liveness(false, None);
    assert!(!running);

    // start spawns; the caller then polls liveness until it holds
    assert_eq!(start_decision(running), StartDecision::Spawn);

    // the spawned server wrote its pid marker and the probe succeeds
    let running = interpret_liveness(true, Some(true));
    assert!(running);

    // a live query reports zero players, so stop may terminate
    let mut session = QuerySession::new();
    session.feed(b"BZFS0221");
    session.feed(&[0, 4, b'q', b'p']);
    session.feed(&[0, 0, 0, 0]);
    let players = session.player_count().expect("query should have finished");
    assert_eq!(players, 0);
    assert_eq!(stop_decision(running, players), StopDecision::Terminate);

    // once the process is gone the probe no longer succeeds
    assert!(!interpret_liveness(true, Some(false)));
}
