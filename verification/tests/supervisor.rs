use bsm::supervisor::{
    interpret_liveness, start_decision, stop_decision, StartDecision, StopDecision,
};

#[test]
fn no_pid_marker_means_not_running() {
    assert!(!interpret_liveness(false, None));
    assert!(!interpret_liveness(false, Some(true)));
}

#[test]
fn failed_probe_degrades_to_not_running() {
    assert!(!interpret_liveness(true, None));
}

#[test]
fn probe_failure_status_means_not_running() {
    assert!(!interpret_liveness(true, Some(false)));
}

#[test]
fn successful_probe_means_running() {
    assert!(interpret_liveness(true, Some(true)));
}

#[test]
fn start_is_idempotent_when_running() {
    assert_eq!(start_decision(true), StartDecision::AlreadyRunning);
}

#[test]
fn start_spawns_when_stopped() {
    assert_eq!(start_decision(false), StartDecision::Spawn);
}

#[test]
fn stop_of_stopped_instance_is_a_no_op() {
    assert_eq!(stop_decision(false, 0), StopDecision::NotRunning);
    assert_eq!(stop_decision(false, 7), StopDecision::NotRunning);
}

#[test]
fn stop_skips_occupied_instance() {
    assert_eq!(stop_decision(true, 3), StopDecision::Skipped { players: 3 });
    assert_eq!(stop_decision(true, 1), StopDecision::Skipped { players: 1 });
}

#[test]
fn stop_terminates_empty_instance() {
    assert_eq!(stop_decision(true, 0), StopDecision::Terminate);
}
