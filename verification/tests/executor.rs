use kurtosis_rust_lib::address::Subnet;
use kurtosis_rust_lib::executor::{effective_width, TestExecutor};
use kurtosis_rust_lib::network::{NetworkError, NetworkState};
use kurtosis_rust_lib::outcome::{
    BodyResult, ErrorSite, Fault, Outcome, SkipReason, Stage, TestResult,
};
use kurtosis_rust_lib::readiness::PollVerdict;
use kurtosis_rust_lib::service::{ServiceDescriptor, ServiceState};

const BASE: u32 = 0x0a00_0000;

fn subnet(width: u32) -> Subnet {
    Subnet::new(BASE, width).unwrap()
}

fn descriptor(id: &str) -> ServiceDescriptor {
    ServiceDescriptor {
        id: id.to_string(),
        image: "image".to_string(),
        ports: Vec::new(),
        command: None,
        files: Vec::new(),
    }
}

fn executor() -> TestExecutor {
    TestExecutor::new("t1".to_string(), 4, 60_000, 1_000)
}

/// An executor whose initializer has added two ready services.
fn in_execution() -> TestExecutor {
    let mut e = executor();
    let mut network = e.network_created(1_100, Ok(subnet(4))).unwrap();
    for id in ["db", "api"] {
        network.add_service(descriptor(id)).unwrap();
        network.service_started(id).unwrap();
        network.service_ready(id).unwrap();
    }
    assert!(e.initializer_returned(1_200, network, Ok(())).is_none());
    assert_eq!(e.get_stage(), Stage::Execution);
    e
}

fn finish(e: &mut TestExecutor, teardown_ok: bool) -> TestResult {
    e.begin_teardown();
    e.finish_teardown(2_000, teardown_ok);
    e.result().unwrap()
}

fn errored(site: ErrorSite, fault: Fault) -> Outcome {
    Outcome::Errored(site, fault)
}

#[test]
fn width_of_a_test_falls_back_to_the_suite() {
    assert_eq!(effective_width(Some(6), 4), 6);
    assert_eq!(effective_width(None, 4), 4);
    assert_eq!(effective_width(Some(0), 4), 0);
}

#[test]
fn executor_begins_with_the_setup() {
    let e = executor();
    assert_eq!(e.get_stage(), Stage::Setup);
    assert_eq!(e.get_name(), "t1");
    assert_eq!(e.get_width_bits(), 4);
    assert!(!e.is_cancelled());
    assert_eq!(e.get_verdict(), &None);
    assert!(e.get_network().is_none());
    assert_eq!(e.result(), None);
}

#[test]
fn executor_refuses_a_width_that_no_subnet_has() {
    for width in [0, 25, u32::MAX] {
        let mut e = TestExecutor::new("t1".to_string(), width, 60_000, 1_000);
        assert_eq!(e.get_stage(), Stage::Teardown);
        assert!(e.network_created(1_100, Ok(subnet(4))).is_none());
        assert!(e.begin_teardown().is_empty());
        e.finish_teardown(1_500, true);
        let result = e.result().unwrap();
        assert_eq!(result.outcome, errored(ErrorSite::Setup, Fault::InvalidWidth));
        assert_eq!(result.duration_ms, 500);
    }
}

#[test]
fn executor_passes_a_test_that_passes() {
    let mut e = in_execution();
    e.body_returned(1_300, BodyResult::Passed);
    assert_eq!(e.get_stage(), Stage::Teardown);
    assert_eq!(e.result(), None);
    assert_eq!(e.begin_teardown(), vec!["api", "db"]);
    assert_eq!(e.get_network().as_ref().unwrap().get_state(), NetworkState::Closing);
    e.finish_teardown(1_400, true);
    assert_eq!(e.get_stage(), Stage::Done);
    assert_eq!(
        e.result(),
        Some(TestResult {
            name: "t1".to_string(),
            outcome: Outcome::Passed,
            duration_ms: 400,
            teardown_failed: false,
        })
    );
}

#[test]
fn executor_closes_the_network_whatever_happened() {
    let bodies = [BodyResult::Passed, BodyResult::Failed("no".to_string()), BodyResult::Fault];
    for body in bodies {
        for teardown_ok in [true, false] {
            let mut e = in_execution();
            e.body_returned(1_300, body.clone());
            finish(&mut e, teardown_ok);
            let network = e.get_network().as_ref().unwrap();
            assert_eq!(network.get_state(), NetworkState::Closed);
            assert_eq!(network.service_count(), 2);
            for i in 0..network.service_count() {
                assert_eq!(network.service_at(i).get_state(), ServiceState::Stopped);
            }
        }
    }
}

#[test]
fn executor_reports_a_failed_assertion_with_its_reason() {
    let mut e = in_execution();
    e.body_returned(1_300, BodyResult::Failed("expected 7, got 8".to_string()));
    let result = finish(&mut e, true);
    assert_eq!(result.outcome, Outcome::Failed("expected 7, got 8".to_string()));
}

#[test]
fn executor_charges_a_fault_of_the_body_to_the_execution() {
    let mut e = in_execution();
    e.body_returned(1_300, BodyResult::Fault);
    assert_eq!(finish(&mut e, true).outcome, errored(ErrorSite::Execution, Fault::UnexpectedFault));
}

#[test]
fn executor_downgrades_a_pass_when_the_teardown_fails() {
    let mut e = in_execution();
    e.body_returned(1_300, BodyResult::Passed);
    let result = finish(&mut e, false);
    assert_eq!(result.outcome, errored(ErrorSite::Teardown, Fault::TeardownFailed));
    // the pass is still on record
    assert_eq!(e.get_verdict(), &Some(Outcome::Passed));
}

#[test]
fn executor_keeps_a_failure_when_the_teardown_fails() {
    let mut e = in_execution();
    e.body_returned(1_300, BodyResult::Failed("no".to_string()));
    let result = finish(&mut e, false);
    assert_eq!(result.outcome, Outcome::Failed("no".to_string()));
    assert!(result.teardown_failed);

    let mut e = executor();
    let network = e.network_created(1_100, Ok(subnet(4))).unwrap();
    e.initializer_returned(1_200, network, Err(Fault::StartFailed));
    assert_eq!(finish(&mut e, false).outcome, errored(ErrorSite::Provisioning, Fault::StartFailed));
}

#[test]
fn executor_charges_a_failed_setup_to_the_setup() {
    let mut e = executor();
    assert!(e.network_created(1_100, Err(Fault::NetworkCreateFailed)).is_none());
    assert_eq!(e.get_stage(), Stage::Teardown);
    assert!(e.get_network().is_none());
    assert!(e.begin_teardown().is_empty());
    assert_eq!(finish(&mut e, true).outcome, errored(ErrorSite::Setup, Fault::NetworkCreateFailed));
}

#[test]
fn executor_refuses_a_network_of_the_wrong_width() {
    let mut e = executor();
    assert!(e.network_created(1_100, Ok(subnet(5))).is_none());
    // the network was created, so that it is closed
    assert_eq!(e.get_network().as_ref().unwrap().get_state(), NetworkState::Open);
    let result = finish(&mut e, true);
    assert_eq!(result.outcome, errored(ErrorSite::Setup, Fault::NetworkCreateFailed));
    assert_eq!(e.get_network().as_ref().unwrap().get_state(), NetworkState::Closed);
}

#[test]
fn executor_charges_failures_of_the_initializer_to_the_provisioning() {
    let faults = [
        Fault::PoolExhausted,
        Fault::AddressInUse,
        Fault::StartFailed,
        Fault::ImagePullFailed,
        Fault::ReadinessTimeout,
        Fault::ServiceRejected,
        Fault::UserInitError,
    ];
    for fault in faults {
        let mut e = executor();
        let mut network = e.network_created(1_100, Ok(subnet(4))).unwrap();
        network.add_service(descriptor("db")).unwrap();
        network.service_started("db").unwrap();
        assert!(e.initializer_returned(1_200, network, Err(fault)).is_none());
        assert_eq!(e.get_stage(), Stage::Teardown);
        assert_eq!(e.begin_teardown(), vec!["db"]);
        e.finish_teardown(1_300, true);
        assert_eq!(e.result().unwrap().outcome, errored(ErrorSite::Provisioning, fault));
        let network = e.get_network().as_ref().unwrap();
        assert_eq!(network.service("db").unwrap().get_state(), ServiceState::Failed);
        assert_eq!(network.get_state(), NetworkState::Closed);
    }
}

#[test]
fn executor_charges_an_interrupted_initializer_to_the_cancellation() {
    let mut e = executor();
    let network = e.network_created(1_100, Ok(subnet(4))).unwrap();
    e.initializer_returned(1_200, network, Err(Fault::Interrupted(Stage::Provisioning)));
    assert_eq!(
        finish(&mut e, true).outcome,
        errored(ErrorSite::Cancelled, Fault::Interrupted(Stage::Provisioning))
    );
}

#[test]
fn executor_remembers_a_cancellation_until_the_stage_ends() {
    // during the setup
    let mut e = executor();
    e.cancel();
    assert!(e.is_cancelled());
    assert_eq!(e.get_stage(), Stage::Setup);
    assert!(e.network_created(1_100, Ok(subnet(4))).is_none());
    assert!(e.get_network().is_some());
    assert_eq!(
        finish(&mut e, true).outcome,
        errored(ErrorSite::Cancelled, Fault::Interrupted(Stage::Setup))
    );
    assert_eq!(e.get_network().as_ref().unwrap().get_state(), NetworkState::Closed);

    // while the initializer runs
    let mut e = executor();
    let network = e.network_created(1_100, Ok(subnet(4))).unwrap();
    e.cancel();
    e.initializer_returned(1_200, network, Ok(()));
    assert_eq!(
        finish(&mut e, true).outcome,
        errored(ErrorSite::Cancelled, Fault::Interrupted(Stage::Provisioning))
    );

    // while the body runs
    let mut e = in_execution();
    e.cancel();
    e.body_returned(1_300, BodyResult::Passed);
    assert_eq!(
        finish(&mut e, true).outcome,
        errored(ErrorSite::Cancelled, Fault::Interrupted(Stage::Execution))
    );
}

#[test]
fn executor_ignores_a_cancellation_that_comes_late() {
    let mut e = in_execution();
    e.body_returned(1_300, BodyResult::Passed);
    e.cancel();
    assert!(!e.is_cancelled());
    assert_eq!(finish(&mut e, true).outcome, Outcome::Passed);
    e.cancel();
    assert!(!e.is_cancelled());
    assert_eq!(e.result().unwrap().outcome, Outcome::Passed);
}

#[test]
fn executor_times_out_when_the_deadline_passes() {
    // in the setup
    let mut e = TestExecutor::new("t1".to_string(), 4, 500, 1_000);
    assert!(e.network_created(1_500, Ok(subnet(4))).is_none());
    assert_eq!(finish(&mut e, true).outcome, Outcome::TimedOut);
    assert_eq!(e.get_network().as_ref().unwrap().get_state(), NetworkState::Closed);

    // while the initializer runs
    let mut e = TestExecutor::new("t1".to_string(), 4, 500, 1_000);
    let network = e.network_created(1_499, Ok(subnet(4))).unwrap();
    e.initializer_returned(1_500, network, Ok(()));
    assert_eq!(e.get_stage(), Stage::Teardown);
    assert_eq!(finish(&mut e, true).outcome, Outcome::TimedOut);

    // while the body runs
    let mut e = TestExecutor::new("t1".to_string(), 4, 500, 1_000);
    let network = e.network_created(1_100, Ok(subnet(4))).unwrap();
    e.initializer_returned(1_200, network, Ok(()));
    e.body_returned(9_000, BodyResult::Passed);
    assert_eq!(finish(&mut e, true).outcome, Outcome::TimedOut);
}

#[test]
fn executor_does_not_count_the_teardown_against_the_deadline() {
    let mut e = TestExecutor::new("t1".to_string(), 4, 500, 1_000);
    let network = e.network_created(1_100, Ok(subnet(4))).unwrap();
    e.initializer_returned(1_200, network, Ok(()));
    e.body_returned(1_499, BodyResult::Passed);
    e.begin_teardown();
    e.finish_teardown(60_000, true);
    let result = e.result().unwrap();
    assert_eq!(result.outcome, Outcome::Passed);
    assert_eq!(result.duration_ms, 59_000);
}

#[test]
fn executor_ignores_events_that_are_out_of_place() {
    let mut e = executor();
    e.body_returned(1_100, BodyResult::Passed);
    e.finish_teardown(1_100, true);
    assert!(e.begin_teardown().is_empty());
    assert_eq!(e.get_stage(), Stage::Setup);
    let stray = kurtosis_rust_lib::network::NetworkContext::new(subnet(4));
    assert!(e.initializer_returned(1_100, stray, Ok(())).is_some());
    assert_eq!(e.get_stage(), Stage::Setup);

    let mut e = in_execution();
    assert!(e.network_created(1_300, Ok(subnet(4))).is_none());
    assert_eq!(e.get_stage(), Stage::Execution);
    assert_eq!(e.get_network().as_ref().unwrap().service_count(), 2);
    e.body_returned(1_300, BodyResult::Passed);
    e.body_returned(1_300, BodyResult::Fault);
    finish(&mut e, true);
    e.finish_teardown(5_000, false);
    assert!(e.begin_teardown().is_empty());
    assert_eq!(
        e.result(),
        Some(TestResult {
            name: "t1".to_string(),
            outcome: Outcome::Passed,
            duration_ms: 1_000,
            teardown_failed: false,
        })
    );
}

#[test]
fn outcome_rules() {
    assert_eq!(Outcome::Passed.settle(true), Outcome::Passed);
    assert_eq!(Outcome::Passed.settle(false), errored(ErrorSite::Teardown, Fault::TeardownFailed));
    assert_eq!(Outcome::TimedOut.settle(false), Outcome::TimedOut);
    assert_eq!(
        Outcome::Skipped(SkipReason::Cancelled).settle(false),
        Outcome::Skipped(SkipReason::Cancelled)
    );
    assert!(Outcome::Passed.is_passed());
    assert!(!Outcome::TimedOut.is_passed());
    let failed = Outcome::Failed("why".to_string());
    assert_eq!(failed.duplicate(), failed);
    assert_eq!(Outcome::of_body(BodyResult::Passed), Outcome::Passed);
    assert_eq!(Outcome::of_body(BodyResult::Failed("why".to_string())), failed);
    assert_eq!(
        Outcome::of_provisioning(Fault::Interrupted(Stage::Setup)),
        errored(ErrorSite::Cancelled, Fault::Interrupted(Stage::Provisioning))
    );
    assert_eq!(Fault::of_readiness(PollVerdict::Ready), None);
    assert_eq!(Fault::of_readiness(PollVerdict::TimedOut), Some(Fault::ReadinessTimeout));
    assert_eq!(
        Fault::of_readiness(PollVerdict::Cancelled),
        Some(Fault::Interrupted(Stage::Provisioning))
    );
    assert_eq!(Fault::of_network(NetworkError::PoolExhausted), Fault::PoolExhausted);
    assert_eq!(Fault::of_network(NetworkError::DuplicateServiceId), Fault::ServiceRejected);
    assert_eq!(Fault::of_network(NetworkError::NotOpen), Fault::ServiceRejected);
}
