use kurtosis_rust_lib::readiness::{
    PollAction, PollVerdict, PollerConfig, PollerError, Probe, ReadinessPoller,
    DEFAULT_POLL_INTERVAL_MS, DEFAULT_READINESS_DEADLINE_MS,
};

fn config(interval_ms: u64, deadline_ms: u64) -> PollerConfig {
    PollerConfig::new(interval_ms, deadline_ms).unwrap()
}

/// Polls a service that answers `answers` in turn and `last` from then on, on
/// a clock that only the sleeps move. Returns the verdict, the time at which
/// it came and the number of checks that were run.
fn poll(config: PollerConfig, answers: &[Probe], last: Probe, check_takes_ms: u64) -> (PollVerdict, u64, u64) {
    let mut now = 1_000;
    let mut checks = 0;
    let (mut poller, mut action) = ReadinessPoller::start(config, now, false);
    loop {
        action = match action {
            PollAction::Check => {
                let probe = answers.get(checks as usize).copied().unwrap_or(last);
                checks += 1;
                now += check_takes_ms;
                poller.on_probe(now, false, probe)
            }
            PollAction::Sleep(ms) => {
                assert!(ms > 0);
                now += ms;
                poller.on_wake(now, false)
            }
            PollAction::Finish(verdict) => {
                assert_eq!(poller.get_verdict(), Some(verdict));
                assert_eq!(poller.get_checks(), checks);
                return (verdict, now - 1_000, checks);
            }
        };
    }
}

#[test]
fn poller_config_rejects_a_zero_interval() {
    assert_eq!(PollerConfig::new(0, 5_000), Err(PollerError::ZeroInterval));
    let c = config(250, 0);
    assert_eq!((c.interval_ms(), c.deadline_ms()), (250, 0));
}

#[test]
fn poller_config_has_defaults() {
    let c = PollerConfig::defaults();
    assert_eq!(c.interval_ms(), DEFAULT_POLL_INTERVAL_MS);
    assert_eq!(c.deadline_ms(), DEFAULT_READINESS_DEADLINE_MS);
    assert!(c.interval_ms() > 0);
}

#[test]
fn poller_is_ready_at_the_first_good_answer() {
    assert_eq!(poll(config(1_000, 5_000), &[], Probe::Available, 0), (PollVerdict::Ready, 0, 1));
    let answers = [Probe::Unavailable, Probe::Failed, Probe::Unavailable];
    assert_eq!(poll(config(1_000, 5_000), &answers, Probe::Available, 0), (PollVerdict::Ready, 3_000, 4));
}

#[test]
fn poller_times_out_within_the_deadline_and_one_interval() {
    // a service that never answers well, five seconds to become ready
    let (verdict, after_ms, checks) = poll(config(1_000, 5_000), &[], Probe::Unavailable, 0);
    assert_eq!(verdict, PollVerdict::TimedOut);
    assert_eq!(after_ms, 5_000);
    assert_eq!(checks, 5);
    // the same with checks that take their time
    let (verdict, after_ms, _) = poll(config(1_000, 5_000), &[], Probe::Unavailable, 300);
    assert_eq!(verdict, PollVerdict::TimedOut);
    assert!((5_000..6_000).contains(&after_ms));
}

#[test]
fn poller_treats_a_failed_check_as_not_ready_yet() {
    let (verdict, after_ms, checks) = poll(config(2_000, 5_000), &[], Probe::Failed, 0);
    assert_eq!((verdict, after_ms, checks), (PollVerdict::TimedOut, 5_000, 3));
}

#[test]
fn poller_never_sleeps_beyond_the_deadline() {
    let (mut poller, action) = ReadinessPoller::start(config(1_000, 2_500), 0, false);
    assert_eq!(action, PollAction::Check);
    assert_eq!(poller.on_probe(100, false, Probe::Unavailable), PollAction::Sleep(1_000));
    assert_eq!(poller.on_wake(1_100, false), PollAction::Check);
    assert_eq!(poller.on_probe(1_200, false, Probe::Unavailable), PollAction::Sleep(1_000));
    assert_eq!(poller.on_wake(2_200, false), PollAction::Check);
    assert_eq!(poller.on_probe(2_300, false, Probe::Unavailable), PollAction::Sleep(200));
    assert_eq!(poller.on_wake(2_500, false), PollAction::Finish(PollVerdict::TimedOut));
    assert_eq!(poller.get_checks(), 3);
}

#[test]
fn poller_without_time_checks_nothing() {
    let (poller, action) = ReadinessPoller::start(config(1_000, 0), 7, false);
    assert_eq!(action, PollAction::Finish(PollVerdict::TimedOut));
    assert_eq!(poller.get_checks(), 0);
}

#[test]
fn poller_accepts_a_good_answer_that_comes_late() {
    let (mut poller, _) = ReadinessPoller::start(config(1_000, 5_000), 0, false);
    assert_eq!(poller.on_probe(9_000, false, Probe::Available), PollAction::Finish(PollVerdict::Ready));
}

#[test]
fn poller_stops_when_the_network_is_closing() {
    let (poller, action) = ReadinessPoller::start(config(1_000, 5_000), 0, true);
    assert_eq!(action, PollAction::Finish(PollVerdict::Cancelled));
    assert_eq!(poller.get_checks(), 0);

    let (mut poller, _) = ReadinessPoller::start(config(1_000, 5_000), 0, false);
    assert_eq!(poller.on_probe(10, false, Probe::Unavailable), PollAction::Sleep(1_000));
    assert_eq!(poller.on_wake(1_010, true), PollAction::Finish(PollVerdict::Cancelled));
    assert_eq!(poller.get_checks(), 1);

    let (mut poller, _) = ReadinessPoller::start(config(1_000, 5_000), 0, false);
    assert_eq!(poller.on_probe(10, true, Probe::Available), PollAction::Finish(PollVerdict::Cancelled));
}

#[test]
fn poller_keeps_its_verdict() {
    let (mut poller, _) = ReadinessPoller::start(config(1_000, 5_000), 0, false);
    assert_eq!(poller.on_probe(10, false, Probe::Available), PollAction::Finish(PollVerdict::Ready));
    assert_eq!(poller.on_wake(20, true), PollAction::Finish(PollVerdict::Ready));
    assert_eq!(poller.on_probe(9_000, false, Probe::Unavailable), PollAction::Finish(PollVerdict::Ready));
    assert_eq!(poller.get_verdict(), Some(PollVerdict::Ready));
    assert_eq!(poller.get_checks(), 1);
}

#[test]
fn poller_survives_a_clock_that_goes_back() {
    let (mut poller, _) = ReadinessPoller::start(config(1_000, 5_000), 10_000, false);
    assert_eq!(poller.on_probe(4_000, false, Probe::Unavailable), PollAction::Sleep(1_000));
    assert_eq!(poller.on_wake(3_000, false), PollAction::Check);
    assert_eq!(poller.on_probe(u64::MAX, false, Probe::Unavailable), PollAction::Finish(PollVerdict::TimedOut));
}
