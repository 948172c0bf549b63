//! Readiness polling: when to ask a service whether it is available, how long
//! to wait between two questions, and when to give up.
//!
//! The poller neither sleeps nor reads a clock. It is told the time with
//! every event and answers with what to do next.

use crate::service::Service;
use vstd::prelude::*;

verus! {

/// The time between two availability checks, where a service names none.
pub const DEFAULT_POLL_INTERVAL_MS: u64 = 1_000;

/// The time a service has to become available, where it names none.
pub const DEFAULT_READINESS_DEADLINE_MS: u64 = 60_000;

/// Why a polling configuration was refused.
#[derive(Clone, Copy, Debug, PartialEq, Eq)]
pub enum PollerError {
    /// The interval is zero: the poller would spin.
    ZeroInterval,
}

/// How one service is polled.
#[derive(Clone, Copy, Debug, PartialEq, Eq)]
pub struct PollerConfig {
    interval_ms: u64,
    deadline_ms: u64,
}

/// The answer of one availability check.
#[derive(Clone, Copy, Debug, PartialEq, Eq)]
pub enum Probe {
    /// The service said that it is available.
    Available,
    /// The service said that it is not available.
    Unavailable,
    /// The check itself failed, which counts as not available yet.
    Failed,
}

/// How polling ended.
#[derive(Clone, Copy, Debug, PartialEq, Eq)]
pub enum PollVerdict {
    /// The service is available.
    Ready,
    /// The deadline passed before the service was available.
    TimedOut,
    /// The network was being closed.
    Cancelled,
}

/// What the caller of the poller does next.
#[derive(Clone, Copy, Debug, PartialEq, Eq)]
pub enum PollAction {
    /// Run the availability check and report its answer.
    Check,
    /// Sleep for so many milliseconds and report back.
    Sleep(u64),
    /// Stop: polling has ended.
    Finish(PollVerdict),
}

/// The time that has passed since `started_ms`, none if the clock went back.
pub open spec fn elapsed(started_ms: u64, now_ms: u64) -> int {
    if now_ms >= started_ms {
        now_ms - started_ms
    } else {
        0
    }
}

impl PollerConfig {
    /// The time between two checks.
    pub closed spec fn interval(self) -> int {
        self.interval_ms as int
    }

    /// The time the service has to become available.
    pub closed spec fn deadline(self) -> int {
        self.deadline_ms as int
    }

    /// The interval is not zero.
    pub open spec fn wf(self) -> bool {
        0 < self.interval() <= u64::MAX && 0 <= self.deadline() <= u64::MAX
    }

    /// What to do when a check is due at `now_ms`: stop if the network is
    /// closing or the deadline has passed, check otherwise.
    pub open spec fn when_due(self, started_ms: u64, now_ms: u64, closing: bool) -> PollAction {
        if closing {
            PollAction::Finish(PollVerdict::Cancelled)
        } else if elapsed(started_ms, now_ms) >= self.deadline() {
            PollAction::Finish(PollVerdict::TimedOut)
        } else {
            PollAction::Check
        }
    }

    /// What to do when a check has answered at `now_ms`: stop if the network
    /// is closing, if the service is available or if the deadline has passed;
    /// otherwise sleep for the interval, but not beyond the deadline.
    pub open spec fn when_answered(
        self,
        started_ms: u64,
        now_ms: u64,
        closing: bool,
        probe: Probe,
    ) -> PollAction {
        let left = self.deadline() - elapsed(started_ms, now_ms);
        if closing {
            PollAction::Finish(PollVerdict::Cancelled)
        } else if probe is Available {
            PollAction::Finish(PollVerdict::Ready)
        } else if left <= 0 {
            PollAction::Finish(PollVerdict::TimedOut)
        } else if left < self.interval() {
            PollAction::Sleep(left as u64)
        } else {
            PollAction::Sleep(self.interval() as u64)
        }
    }

    /// A configuration with the given interval and deadline.
    pub fn new(interval_ms: u64, deadline_ms: u64) -> (r: Result<PollerConfig, PollerError>)
        ensures
            r is Ok <==> interval_ms > 0,
            r matches Ok(c) ==> c.wf() && c.interval() == interval_ms && c.deadline()
                == deadline_ms,
    {
        if interval_ms == 0 {
            Err(PollerError::ZeroInterval)
        } else {
            Ok(PollerConfig { interval_ms, deadline_ms })
        }
    }

    /// The configuration of a service that names none.
    pub fn defaults() -> (c: PollerConfig)
        ensures
            c.wf(),
            c.interval() == DEFAULT_POLL_INTERVAL_MS,
            c.deadline() == DEFAULT_READINESS_DEADLINE_MS,
    {
        PollerConfig {
            interval_ms: DEFAULT_POLL_INTERVAL_MS,
            deadline_ms: DEFAULT_READINESS_DEADLINE_MS,
        }
    }

    /// The time between two checks, in milliseconds.
    pub fn interval_ms(&self) -> (ms: u64)
        ensures
            ms == self.interval(),
    {
        self.interval_ms
    }

    /// The time the service has to become available, in milliseconds.
    pub fn deadline_ms(&self) -> (ms: u64)
        ensures
            ms == self.deadline(),
    {
        self.deadline_ms
    }
}

impl Probe {
    /// Asks `service` whether it is available.
    ///
    /// The probe is the one for the answer that the service's own check has
    /// given: where the check promises an answer, the probe for that answer.
    pub fn of<S: Service>(service: &S) -> (p: Probe)
        ensures
            exists|answer: bool|
                call_ensures(S::is_available, (service,), answer) && p == probe_for(answer),
    {
        let answer = service.is_available();
        let p = Probe::from_answer(answer);
        assert(call_ensures(S::is_available, (service,), answer) && p == probe_for(answer));
        p
    }

    /// The probe for the answer of an availability check.
    pub fn from_answer(available: bool) -> (p: Probe)
        ensures
            p == probe_for(available),
    {
        if available {
            Probe::Available
        } else {
            Probe::Unavailable
        }
    }
}

/// The probe for the answer of an availability check: available if the
/// answer is yes, not available if it is no.
pub open spec fn probe_for(available: bool) -> Probe {
    if available {
        Probe::Available
    } else {
        Probe::Unavailable
    }
}

/// Polls one service until it is available, the deadline passes or the
/// network is being closed.
#[derive(Clone, Copy, Debug, PartialEq, Eq)]
pub struct ReadinessPoller {
    config: PollerConfig,
    started_ms: u64,
    verdict: Option<PollVerdict>,
    checks: u64,
}

impl ReadinessPoller {
    /// How the service is polled.
    pub closed spec fn config(self) -> PollerConfig {
        self.config
    }

    /// When polling began.
    pub closed spec fn started(self) -> u64 {
        self.started_ms
    }

    /// How polling ended, once it has.
    pub closed spec fn verdict(self) -> Option<PollVerdict> {
        self.verdict
    }

    /// The number of checks that were asked for.
    pub closed spec fn checks(self) -> int {
        self.checks as int
    }

    /// The verdict that `action` brings, if it ends polling.
    pub open spec fn verdict_of(action: PollAction) -> Option<PollVerdict> {
        match action {
            PollAction::Finish(v) => Some(v),
            _ => None,
        }
    }

    /// What the poller answers to an event that would bring `action`: once
    /// polling has ended, the verdict again.
    pub open spec fn answer(self, action: PollAction) -> PollAction {
        match self.verdict() {
            Some(v) => PollAction::Finish(v),
            None => action,
        }
    }

    /// Begins to poll at `now_ms`, and says what to do first.
    pub fn start(config: PollerConfig, now_ms: u64, closing: bool) -> (r: (
        ReadinessPoller,
        PollAction,
    ))
        requires
            config.wf(),
        ensures
            r.0.config() == config,
            r.0.started() == now_ms,
            r.1 == config.when_due(now_ms, now_ms, closing),
            r.0.verdict() == Self::verdict_of(r.1),
            r.0.checks() == (if r.1 is Check {
                1int
            } else {
                0int
            }),
    {
        let mut poller = ReadinessPoller { config, started_ms: now_ms, verdict: None, checks: 0 };
        let action = poller.on_wake(now_ms, closing);
        (poller, action)
    }

    /// The poller slept, or is about to check for the first time: says
    /// whether to check now.
    pub fn on_wake(&mut self, now_ms: u64, closing: bool) -> (action: PollAction)
        requires
            old(self).config().wf(),
        ensures
            final(self).config() == old(self).config(),
            final(self).started() == old(self).started(),
            action == old(self).answer(
                old(self).config().when_due(old(self).started(), now_ms, closing),
            ),
            final(self).verdict() == Self::verdict_of(action),
            final(self).checks() == (if action is Check && old(self).checks() < u64::MAX {
                old(self).checks() + 1
            } else {
                old(self).checks()
            }),
    {
        if let Some(v) = self.verdict {
            return PollAction::Finish(v);
        }
        let passed = if now_ms >= self.started_ms {
            now_ms - self.started_ms
        } else {
            0
        };
        if closing {
            self.verdict = Some(PollVerdict::Cancelled);
            PollAction::Finish(PollVerdict::Cancelled)
        } else if passed >= self.config.deadline_ms {
            self.verdict = Some(PollVerdict::TimedOut);
            PollAction::Finish(PollVerdict::TimedOut)
        } else {
            if self.checks < u64::MAX {
                self.checks = self.checks + 1;
            }
            PollAction::Check
        }
    }

    /// An availability check has answered: says whether to stop or to sleep.
    pub fn on_probe(&mut self, now_ms: u64, closing: bool, probe: Probe) -> (action: PollAction)
        requires
            old(self).config().wf(),
        ensures
            final(self).config() == old(self).config(),
            final(self).started() == old(self).started(),
            final(self).checks() == old(self).checks(),
            action == old(self).answer(
                old(self).config().when_answered(old(self).started(), now_ms, closing, probe),
            ),
            final(self).verdict() == Self::verdict_of(action),
    {
        if let Some(v) = self.verdict {
            return PollAction::Finish(v);
        }
        let passed = if now_ms >= self.started_ms {
            now_ms - self.started_ms
        } else {
            0
        };
        if closing {
            self.verdict = Some(PollVerdict::Cancelled);
            return PollAction::Finish(PollVerdict::Cancelled);
        }
        match probe {
            Probe::Available => {
                self.verdict = Some(PollVerdict::Ready);
                return PollAction::Finish(PollVerdict::Ready);
            },
            _ => {},
        }
        if passed >= self.config.deadline_ms {
            self.verdict = Some(PollVerdict::TimedOut);
            PollAction::Finish(PollVerdict::TimedOut)
        } else {
            let left = self.config.deadline_ms - passed;
            if left < self.config.interval_ms {
                PollAction::Sleep(left)
            } else {
                PollAction::Sleep(self.config.interval_ms)
            }
        }
    }

    /// How polling ended, once it has.
    pub fn get_verdict(&self) -> (v: Option<PollVerdict>)
        ensures
            v == self.verdict(),
    {
        self.verdict
    }

    /// The number of checks that were asked for.
    pub fn get_checks(&self) -> (n: u64)
        ensures
            n == self.checks(),
    {
        self.checks
    }
}

/// A sleep never reaches beyond the deadline, and is never empty: the poller
/// does not spin.
pub proof fn lemma_sleep_within_deadline(
    config: PollerConfig,
    started_ms: u64,
    now_ms: u64,
    closing: bool,
    probe: Probe,
)
    requires
        config.wf(),
    ensures
        config.when_answered(started_ms, now_ms, closing, probe) matches PollAction::Sleep(ms)
            ==> 0 < ms <= config.interval() && elapsed(started_ms, now_ms) + ms
            <= config.deadline(),
        config.when_answered(started_ms, now_ms, closing, probe) is Finish || config.when_answered(
            started_ms,
            now_ms,
            closing,
            probe,
        ) is Sleep,
        closing ==> config.when_answered(started_ms, now_ms, closing, probe) == PollAction::Finish(
            PollVerdict::Cancelled,
        ) && config.when_due(started_ms, now_ms, closing) == PollAction::Finish(
            PollVerdict::Cancelled,
        ),
{
}

} // verus!
