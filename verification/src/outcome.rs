//! How a test ended, and the rules by which failures become outcomes.

use crate::network::NetworkError;
use crate::readiness::PollVerdict;
use vstd::prelude::*;
use vstd::string::*;

verus! {

/// The stages that the execution of a test goes through.
#[derive(Clone, Copy, Debug, PartialEq, Eq)]
pub enum Stage {
    /// The test's network is being created.
    Setup,
    /// The test's initializer is adding services.
    Provisioning,
    /// The test's body is running.
    Execution,
    /// The network is being torn down.
    Teardown,
    /// The test has its result.
    Done,
}

/// What went wrong.
#[derive(Clone, Copy, Debug, PartialEq, Eq)]
pub enum Fault {
    /// The test asks for a subnet width that no subnet can have.
    InvalidWidth,
    /// The driver could not create the network.
    NetworkCreateFailed,
    /// The network had no address left for a service.
    PoolExhausted,
    /// The driver found the service's address taken.
    AddressInUse,
    /// The driver could not start the container.
    StartFailed,
    /// The driver could not get the image.
    ImagePullFailed,
    /// The service was not available when its deadline passed.
    ReadinessTimeout,
    /// The network refused the service: its identifier is empty or was used
    /// before, or the network is closing.
    ServiceRejected,
    /// The test's initializer failed by itself.
    UserInitError,
    /// The test's body ended in something other than a verdict.
    UnexpectedFault,
    /// The network could not be torn down.
    TeardownFailed,
    /// The suite was cancelled while the test was in the given stage.
    Interrupted(Stage),
}

/// The part of a test's execution to which an error is charged.
#[derive(Clone, Copy, Debug, PartialEq, Eq)]
pub enum ErrorSite {
    Setup,
    Provisioning,
    Execution,
    Teardown,
    /// The test did not fail by itself: the suite was cancelled.
    Cancelled,
}

/// Why a test was not run.
#[derive(Clone, Copy, Debug, PartialEq, Eq)]
pub enum SkipReason {
    /// The suite was cancelled before the test started.
    Cancelled,
}

/// How a test ended.
#[derive(Clone, Debug, PartialEq, Eq)]
pub enum Outcome {
    /// The body passed and the network was torn down.
    Passed,
    /// The body failed, for the reason it gave.
    Failed(String),
    /// The test could not be run to a verdict.
    Errored(ErrorSite, Fault),
    /// The test was not started.
    Skipped(SkipReason),
    /// The test's deadline passed before its body had returned.
    TimedOut,
}

/// What the body of a test returned.
#[derive(Clone, Debug, PartialEq, Eq)]
pub enum BodyResult {
    /// Every assertion held.
    Passed,
    /// An assertion failed, with the reason.
    Failed(String),
    /// The body did not come to a verdict.
    Fault,
}

/// The result of one test.
#[derive(Clone, Debug, PartialEq, Eq)]
pub struct TestResult {
    pub name: String,
    pub outcome: Outcome,
    /// The time from the beginning of the setup to the end of the teardown.
    pub duration_ms: u64,
    /// Whether the network could not be torn down. This is on record for
    /// every test, also where it does not change the outcome.
    pub teardown_failed: bool,
}

/// The outcome of a test once its network is torn down: what the earlier
/// stages decided, except that a test that passed and whose teardown failed
/// has not passed.
pub open spec fn settled(verdict: Outcome, teardown_ok: bool) -> Outcome {
    if verdict is Passed && !teardown_ok {
        Outcome::Errored(ErrorSite::Teardown, Fault::TeardownFailed)
    } else {
        verdict
    }
}

/// The fault that a failure to become ready stands for.
pub open spec fn readiness_fault(verdict: PollVerdict) -> Option<Fault> {
    match verdict {
        PollVerdict::Ready => None,
        PollVerdict::TimedOut => Some(Fault::ReadinessTimeout),
        PollVerdict::Cancelled => Some(Fault::Interrupted(Stage::Provisioning)),
    }
}

/// The fault that a refusal by the network stands for.
pub open spec fn network_fault(error: NetworkError) -> Fault {
    match error {
        NetworkError::PoolExhausted => Fault::PoolExhausted,
        _ => Fault::ServiceRejected,
    }
}

/// The outcome of a failure while services are added: charged to the
/// cancellation if the fault is one, to provisioning otherwise.
pub open spec fn provisioning_outcome(fault: Fault) -> Outcome {
    match fault {
        Fault::Interrupted(_) => Outcome::Errored(
            ErrorSite::Cancelled,
            Fault::Interrupted(Stage::Provisioning),
        ),
        _ => Outcome::Errored(ErrorSite::Provisioning, fault),
    }
}

/// The outcome that the body's result stands for.
pub open spec fn body_outcome(result: BodyResult) -> Outcome {
    match result {
        BodyResult::Passed => Outcome::Passed,
        BodyResult::Failed(reason) => Outcome::Failed(reason),
        BodyResult::Fault => Outcome::Errored(ErrorSite::Execution, Fault::UnexpectedFault),
    }
}

impl Outcome {
    /// Whether the test passed.
    pub fn is_passed(&self) -> (b: bool)
        ensures
            b == (*self is Passed),
    {
        match self {
            Outcome::Passed => true,
            _ => false,
        }
    }

    /// A copy of the outcome.
    pub fn duplicate(&self) -> (o: Outcome)
        ensures
            o == *self,
    {
        match self {
            Outcome::Passed => Outcome::Passed,
            Outcome::Failed(reason) => Outcome::Failed(reason.clone()),
            Outcome::Errored(site, fault) => Outcome::Errored(*site, *fault),
            Outcome::Skipped(reason) => Outcome::Skipped(*reason),
            Outcome::TimedOut => Outcome::TimedOut,
        }
    }

    /// The outcome once the network is torn down, well or not.
    pub fn settle(self, teardown_ok: bool) -> (o: Outcome)
        ensures
            o == settled(self, teardown_ok),
    {
        if teardown_ok {
            self
        } else {
            match self {
                Outcome::Passed => Outcome::Errored(ErrorSite::Teardown, Fault::TeardownFailed),
                other => other,
            }
        }
    }

    /// The outcome of a failure while services are added.
    pub fn of_provisioning(fault: Fault) -> (o: Outcome)
        ensures
            o == provisioning_outcome(fault),
    {
        match fault {
            Fault::Interrupted(_) => Outcome::Errored(
                ErrorSite::Cancelled,
                Fault::Interrupted(Stage::Provisioning),
            ),
            _ => Outcome::Errored(ErrorSite::Provisioning, fault),
        }
    }

    /// The outcome that the body's result stands for.
    pub fn of_body(result: BodyResult) -> (o: Outcome)
        ensures
            o == body_outcome(result),
    {
        match result {
            BodyResult::Passed => Outcome::Passed,
            BodyResult::Failed(reason) => Outcome::Failed(reason),
            BodyResult::Fault => Outcome::Errored(ErrorSite::Execution, Fault::UnexpectedFault),
        }
    }
}

impl Fault {
    /// The fault that a failure to become ready stands for.
    pub fn of_readiness(verdict: PollVerdict) -> (f: Option<Fault>)
        ensures
            f == readiness_fault(verdict),
    {
        match verdict {
            PollVerdict::Ready => None,
            PollVerdict::TimedOut => Some(Fault::ReadinessTimeout),
            PollVerdict::Cancelled => Some(Fault::Interrupted(Stage::Provisioning)),
        }
    }

    /// The fault that a refusal by the network stands for.
    pub fn of_network(error: NetworkError) -> (f: Fault)
        ensures
            f == network_fault(error),
    {
        match error {
            NetworkError::PoolExhausted => Fault::PoolExhausted,
            _ => Fault::ServiceRejected,
        }
    }
}

/// A teardown never turns a failure into a pass, and changes nothing but a
/// pass.
pub proof fn lemma_settled_keeps_failures(verdict: Outcome, teardown_ok: bool)
    ensures
        !(verdict is Passed) ==> settled(verdict, teardown_ok) == verdict,
        settled(verdict, teardown_ok) is Passed <==> verdict is Passed && teardown_ok,
        settled(verdict, true) == verdict,
{
}

} // verus!
