//! The execution of one test: set up its network, let its initializer add
//! services, run its body, tear the network down.
//!
//! The executor decides; its caller does the work. The caller creates the
//! network, runs the initializer and the body and stops the containers, and
//! tells the executor after each of these what came of it and what time it
//! is. Whatever happens on the way, the executor passes through the teardown
//! exactly once before it has a result.

use crate::address::{Subnet, MAX_WIDTH_BITS};
use crate::network::{teardown_order, NetworkContext, NetworkState};
use crate::text::texts;
use crate::outcome::{
    body_outcome, provisioning_outcome, settled, BodyResult, ErrorSite, Fault, Outcome, Stage,
    TestResult,
};
use crate::readiness::elapsed;
use vstd::prelude::*;
use vstd::string::*;

verus! {

/// The subnet width of a test: its own, or the suite's where it names none.
pub fn effective_width(own: Option<u32>, suite_default: u32) -> (w: u32)
    ensures
        w == (match own {
            Some(bits) => bits,
            None => suite_default,
        }),
{
    match own {
        Some(bits) => bits,
        None => suite_default,
    }
}

/// `network` is a new, open network over `subnet`, without services.
pub open spec fn fresh_network(network: NetworkContext, subnet: Subnet) -> bool {
    &&& network.wf()
    &&& network.subnet() == subnet
    &&& network.state() == NetworkState::Open
    &&& network.services().len() == 0
    &&& network.allocated() == Set::<u32>::empty()
}

/// Runs one test from setup to teardown.
pub struct TestExecutor {
    name: String,
    width_bits: u32,
    deadline_ms: u64,
    started_ms: u64,
    finished_ms: u64,
    stage: Stage,
    cancelled: bool,
    network: Option<NetworkContext>,
    verdict: Option<Outcome>,
    outcome: Option<Outcome>,
    teardown_ok: bool,
    teardowns: u8,
}

impl TestExecutor {
    /// The test's name.
    pub closed spec fn name(self) -> Seq<char> {
        self.name@
    }

    /// The host bits of the test's subnet.
    pub closed spec fn width(self) -> u32 {
        self.width_bits
    }

    /// The time that the setup, the initializer and the body have together.
    pub closed spec fn deadline(self) -> u64 {
        self.deadline_ms
    }

    /// When the execution began.
    pub closed spec fn started(self) -> u64 {
        self.started_ms
    }

    /// When the execution ended. Only meaningful once it has.
    pub closed spec fn finished(self) -> u64 {
        self.finished_ms
    }

    /// The stage that the execution is in.
    pub closed spec fn stage(self) -> Stage {
        self.stage
    }

    /// Whether the suite was cancelled while the test was in one of its
    /// first three stages.
    pub closed spec fn cancelled(self) -> bool {
        self.cancelled
    }

    /// The test's network, while the executor holds it.
    pub closed spec fn network(self) -> Option<NetworkContext> {
        self.network
    }

    /// What the first three stages decided, once they have.
    pub closed spec fn verdict(self) -> Option<Outcome> {
        self.verdict
    }

    /// The test's outcome, once the network is torn down.
    pub closed spec fn outcome(self) -> Option<Outcome> {
        self.outcome
    }

    /// Whether the teardown went well. Only meaningful once it has run.
    pub closed spec fn teardown_ok(self) -> bool {
        self.teardown_ok
    }

    /// How often the teardown has run.
    pub closed spec fn teardowns(self) -> int {
        self.teardowns as int
    }

    /// The deadline has passed at `now_ms`.
    pub open spec fn expired(self, now_ms: u64) -> bool {
        elapsed(self.started(), now_ms) >= self.deadline()
    }

    /// What cuts a stage short at `now_ms`: the cancellation of the suite,
    /// or else the test's deadline.
    pub open spec fn cut_short(self, now_ms: u64) -> Option<Outcome> {
        if self.cancelled() {
            Some(Outcome::Errored(ErrorSite::Cancelled, Fault::Interrupted(self.stage())))
        } else if self.expired(now_ms) {
            Some(Outcome::TimedOut)
        } else {
            None
        }
    }

    /// What the setup decides: nothing if it went well, so that the test
    /// goes on.
    pub open spec fn setup_verdict(self, now_ms: u64, result: Result<Subnet, Fault>) -> Option<
        Outcome,
    > {
        match self.cut_short(now_ms) {
            Some(o) => Some(o),
            None => match result {
                Err(fault) => Some(Outcome::Errored(ErrorSite::Setup, fault)),
                Ok(subnet) => if subnet.bits() != self.width() {
                    Some(Outcome::Errored(ErrorSite::Setup, Fault::NetworkCreateFailed))
                } else {
                    None
                },
            },
        }
    }

    /// What the initializer's return decides: nothing if it went well.
    pub open spec fn provisioning_verdict(self, now_ms: u64, result: Result<(), Fault>) -> Option<
        Outcome,
    > {
        match self.cut_short(now_ms) {
            Some(o) => Some(o),
            None => match result {
                Err(fault) => Some(provisioning_outcome(fault)),
                Ok(()) => None,
            },
        }
    }

    /// What the body's return decides.
    pub open spec fn execution_verdict(self, now_ms: u64, result: BodyResult) -> Outcome {
        match self.cut_short(now_ms) {
            Some(o) => o,
            None => body_outcome(result),
        }
    }

    /// The executor's invariant: what it holds in each stage.
    ///
    /// Before the teardown nothing is decided and the teardown has not run.
    /// In the teardown the verdict is there and the outcome is not. At the
    /// end the teardown has run once, the outcome is the verdict settled by
    /// the teardown, and the network, if there was one, is closed.
    pub open spec fn wf(self) -> bool {
        &&& self.network() matches Some(n) ==> n.wf()
        &&& self.teardowns() == (if self.stage() is Done {
            1int
        } else {
            0int
        })
        &&& match self.stage() {
            Stage::Setup => self.network() is None && self.verdict() is None
                && self.outcome() is None,
            Stage::Provisioning => self.network() is None && self.verdict() is None
                && self.outcome() is None,
            Stage::Execution => self.network() is Some && self.verdict() is None
                && self.outcome() is None,
            Stage::Teardown => self.verdict() is Some && self.outcome() is None,
            Stage::Done => {
                &&& self.verdict() is Some
                &&& self.outcome() == Some(settled(self.verdict()->0, self.teardown_ok()))
                &&& self.network() matches Some(n) ==> n.state() is Closed
            },
        }
    }

    /// Nothing but the cancellation flag can differ from `before`.
    pub open spec fn same_progress(self, before: TestExecutor) -> bool {
        &&& self.name() == before.name()
        &&& self.width() == before.width()
        &&& self.deadline() == before.deadline()
        &&& self.started() == before.started()
        &&& self.finished() == before.finished()
        &&& self.stage() == before.stage()
        &&& self.network() == before.network()
        &&& self.verdict() == before.verdict()
        &&& self.outcome() == before.outcome()
        &&& self.teardown_ok() == before.teardown_ok()
        &&& self.teardowns() == before.teardowns()
    }

    /// The test is the one of `before`, begun at the same time.
    pub open spec fn same_test(self, before: TestExecutor) -> bool {
        &&& self.name() == before.name()
        &&& self.width() == before.width()
        &&& self.deadline() == before.deadline()
        &&& self.started() == before.started()
    }

    /// An executor for the test `name`, which begins at `now_ms`.
    ///
    /// It begins with the setup; for a width that no subnet can have, with
    /// the teardown.
    pub fn new(name: String, width_bits: u32, deadline_ms: u64, now_ms: u64) -> (e: TestExecutor)
        ensures
            e.wf(),
            e.name() == name@,
            e.width() == width_bits,
            e.deadline() == deadline_ms,
            e.started() == now_ms,
            !e.cancelled(),
            e.network() is None,
            0 < width_bits <= MAX_WIDTH_BITS ==> e.stage() == Stage::Setup,
            !(0 < width_bits <= MAX_WIDTH_BITS) ==> e.stage() == Stage::Teardown && e.verdict()
                == Some(Outcome::Errored(ErrorSite::Setup, Fault::InvalidWidth)),
    {
        let valid = 0 < width_bits && width_bits <= MAX_WIDTH_BITS;
        TestExecutor {
            name,
            width_bits,
            deadline_ms,
            started_ms: now_ms,
            finished_ms: now_ms,
            stage: if valid {
                Stage::Setup
            } else {
                Stage::Teardown
            },
            cancelled: false,
            network: None,
            verdict: if valid {
                None
            } else {
                Some(Outcome::Errored(ErrorSite::Setup, Fault::InvalidWidth))
            },
            outcome: None,
            teardown_ok: true,
            teardowns: 0,
        }
    }

    /// The stage that the execution is in.
    pub fn get_stage(&self) -> (s: Stage)
        ensures
            s == self.stage(),
    {
        self.stage
    }

    /// The host bits of the subnet to create for the test.
    pub fn get_width_bits(&self) -> (w: u32)
        ensures
            w == self.width(),
    {
        self.width_bits
    }

    /// The test's name.
    pub fn get_name(&self) -> (name: &str)
        ensures
            name@ == self.name(),
    {
        self.name.as_str()
    }

    /// Whether the suite was cancelled while the test was running.
    pub fn is_cancelled(&self) -> (b: bool)
        ensures
            b == self.cancelled(),
    {
        self.cancelled
    }

    /// What the first three stages decided, once they have. A test that
    /// passed and whose teardown failed still has its pass here.
    pub fn get_verdict(&self) -> (v: &Option<Outcome>)
        ensures
            *v == self.verdict(),
    {
        &self.verdict
    }

    /// The test's network, while the executor holds it.
    pub fn get_network(&self) -> (n: &Option<NetworkContext>)
        ensures
            *n == self.network(),
    {
        &self.network
    }

    fn is_expired(&self, now_ms: u64) -> (b: bool)
        ensures
            b == self.expired(now_ms),
    {
        let passed = if now_ms >= self.started_ms {
            now_ms - self.started_ms
        } else {
            0
        };
        passed >= self.deadline_ms
    }

    fn interruption(&self, now_ms: u64) -> (o: Option<Outcome>)
        ensures
            o == self.cut_short(now_ms),
    {
        if self.cancelled {
            Some(Outcome::Errored(ErrorSite::Cancelled, Fault::Interrupted(self.stage)))
        } else if self.is_expired(now_ms) {
            Some(Outcome::TimedOut)
        } else {
            None
        }
    }

    /// The suite was cancelled. In the first three stages the executor
    /// remembers it, and the stage that is under way ends in the teardown;
    /// later the cancellation changes nothing.
    pub fn cancel(&mut self)
        requires
            old(self).wf(),
        ensures
            final(self).wf(),
            final(self).same_progress(*old(self)),
            final(self).cancelled() == (old(self).cancelled() || old(self).stage() is Setup || old(self).stage() is Provisioning || old(self).stage() is Execution),
    {
        match self.stage {
            Stage::Setup => {
                self.cancelled = true;
            },
            Stage::Provisioning => {
                self.cancelled = true;
            },
            Stage::Execution => {
                self.cancelled = true;
            },
            _ => {},
        }
    }

    /// The driver has answered the request for the test's network.
    ///
    /// In the setup stage this decides how the test goes on. If the setup
    /// went well, the executor hands out the new, open network for the
    /// initializer to fill, and the test is in its provisioning stage.
    /// Otherwise the test is in its teardown stage, and the executor keeps
    /// the network, if one was created, to close it. In any other stage the
    /// answer changes nothing.
    pub fn network_created(&mut self, now_ms: u64, result: Result<Subnet, Fault>) -> (lent: Option<
        NetworkContext,
    >)
        requires
            old(self).wf(),
            result matches Ok(subnet) ==> subnet.wf(),
        ensures
            final(self).wf(),
            final(self).same_test(*old(self)),
            final(self).cancelled() == old(self).cancelled(),
            !(old(self).stage() is Setup) ==> lent is None && final(self).same_progress(
                *old(self),
            ),
            old(self).stage() is Setup ==> {
                &&& final(self).verdict() == old(self).setup_verdict(now_ms, result)
                &&& final(self).stage() == (if final(self).verdict() is None {
                    Stage::Provisioning
                } else {
                    Stage::Teardown
                })
                &&& lent is Some <==> final(self).verdict() is None
                &&& final(self).network() is Some <==> result is Ok && final(self).verdict() is Some
                &&& lent matches Some(n) ==> result is Ok && fresh_network(n, result->Ok_0)
                &&& final(self).network() matches Some(n) ==> fresh_network(n, result->Ok_0)
            },
    {
        match self.stage {
            Stage::Setup => {},
            _ => {
                return None;
            },
        }
        let network = match result {
            Ok(subnet) => Some(NetworkContext::new(subnet)),
            Err(_) => None,
        };
        let verdict = match self.interruption(now_ms) {
            Some(o) => Some(o),
            None => match result {
                Err(fault) => Some(Outcome::Errored(ErrorSite::Setup, fault)),
                Ok(subnet) => if subnet.width_bits() != self.width_bits {
                    Some(Outcome::Errored(ErrorSite::Setup, Fault::NetworkCreateFailed))
                } else {
                    None
                },
            },
        };
        match verdict {
            None => {
                self.stage = Stage::Provisioning;
                network
            },
            Some(o) => {
                self.stage = Stage::Teardown;
                self.verdict = Some(o);
                self.network = network;
                None
            },
        }
    }

    /// The initializer has returned, and gives the network back.
    ///
    /// In the provisioning stage the executor takes the network and the test
    /// goes on: to its body if the initializer succeeded and nothing cut the
    /// stage short, to the teardown otherwise. In any other stage the
    /// executor changes nothing and hands the network back.
    pub fn initializer_returned(
        &mut self,
        now_ms: u64,
        network: NetworkContext,
        result: Result<(), Fault>,
    ) -> (refused: Option<NetworkContext>)
        requires
            old(self).wf(),
            network.wf(),
        ensures
            final(self).wf(),
            final(self).same_test(*old(self)),
            final(self).cancelled() == old(self).cancelled(),
            !(old(self).stage() is Provisioning) ==> refused == Some(network) && final(self).same_progress(*old(self)),
            old(self).stage() is Provisioning ==> {
                &&& refused is None
                &&& final(self).network() == Some(network)
                &&& final(self).verdict() == old(self).provisioning_verdict(now_ms, result)
                &&& final(self).stage() == (if final(self).verdict() is None {
                    Stage::Execution
                } else {
                    Stage::Teardown
                })
            },
    {
        match self.stage {
            Stage::Provisioning => {},
            _ => {
                return Some(network);
            },
        }
        let verdict = match self.interruption(now_ms) {
            Some(o) => Some(o),
            None => match result {
                Err(fault) => Some(Outcome::of_provisioning(fault)),
                Ok(()) => None,
            },
        };
        self.network = Some(network);
        match verdict {
            None => {
                self.stage = Stage::Execution;
            },
            Some(o) => {
                self.stage = Stage::Teardown;
                self.verdict = Some(o);
            },
        }
        None
    }

    /// The body has returned.
    ///
    /// In the execution stage this gives the verdict, and the test is in its
    /// teardown stage. In any other stage it changes nothing.
    pub fn body_returned(&mut self, now_ms: u64, result: BodyResult)
        requires
            old(self).wf(),
        ensures
            final(self).wf(),
            final(self).same_test(*old(self)),
            final(self).cancelled() == old(self).cancelled(),
            !(old(self).stage() is Execution) ==> final(self).same_progress(*old(self)),
            old(self).stage() is Execution ==> {
                &&& final(self).network() == old(self).network()
                &&& final(self).verdict() == Some(old(self).execution_verdict(now_ms, result))
                &&& final(self).stage() == Stage::Teardown
            },
    {
        match self.stage {
            Stage::Execution => {},
            _ => {
                return ;
            },
        }
        let verdict = match self.interruption(now_ms) {
            Some(o) => o,
            None => Outcome::of_body(result),
        };
        self.stage = Stage::Teardown;
        self.verdict = Some(verdict);
    }

    /// Begins the teardown: the network, if there is one, is closing from
    /// now on. Returns the identifiers of the services to stop, the one
    /// added last first. Outside the teardown stage nothing changes and
    /// nothing is to stop.
    pub fn begin_teardown(&mut self) -> (plan: Vec<String>)
        requires
            old(self).wf(),
        ensures
            final(self).wf(),
            final(self).same_test(*old(self)),
            final(self).cancelled() == old(self).cancelled(),
            final(self).stage() == old(self).stage(),
            final(self).verdict() == old(self).verdict(),
            final(self).outcome() == old(self).outcome(),
            final(self).network() is Some == old(self).network() is Some,
            match (old(self).stage(), old(self).network()) {
                (Stage::Teardown, Some(before)) => {
                    &&& texts(plan@) == teardown_order(before.services())
                    &&& final(self).network()->0.services() == before.services()
                    &&& final(self).network()->0.subnet() == before.subnet()
                    &&& final(self).network()->0.state() == (if before.state() is Open {
                        NetworkState::Closing
                    } else {
                        before.state()
                    })
                },
                _ => plan@.len() == 0 && final(self).network() == old(self).network(),
            },
    {
        match self.stage {
            Stage::Teardown => {},
            _ => {
                return Vec::new();
            },
        }
        match self.network.take() {
            None => Vec::new(),
            Some(mut network) => {
                let plan = network.begin_close();
                self.network = Some(network);
                plan
            },
        }
    }

    /// Ends the teardown: the containers are stopped and the network is
    /// given back, well or not.
    ///
    /// In the teardown stage the network is closed, the outcome is the
    /// verdict settled by the teardown, and the test is done. In any other
    /// stage nothing changes.
    pub fn finish_teardown(&mut self, now_ms: u64, teardown_ok: bool)
        requires
            old(self).wf(),
        ensures
            final(self).wf(),
            final(self).same_test(*old(self)),
            final(self).cancelled() == old(self).cancelled(),
            !(old(self).stage() is Teardown) ==> final(self).same_progress(*old(self)),
            old(self).stage() is Teardown ==> {
                &&& final(self).stage() == Stage::Done
                &&& final(self).teardowns() == 1
                &&& final(self).finished() == now_ms
                &&& final(self).verdict() == old(self).verdict()
                &&& final(self).outcome() == Some(settled(old(self).verdict()->0, teardown_ok))
                &&& final(self).teardown_ok() == teardown_ok
                &&& final(self).network() is Some == old(self).network() is Some
                &&& old(self).network() matches Some(before) ==> {
                    &&& final(self).network()->0.state() == NetworkState::Closed
                    &&& final(self).network()->0.subnet() == before.subnet()
                    &&& final(self).network()->0.allocated() == Set::<u32>::empty()
                    &&& final(self).network()->0.services().len() == before.services().len()
                    &&& forall|i: int|
                        0 <= i < before.services().len() ==> (
                        #[trigger] final(self).network()->0.services()[i]).same_service(
                            before.services()[i],
                        ) && final(self).network()->0.services()[i].state()
                            == before.services()[i].state().shut_down()
                }
            },
    {
        match self.stage {
            Stage::Teardown => {},
            _ => {
                return ;
            },
        }
        match self.network.take() {
            None => {},
            Some(mut network) => {
                network.close();
                self.network = Some(network);
            },
        }
        let outcome = match &self.verdict {
            Some(v) => v.duplicate().settle(teardown_ok),
            None => Outcome::TimedOut,
        };
        self.outcome = Some(outcome);
        self.teardown_ok = teardown_ok;
        self.finished_ms = now_ms;
        self.teardowns = 1;
        self.stage = Stage::Done;
    }

    /// The test's result, once the test is done.
    pub fn result(&self) -> (r: Option<TestResult>)
        requires
            self.wf(),
        ensures
            r is Some <==> self.stage() is Done,
            r matches Some(t) ==> t.name@ == self.name() && Some(t.outcome) == self.outcome()
                && t.duration_ms == elapsed(self.started(), self.finished()) && t.teardown_failed
                == !self.teardown_ok(),
    {
        match self.stage {
            Stage::Done => {},
            _ => {
                return None;
            },
        }
        match &self.outcome {
            None => None,
            Some(o) => Some(
                TestResult {
                    name: self.name.clone(),
                    outcome: o.duplicate(),
                    duration_ms: if self.finished_ms >= self.started_ms {
                        self.finished_ms - self.started_ms
                    } else {
                        0
                    },
                    teardown_failed: !self.teardown_ok,
                },
            ),
        }
    }
}

/// When a test is done, its teardown has run exactly once, its network is
/// closed, every service that was added to the network has ended, and none
/// of the network's addresses is in use.
pub proof fn lemma_teardown_total(executor: TestExecutor)
    requires
        executor.wf(),
        executor.stage() is Done,
    ensures
        executor.teardowns() == 1,
        executor.outcome() is Some,
        executor.network() matches Some(n) ==> {
            &&& n.state() is Closed
            &&& n.allocated() == Set::<u32>::empty()
            &&& forall|i: int|
                0 <= i < n.services().len() ==> (#[trigger] n.services()[i]).state().terminal()
        },
{
    if let Some(n) = executor.network() {
        crate::network::lemma_closed_network_is_quiet(n);
    }
}

/// Before a test is done its teardown has not run, and a test has no outcome
/// before it is done: no result without a teardown.
pub proof fn lemma_no_result_before_teardown(executor: TestExecutor)
    requires
        executor.wf(),
    ensures
        executor.outcome() is Some <==> executor.stage() is Done,
        executor.outcome() is Some <==> executor.teardowns() == 1,
        executor.teardowns() <= 1,
{
}

} // verus!
