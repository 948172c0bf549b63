//! The runner of a suite: which test starts next, how many run at a time,
//! and what the suite's report says.
//!
//! The runner schedules; its caller runs the tests, on as many workers as it
//! likes. Before a worker takes a test it asks the runner for one, and gets
//! it with the subnet that the runner has leased for it; when the test is
//! done it hands the runner the result. The runner never lets more tests run
//! at a time than it was told to, and no two tests that run at a time share
//! an address.

use crate::address::Subnet;
use crate::executor::effective_width;
use crate::filter::NameFilter;
use crate::outcome::{Outcome, SkipReason, TestResult};
use crate::pool::{lemma_leases_disjoint, lemma_slots_distinct, SubnetPool};
use crate::testsuite::{
    ascending, is_plan_of, lemma_plan_names_distinct, plan_tests, planned_from, suite_error,
    width_of, PlannedTest, SuiteError, TestEntry, TestSuite,
};
use crate::text::{same_text, texts};
use vstd::prelude::*;
use vstd::string::*;

verus! {

/// The exit code of a run in which every test passed.
pub const EXIT_PASSED: u8 = 0;

/// The exit code of a run in which a test failed, errored or timed out.
pub const EXIT_FAILED: u8 = 1;

/// The exit code of a run that was given arguments it cannot use.
pub const EXIT_INVALID_ARGUMENTS: u8 = 2;

/// The exit code of a run that was cancelled.
pub const EXIT_CANCELLED: u8 = 3;

/// The kinds of outcome that a report counts.
#[derive(Clone, Copy, Debug, PartialEq, Eq)]
pub enum OutcomeKind {
    Passed,
    Failed,
    Errored,
    Skipped,
    TimedOut,
}

/// How many tests ended in each kind of outcome.
#[derive(Clone, Copy, Debug, PartialEq, Eq)]
pub struct Tally {
    pub passed: usize,
    pub failed: usize,
    pub errored: usize,
    pub skipped: usize,
    pub timed_out: usize,
}

/// What a run of a suite came to.
#[derive(Clone, Debug, PartialEq, Eq)]
pub struct SuiteReport {
    /// The results, in the order in which they came in.
    pub results: Vec<TestResult>,
    /// The number of results of each kind.
    pub tally: Tally,
    /// Whether the run was cancelled.
    pub cancelled: bool,
}

/// The kind of `outcome`.
pub open spec fn kind_of(outcome: Outcome) -> OutcomeKind {
    match outcome {
        Outcome::Passed => OutcomeKind::Passed,
        Outcome::Failed(_) => OutcomeKind::Failed,
        Outcome::Errored(_, _) => OutcomeKind::Errored,
        Outcome::Skipped(_) => OutcomeKind::Skipped,
        Outcome::TimedOut => OutcomeKind::TimedOut,
    }
}

/// The number of `results` whose outcome is of the kind `kind`.
pub open spec fn count_of(results: Seq<TestResult>, kind: OutcomeKind) -> nat
    decreases results.len(),
{
    if results.len() == 0 {
        0
    } else if kind_of(results.last().outcome) == kind {
        count_of(results.drop_last(), kind) + 1
    } else {
        count_of(results.drop_last(), kind)
    }
}

/// The tally of `results`.
pub open spec fn tally_matches(tally: Tally, results: Seq<TestResult>) -> bool {
    &&& tally.passed == count_of(results, OutcomeKind::Passed)
    &&& tally.failed == count_of(results, OutcomeKind::Failed)
    &&& tally.errored == count_of(results, OutcomeKind::Errored)
    &&& tally.skipped == count_of(results, OutcomeKind::Skipped)
    &&& tally.timed_out == count_of(results, OutcomeKind::TimedOut)
}

/// The exit code of a run: that of a cancelled run if it was cancelled, else
/// that of a failed one if a test failed, errored or timed out.
pub open spec fn exit_code_of(tally: Tally, cancelled: bool) -> u8 {
    if cancelled {
        EXIT_CANCELLED
    } else if tally.failed > 0 || tally.errored > 0 || tally.timed_out > 0 {
        EXIT_FAILED
    } else {
        EXIT_PASSED
    }
}

/// The results of the tests that a cancelled run did not start.
pub open spec fn skipped_results(tests: Seq<PlannedTest>) -> Seq<TestResult> {
    Seq::new(
        tests.len(),
        |k: int|
            TestResult {
                name: tests[k].name,
                outcome: Outcome::Skipped(SkipReason::Cancelled),
                duration_ms: 0,
                teardown_failed: false,
            },
    )
}

/// Every result is counted once: the five counts add up to the number of
/// results.
pub proof fn lemma_counts_add_up(results: Seq<TestResult>)
    ensures
        count_of(results, OutcomeKind::Passed) + count_of(results, OutcomeKind::Failed) + count_of(
            results,
            OutcomeKind::Errored,
        ) + count_of(results, OutcomeKind::Skipped) + count_of(results, OutcomeKind::TimedOut)
            == results.len(),
    decreases results.len(),
{
    if results.len() > 0 {
        lemma_counts_add_up(results.drop_last());
    }
}

impl Outcome {
    /// The kind of the outcome.
    pub fn kind(&self) -> (k: OutcomeKind)
        ensures
            k == kind_of(*self),
    {
        match self {
            Outcome::Passed => OutcomeKind::Passed,
            Outcome::Failed(_) => OutcomeKind::Failed,
            Outcome::Errored(_, _) => OutcomeKind::Errored,
            Outcome::Skipped(_) => OutcomeKind::Skipped,
            Outcome::TimedOut => OutcomeKind::TimedOut,
        }
    }
}

impl SuiteReport {
    /// The exit code of the run.
    pub fn exit_code(&self) -> (code: u8)
        ensures
            code == exit_code_of(self.tally, self.cancelled),
    {
        if self.cancelled {
            EXIT_CANCELLED
        } else if self.tally.failed > 0 || self.tally.errored > 0 || self.tally.timed_out > 0 {
            EXIT_FAILED
        } else {
            EXIT_PASSED
        }
    }
}

/// Counts `results` by the kind of their outcome.
pub fn tally_results(results: &Vec<TestResult>) -> (tally: Tally)
    ensures
        tally_matches(tally, results@),
{
    let mut tally = Tally { passed: 0, failed: 0, errored: 0, skipped: 0, timed_out: 0 };
    let mut k: usize = 0;
    assert(results@.take(0) =~= Seq::<TestResult>::empty());
    while k < results.len()
        invariant
            k <= results.len(),
            tally_matches(tally, results@.take(k as int)),
        decreases results.len() - k,
    {
        let ghost upto = results@.take(k + 1);
        proof {
            assert(upto.drop_last() =~= results@.take(k as int));
            assert(upto.last() == results@[k as int]);
            lemma_counts_add_up(results@.take(k as int));
        }
        match results[k].outcome.kind() {
            OutcomeKind::Passed => {
                tally.passed = tally.passed + 1;
            },
            OutcomeKind::Failed => {
                tally.failed = tally.failed + 1;
            },
            OutcomeKind::Errored => {
                tally.errored = tally.errored + 1;
            },
            OutcomeKind::Skipped => {
                tally.skipped = tally.skipped + 1;
            },
            OutcomeKind::TimedOut => {
                tally.timed_out = tally.timed_out + 1;
            },
        }
        k = k + 1;
    }
    assert(results@.take(k as int) =~= results@);
    tally
}

/// A test that was started, with the subnet that is leased for it until its
/// result comes in.
#[derive(Clone, Debug, PartialEq, Eq)]
pub struct StartedTest {
    pub name: String,
    pub width_bits: u32,
    pub subnet: Subnet,
}

/// A test of `entries` asks for a subnet of more than `slot_bits` host bits.
pub open spec fn has_excess_width(entries: Seq<TestEntry>, suite_default: u32, slot_bits: nat) -> bool {
    exists|i: int|
        0 <= i < entries.len() && width_of(#[trigger] entries[i], suite_default) > slot_bits
}

/// Schedules the tests of one suite.
pub struct SuiteRunner {
    plan: Vec<PlannedTest>,
    started: usize,
    concurrency: usize,
    running: Vec<String>,
    leases: Vec<Subnet>,
    results: Vec<TestResult>,
    cancelled: bool,
    pool: SubnetPool,
}

impl SuiteRunner {
    /// The tests to run, in the order in which they start.
    pub closed spec fn plan(self) -> Seq<PlannedTest> {
        self.plan@
    }

    /// The number of tests of the plan that are no longer waiting: they were
    /// started, or skipped when the run was cancelled.
    pub closed spec fn started(self) -> int {
        self.started as int
    }

    /// The number of tests that may run at a time.
    pub closed spec fn concurrency(self) -> int {
        self.concurrency as int
    }

    /// The names of the tests that are running.
    pub closed spec fn running(self) -> Seq<Seq<char>> {
        texts(self.running@)
    }

    /// The subnets of the tests that are running, in the order of
    /// `running`.
    pub closed spec fn leases(self) -> Seq<Subnet> {
        self.leases@
    }

    /// The results that have come in.
    pub closed spec fn results(self) -> Seq<TestResult> {
        self.results@
    }

    /// Whether the run was cancelled.
    pub closed spec fn cancelled(self) -> bool {
        self.cancelled
    }

    /// The pool from which the subnets of the tests are leased.
    pub closed spec fn pool(self) -> SubnetPool {
        self.pool
    }

    /// `name` is the name of a test of the plan that is no longer waiting.
    pub open spec fn was_started(self, name: Seq<char>) -> bool {
        exists|c: int| 0 <= c < self.started() && (#[trigger] self.plan()[c]).name@ == name
    }

    /// `subnet` is leased from the pool: it begins where a leased slot
    /// begins and is not wider than the slot.
    pub open spec fn holds_lease(self, subnet: Subnet) -> bool {
        &&& subnet.wf()
        &&& subnet.bits() <= self.pool().slot_bits()
        &&& exists|k: int| self.pool().leases(subnet, k)
    }

    /// The runner's invariant.
    ///
    /// No more tests run at a time than the runner was told to allow. Every
    /// test that was started is running or has its result. The tests that
    /// run are tests of the plan, each once; each has a subnet leased from
    /// the pool, and no two of these subnets share an address. After a
    /// cancellation no test waits.
    pub open spec fn wf(self) -> bool {
        &&& 0 < self.concurrency()
        &&& ascending(self.plan())
        &&& 0 <= self.started() <= self.plan().len()
        &&& self.running().len() <= self.concurrency()
        &&& self.running().len() + self.results().len() == self.started()
        &&& forall|r: int|
            0 <= r < self.running().len() ==> self.was_started(#[trigger] self.running()[r])
        &&& forall|r: int, q: int|
            0 <= r < q < self.running().len() ==> #[trigger] self.running()[r]
                != #[trigger] self.running()[q]
        &&& self.cancelled() ==> self.started() == self.plan().len()
        &&& self.pool().wf()
        &&& self.leases().len() == self.running().len()
        &&& forall|c: int|
            0 <= c < self.plan().len() ==> 0 < (#[trigger] self.plan()[c]).width_bits
                <= self.pool().slot_bits()
        &&& forall|r: int|
            0 <= r < self.leases().len() ==> self.holds_lease(#[trigger] self.leases()[r])
        &&& forall|r: int, q: int|
            0 <= r < q < self.leases().len() ==> (#[trigger] self.leases()[r]).disjoint(
                #[trigger] self.leases()[q],
            )
    }

    /// A test can start: the run is not cancelled, a test waits, fewer
    /// tests run than may, and the pool has a subnet to lease.
    pub open spec fn may_start(self) -> bool {
        &&& !self.cancelled()
        &&& self.started() < self.plan().len()
        &&& self.running().len() < self.concurrency()
        &&& !self.pool().full()
    }

    /// No test waits and none runs.
    pub open spec fn finished(self) -> bool {
        self.started() == self.plan().len() && self.running().len() == 0
    }

    /// What stands in the way of a run, if anything: first that no test may
    /// run at a time, then what is wrong with the suite, then that a test
    /// asks for a wider subnet than the pool can lease.
    pub open spec fn refusal(
        entries: Seq<TestEntry>,
        suite_default: u32,
        concurrency: usize,
        slot_bits: nat,
    ) -> Option<SuiteError> {
        if concurrency == 0 {
            Some(SuiteError::ZeroConcurrency)
        } else if suite_error(entries, suite_default) is Some {
            suite_error(entries, suite_default)
        } else if has_excess_width(entries, suite_default, slot_bits) {
            Some(SuiteError::WidthExceedsPool)
        } else {
            None
        }
    }

    /// The runner is at the beginning of a run with `concurrency` tests at a
    /// time, with subnets from `pool`.
    pub open spec fn at_start(self, concurrency: usize, pool: SubnetPool) -> bool {
        &&& self.wf()
        &&& self.concurrency() == concurrency
        &&& self.pool() == pool
        &&& self.started() == 0
        &&& self.running().len() == 0
        &&& self.results().len() == 0
        &&& !self.cancelled()
    }

    /// The run has gone on since `before` without a change to its plan or
    /// its limits.
    pub open spec fn same_run(self, before: SuiteRunner) -> bool {
        &&& self.plan() == before.plan()
        &&& self.concurrency() == before.concurrency()
        &&& self.pool().same_slots(before.pool())
    }

    /// A runner for the tests of `entries` that `filter` selects, which lets
    /// `concurrency` tests run at a time and leases their subnets from
    /// `pool`. The tests start in the order of their names.
    pub fn new(
        entries: &Vec<TestEntry>,
        suite_default: u32,
        filter: &NameFilter,
        concurrency: usize,
        pool: SubnetPool,
    ) -> (r: Result<SuiteRunner, SuiteError>)
        requires
            pool.wf(),
        ensures
            match r {
                Ok(runner) => Self::refusal(entries@, suite_default, concurrency, pool.slot_bits())
                    is None && runner.at_start(concurrency, pool) && is_plan_of(
                    runner.plan(),
                    entries@,
                    suite_default,
                    *filter,
                ),
                Err(e) => Self::refusal(entries@, suite_default, concurrency, pool.slot_bits())
                    == Some(e),
            },
    {
        if concurrency == 0 {
            return Err(SuiteError::ZeroConcurrency);
        }
        let plan = plan_tests(entries, suite_default, filter)?;
        let slot_bits = pool.get_slot_bits();
        let mut k: usize = 0;
        while k < entries.len()
            invariant
                k <= entries.len(),
                concurrency != 0,
                suite_error(entries@, suite_default) is None,
                slot_bits == pool.slot_bits(),
                forall|i: int|
                    0 <= i < k ==> width_of(#[trigger] entries@[i], suite_default) <= slot_bits,
            decreases entries.len() - k,
        {
            if effective_width(entries[k].width_bits, suite_default) > slot_bits {
                assert(width_of(entries@[k as int], suite_default) > slot_bits);
                return Err(SuiteError::WidthExceedsPool);
            }
            k = k + 1;
        }
        proof {
            assert forall|c: int| 0 <= c < plan@.len() implies 0 < (#[trigger] plan@[c]).width_bits
                <= pool.slot_bits() by {
                let b = choose|b: int|
                    0 <= b < entries@.len() && planned_from(plan@[c], entries@[b], suite_default);
                assert(0 < width_of(entries@[b], suite_default));
            }
        }
        let runner = SuiteRunner {
            plan,
            started: 0,
            concurrency,
            running: Vec::new(),
            leases: Vec::new(),
            results: Vec::new(),
            cancelled: false,
            pool,
        };
        Ok(runner)
    }

    /// A runner for the tests that `suite` registers.
    ///
    /// What the suite registers is the suite's own affair: the runner is
    /// there exactly when `new` makes one of it.
    pub fn from_suite<S: TestSuite>(
        suite: &S,
        filter: &NameFilter,
        concurrency: usize,
        pool: SubnetPool,
    ) -> (r: Result<SuiteRunner, SuiteError>)
        requires
            pool.wf(),
        ensures
            r matches Ok(runner) ==> runner.at_start(concurrency, pool) && concurrency > 0,
            concurrency == 0 ==> r == Err::<SuiteRunner, SuiteError>(SuiteError::ZeroConcurrency),
    {
        let entries = suite.get_tests();
        let width = suite.get_network_width_bits();
        SuiteRunner::new(&entries, width, filter, concurrency, pool)
    }

    /// The number of tests that are running.
    pub fn running_count(&self) -> (n: usize)
        ensures
            n == self.running().len(),
    {
        self.running.len()
    }

    /// The number of tests of the plan that still wait.
    pub fn waiting_count(&self) -> (n: usize)
        requires
            self.wf(),
        ensures
            n == self.plan().len() - self.started(),
    {
        self.plan.len() - self.started
    }

    /// Whether the run was cancelled.
    pub fn is_cancelled(&self) -> (b: bool)
        ensures
            b == self.cancelled(),
    {
        self.cancelled
    }

    /// Whether the run is over: no test waits and none runs.
    pub fn is_finished(&self) -> (b: bool)
        ensures
            b == self.finished(),
    {
        self.started == self.plan.len() && self.running.len() == 0
    }

    /// The tests to run, in the order in which they start.
    pub fn get_plan(&self) -> (plan: &Vec<PlannedTest>)
        ensures
            plan@ == self.plan(),
    {
        &self.plan
    }

    /// The results that have come in.
    pub fn get_results(&self) -> (results: &Vec<TestResult>)
        ensures
            results@ == self.results(),
    {
        &self.results
    }

    /// The subnets that are leased keep their leases where the pool has
    /// every lease that it had.
    proof fn lemma_leases_kept(self, before: SuiteRunner)
        requires
            before.wf(),
            self.pool().wf(),
            self.pool().same_slots(before.pool()),
            self.leases() == before.leases(),
            forall|j: int| before.pool().leased(j) ==> self.pool().leased(j),
        ensures
            forall|r: int|
                0 <= r < self.leases().len() ==> self.holds_lease(#[trigger] self.leases()[r]),
    {
        assert forall|r: int| 0 <= r < self.leases().len() implies self.holds_lease(
            #[trigger] self.leases()[r],
        ) by {
            assert(before.holds_lease(before.leases()[r]));
            let k = choose|k: int| before.pool().leases(before.leases()[r], k);
            assert(self.pool().leases(self.leases()[r], k));
        }
    }

    /// Starts the next test, if one can start: the first that waits, in a
    /// subnet that begins at the lowest free slot of the pool. The test
    /// counts as running until its result comes in.
    pub fn start_next(&mut self) -> (r: Option<StartedTest>)
        requires
            old(self).wf(),
        ensures
            final(self).wf(),
            final(self).same_run(*old(self)),
            final(self).results() == old(self).results(),
            final(self).cancelled() == old(self).cancelled(),
            r is Some <==> old(self).may_start(),
            match r {
                Some(test) => {
                    &&& test.name == old(self).plan()[old(self).started()].name
                    &&& test.width_bits == old(self).plan()[old(self).started()].width_bits
                    &&& test.subnet.wf()
                    &&& test.subnet.bits() == test.width_bits
                    &&& exists|k: int| #[trigger]
                        old(self).pool().is_lowest_free(k) && test.subnet.first() == old(self).pool().slot_base(k)
                    &&& final(self).started() == old(self).started() + 1
                    &&& final(self).running() == old(self).running().push(test.name@)
                    &&& final(self).leases() == old(self).leases().push(test.subnet)
                },
                None => final(self).started() == old(self).started() && final(self).running()
                    == old(self).running() && final(self).leases() == old(self).leases(),
            },
    {
        if self.cancelled || self.started >= self.plan.len() || self.running.len()
            >= self.concurrency {
            return None;
        }
        let width = self.plan[self.started].width_bits;
        let subnet = match self.pool.acquire(width) {
            Ok(subnet) => subnet,
            Err(_) => {
                proof {
                    self.lemma_leases_kept(*old(self));
                }
                return None;
            },
        };
        let test = StartedTest {
            name: self.plan[self.started].name.clone(),
            width_bits: width,
            subnet,
        };
        self.running.push(test.name.clone());
        self.leases.push(subnet);
        self.started = self.started + 1;
        proof {
            let s = old(self).started();
            let n = old(self).leases().len() as int;
            let k = choose|k: int| #[trigger]
                old(self).pool().is_lowest_free(k) && subnet.first() == old(self).pool().slot_base(
                    k,
                ) && forall|j: int| self.pool().leased(j) == (old(self).pool().leased(j) || j == k);
            assert(self.running() =~= old(self).running().push(test.name@));
            assert forall|r: int| 0 <= r < self.running().len() implies self.was_started(
                #[trigger] self.running()[r],
            ) by {
                if r < old(self).running().len() {
                    assert(self.running()[r] == old(self).running()[r]);
                    assert(old(self).was_started(old(self).running()[r]));
                    let c = choose|c: int|
                        0 <= c < s && (#[trigger] self.plan()[c]).name@ == self.running()[r];
                    assert(self.plan()[c].name@ == self.running()[r]);
                } else {
                    assert(self.plan()[s].name@ == self.running()[r]);
                }
            }
            assert forall|r: int, q: int| 0 <= r < q < self.running().len() implies #[trigger]
                self.running()[r] != #[trigger] self.running()[q] by {
                if q < old(self).running().len() {
                    assert(self.running()[r] == old(self).running()[r]);
                    assert(self.running()[q] == old(self).running()[q]);
                } else {
                    assert(old(self).was_started(old(self).running()[r]));
                    let c = choose|c: int|
                        0 <= c < s && (#[trigger] self.plan()[c]).name@ == old(self).running()[r];
                    lemma_plan_names_distinct(self.plan(), c, s);
                }
            }
            assert(self.pool().leased(k));
            assert(self.pool().leases(subnet, k));
            assert forall|r: int| 0 <= r < self.leases().len() implies self.holds_lease(
                #[trigger] self.leases()[r],
            ) && (r < n ==> self.leases()[r].disjoint(subnet)) by {
                if r < n {
                    assert(self.leases()[r] == old(self).leases()[r]);
                    assert(old(self).holds_lease(old(self).leases()[r]));
                    let kr = choose|kr: int| old(self).pool().leases(old(self).leases()[r], kr);
                    assert(self.pool().leases(self.leases()[r], kr));
                    lemma_slots_distinct(old(self).pool(), kr, k);
                    lemma_leases_disjoint(old(self).pool(), self.leases()[r], kr, subnet, k);
                } else {
                    assert(self.leases()[r] == subnet);
                }
            }
            assert forall|r: int, q: int| 0 <= r < q < self.leases().len() implies (
            #[trigger] self.leases()[r]).disjoint(#[trigger] self.leases()[q]) by {
                if q < n {
                    assert(self.leases()[r] == old(self).leases()[r]);
                    assert(self.leases()[q] == old(self).leases()[q]);
                } else {
                    assert(self.leases()[q] == subnet);
                }
            }
        }
        Some(test)
    }

    /// The place of `name` among the tests that are running.
    fn find_running(&self, name: &str) -> (r: Option<usize>)
        ensures
            match r {
                Some(i) => i < self.running().len() && self.running()[i as int] == name@,
                None => !self.running().contains(name@),
            },
    {
        let mut i: usize = 0;
        while i < self.running.len()
            invariant
                i <= self.running.len(),
                forall|j: int| 0 <= j < i ==> self.running()[j] != name@,
            decreases self.running.len() - i,
        {
            assert(self.running()[i as int] == self.running@[i as int]@);
            if same_text(self.running[i].as_str(), name) {
                return Some(i);
            }
            i = i + 1;
        }
        None
    }

    /// Takes the result of a test that is running: the test no longer runs,
    /// its subnet goes back to the pool, and its result is the last of the
    /// results.
    ///
    /// Refused with `NotRunning`, and nothing changes, exactly when no test
    /// of the result's name is running.
    pub fn complete(&mut self, result: TestResult) -> (r: Result<(), SuiteError>)
        requires
            old(self).wf(),
        ensures
            final(self).wf(),
            final(self).same_run(*old(self)),
            final(self).started() == old(self).started(),
            final(self).cancelled() == old(self).cancelled(),
            r is Ok <==> old(self).running().contains(result.name@),
            match r {
                Ok(()) => {
                    let at = old(self).running().index_of(result.name@);
                    &&& final(self).results() == old(self).results().push(result)
                    &&& final(self).running() == old(self).running().remove(at)
                    &&& final(self).leases() == old(self).leases().remove(at)
                    &&& !final(self).running().contains(result.name@)
                    &&& forall|j: int|
                        final(self).pool().leased(j) == (old(self).pool().leased(j) && !old(self).pool().leases(old(self).leases()[at], j))
                },
                Err(e) => e == SuiteError::NotRunning && final(self).running() == old(self).running() && final(self).leases() == old(self).leases() && final(self).results()
                    == old(self).results() && final(self).pool() == old(self).pool(),
            },
    {
        match self.find_running(result.name.as_str()) {
            None => Err(SuiteError::NotRunning),
            Some(i) => {
                let ghost name = result.name@;
                let ghost before = old(self).running();
                let ghost held = old(self).leases();
                let _name = self.running.remove(i);
                let subnet = self.leases.remove(i);
                let _freed = self.pool.release(&subnet);
                self.results.push(result);
                proof {
                    let at = before.index_of(name);
                    assert(before[i as int] == name);
                    assert(before[at] == name);
                    assert(at == i) by {
                        if at < i {
                            assert(before[at] != before[i as int]);
                        } else if i < at {
                            assert(before[i as int] != before[at]);
                        }
                    }
                    old(self).running@.remove_ensures(i as int);
                    before.remove_ensures(i as int);
                    held.remove_ensures(i as int);
                    assert(self.running() =~= before.remove(i as int));
                    assert forall|r: int| 0 <= r < self.running().len() implies self.was_started(
                        #[trigger] self.running()[r],
                    ) && self.running()[r] != name by {
                        let o = if r < i {
                            r
                        } else {
                            r + 1
                        };
                        assert(self.running()[r] == before[o]);
                        assert(old(self).was_started(before[o]));
                        let c = choose|c: int|
                            0 <= c < old(self).started() && (#[trigger] old(self).plan()[c]).name@
                                == before[o];
                        assert(self.plan()[c].name@ == self.running()[r]);
                        if o < i {
                            assert(before[o] != before[i as int]);
                        } else {
                            assert(before[i as int] != before[o]);
                        }
                    }
                    assert forall|r: int, q: int|
                        0 <= r < q < self.running().len() implies #[trigger] self.running()[r]
                        != #[trigger] self.running()[q] by {
                        let or = if r < i {
                            r
                        } else {
                            r + 1
                        };
                        let oq = if q < i {
                            q
                        } else {
                            q + 1
                        };
                        assert(self.running()[r] == before[or]);
                        assert(self.running()[q] == before[oq]);
                        assert(before[or] != before[oq]);
                    }
                    // the subnet was leased, so that the pool took it back
                    assert(subnet == held[i as int]);
                    assert(old(self).holds_lease(held[i as int]));
                    let k = choose|k: int| old(self).pool().leases(subnet, k);
                    assert(old(self).pool().leases(subnet, k));
                    let freed = choose|f: int| #[trigger]
                        old(self).pool().leases(subnet, f) && forall|j: int|
                            self.pool().leased(j) == (old(self).pool().leased(j) && j != f);
                    lemma_slots_distinct(old(self).pool(), k, freed);
                    assert forall|j: int|
                        self.pool().leased(j) == (old(self).pool().leased(j) && !old(self).pool().leases(subnet, j)) by {
                        lemma_slots_distinct(old(self).pool(), j, freed);
                    }
                    assert forall|r: int| 0 <= r < self.leases().len() implies self.holds_lease(
                        #[trigger] self.leases()[r],
                    ) by {
                        let o = if r < i {
                            r
                        } else {
                            r + 1
                        };
                        assert(self.leases()[r] == held[o]);
                        assert(old(self).holds_lease(held[o]));
                        let ko = choose|ko: int| old(self).pool().leases(held[o], ko);
                        if o < i {
                            assert(held[o].disjoint(held[i as int]));
                        } else {
                            assert(held[i as int].disjoint(held[o]));
                        }
                        assert(ko != freed);
                        assert(self.pool().leases(self.leases()[r], ko));
                    }
                    assert forall|r: int, q: int| 0 <= r < q < self.leases().len() implies (
                    #[trigger] self.leases()[r]).disjoint(#[trigger] self.leases()[q]) by {
                        let or = if r < i {
                            r
                        } else {
                            r + 1
                        };
                        let oq = if q < i {
                            q
                        } else {
                            q + 1
                        };
                        assert(self.leases()[r] == held[or]);
                        assert(self.leases()[q] == held[oq]);
                        assert(held[or].disjoint(held[oq]));
                    }
                }
                Ok(())
            },
        }
    }

    /// Cancels the run: no test starts from now on, and every test that
    /// still waits gets the result that it was skipped. The tests that are
    /// running go on until their results come in.
    pub fn cancel(&mut self)
        requires
            old(self).wf(),
        ensures
            final(self).wf(),
            final(self).cancelled(),
            final(self).same_run(*old(self)),
            final(self).pool() == old(self).pool(),
            final(self).running() == old(self).running(),
            final(self).leases() == old(self).leases(),
            final(self).started() == old(self).plan().len(),
            final(self).results() == old(self).results() + skipped_results(
                old(self).plan().subrange(old(self).started(), old(self).plan().len() as int),
            ),
    {
        self.cancelled = true;
        let ghost first = old(self).started();
        let ghost n = old(self).plan().len() as int;
        assert(self.results() =~= old(self).results() + skipped_results(
            self.plan().subrange(first, first),
        ));
        while self.started < self.plan.len()
            invariant
                self.cancelled,
                self.plan == old(self).plan,
                self.concurrency == old(self).concurrency,
                self.running == old(self).running,
                self.leases == old(self).leases,
                self.pool == old(self).pool,
                old(self).wf(),
                n == self.plan().len(),
                first <= self.started() <= n,
                first == old(self).started(),
                self.results() == old(self).results() + skipped_results(
                    self.plan().subrange(first, self.started()),
                ),
            decreases self.plan.len() - self.started,
        {
            let ghost s = self.started();
            self.results.push(
                TestResult {
                    name: self.plan[self.started].name.clone(),
                    outcome: Outcome::Skipped(SkipReason::Cancelled),
                    duration_ms: 0,
                    teardown_failed: false,
                },
            );
            self.started = self.started + 1;
            assert(self.results() =~= old(self).results() + skipped_results(
                self.plan().subrange(first, s + 1),
            ));
        }
        proof {
            assert forall|r: int| 0 <= r < self.running().len() implies self.was_started(
                #[trigger] self.running()[r],
            ) by {
                assert(old(self).was_started(old(self).running()[r]));
                let c = choose|c: int|
                    0 <= c < first && (#[trigger] old(self).plan()[c]).name@ == old(self).running()[r];
                assert(self.plan()[c].name@ == self.running()[r]);
            }
            self.lemma_leases_kept(*old(self));
        }
    }

    /// The report of the run as it stands.
    pub fn report(&self) -> (report: SuiteReport)
        ensures
            report.results@ == self.results(),
            tally_matches(report.tally, self.results()),
            report.cancelled == self.cancelled(),
    {
        let mut results: Vec<TestResult> = Vec::new();
        let mut k: usize = 0;
        while k < self.results.len()
            invariant
                k <= self.results.len(),
                results@ == self.results@.take(k as int),
            decreases self.results.len() - k,
        {
            results.push(
                TestResult {
                    name: self.results[k].name.clone(),
                    outcome: self.results[k].outcome.duplicate(),
                    duration_ms: self.results[k].duration_ms,
                    teardown_failed: self.results[k].teardown_failed,
                },
            );
            k = k + 1;
            assert(results@ =~= self.results@.take(k as int));
        }
        assert(self.results@.take(k as int) =~= self.results@);
        let tally = tally_results(&results);
        SuiteReport { results, tally, cancelled: self.cancelled }
    }
}

/// At no time do more tests run than the runner was told to allow.
pub proof fn lemma_scheduling_cap(runner: SuiteRunner)
    requires
        runner.wf(),
    ensures
        runner.running().len() <= runner.concurrency(),
        runner.may_start() ==> runner.running().len() + 1 <= runner.concurrency(),
{
}

/// No two tests that run at a time share an address: their subnets are
/// disjoint.
pub proof fn lemma_running_tests_isolated(runner: SuiteRunner, r: int, q: int)
    requires
        runner.wf(),
        0 <= r < runner.leases().len(),
        0 <= q < runner.leases().len(),
        r != q,
    ensures
        runner.leases()[r].disjoint(runner.leases()[q]),
        forall|ip: u32| !(runner.leases()[r].contains(ip) && runner.leases()[q].contains(ip)),
{
    if r < q {
        assert(runner.leases()[r].disjoint(runner.leases()[q]));
    } else {
        assert(runner.leases()[q].disjoint(runner.leases()[r]));
    }
}

/// When a run is over, every test of the plan has its result.
pub proof fn lemma_finished_run_is_complete(runner: SuiteRunner)
    requires
        runner.wf(),
        runner.finished(),
    ensures
        runner.results().len() == runner.plan().len(),
        !runner.may_start(),
{
}

} // verus!
