use kurtosis_rust_lib::filter::{chars_of, glob_match, NameFilter};
use kurtosis_rust_lib::outcome::{ErrorSite, Fault, Outcome, SkipReason, TestResult};
use kurtosis_rust_lib::pool::SubnetPool;
use kurtosis_rust_lib::runner::{
    tally_results, StartedTest, SuiteReport, SuiteRunner, Tally, EXIT_CANCELLED, EXIT_FAILED,
    EXIT_INVALID_ARGUMENTS, EXIT_PASSED,
};
use kurtosis_rust_lib::testsuite::{
    plan_tests, PlannedTest, SuiteError, TestEntry, TestSuite,
};

fn entry(name: &str) -> TestEntry {
    TestEntry { name: name.to_string(), width_bits: None }
}

fn entries(names: &[&str]) -> Vec<TestEntry> {
    names.iter().map(|n| entry(n)).collect()
}

fn planned(name: &str, width_bits: u32) -> PlannedTest {
    PlannedTest { name: name.to_string(), width_bits }
}

fn names(plan: &[PlannedTest]) -> Vec<&str> {
    plan.iter().map(|t| t.name.as_str()).collect()
}

fn result(name: &str, outcome: Outcome) -> TestResult {
    TestResult { name: name.to_string(), outcome, duration_ms: 10, teardown_failed: false }
}

const BASE: u32 = 0x0a00_0000;

/// A pool of `slots` subnets of up to 256 addresses each.
fn pool(slots: u32) -> SubnetPool {
    SubnetPool::new(BASE, 8, slots).unwrap()
}

fn runner(names: &[&str], concurrency: usize) -> SuiteRunner {
    SuiteRunner::new(&entries(names), 4, &NameFilter::All, concurrency, pool(16)).unwrap()
}

/// The name and the width of a test that was started.
fn brief(started: Option<StartedTest>) -> Option<(String, u32)> {
    started.map(|t| (t.name, t.width_bits))
}

fn test(name: &str, width_bits: u32) -> Option<(String, u32)> {
    Some((name.to_string(), width_bits))
}

#[test]
fn glob_matches_plain_text() {
    assert!(glob_match("", ""));
    assert!(!glob_match("", "a"));
    assert!(glob_match("basic", "basic"));
    assert!(!glob_match("basic", "basics"));
    assert!(!glob_match("basics", "basic"));
    assert!(!glob_match("basic", "Basic"));
}

#[test]
fn glob_matches_stars_and_question_marks() {
    assert!(glob_match("*", ""));
    assert!(glob_match("*", "anything"));
    assert!(glob_match("t*", "t1"));
    assert!(glob_match("t*", "t"));
    assert!(!glob_match("t*", "s1"));
    assert!(glob_match("*test", "my_test"));
    assert!(!glob_match("*test", "my_tests"));
    assert!(glob_match("a*b*c", "aXXbYYc"));
    assert!(glob_match("a*b*c", "abc"));
    assert!(glob_match("a*b*c", "abcbc"));
    assert!(!glob_match("a*b*c", "acb"));
    assert!(glob_match("**", "x"));
    assert!(glob_match("?", "x"));
    assert!(!glob_match("?", ""));
    assert!(!glob_match("?", "xy"));
    assert!(glob_match("t?", "t1"));
    assert!(!glob_match("t?", "t10"));
    assert!(glob_match("t?*", "t10"));
    assert!(glob_match("*?", "x"));
    assert!(!glob_match("*?", ""));
    assert!(glob_match("?", "é"));
    assert!(glob_match("gr??e", "größe"));
    assert!(!glob_match("gr?e", "größe"));
    assert!(glob_match("*a*a*a*a*a*a*a*a*b", "aaaaaaaaaaaaaaaaaaaaaaaaaaaaaaaaaaaaaaaab"));
    assert!(!glob_match("*a*a*a*a*a*a*a*a*b", "aaaaaaaaaaaaaaaaaaaaaaaaaaaaaaaaaaaaaaaa"));
}

#[test]
fn chars_of_gives_the_characters() {
    assert_eq!(chars_of(""), Vec::<char>::new());
    assert_eq!(chars_of("größe"), vec!['g', 'r', 'ö', 'ß', 'e']);
}

#[test]
fn filter_selects_by_name() {
    assert!(NameFilter::All.accepts("t1"));
    assert!(NameFilter::All.accepts(""));
    let some = NameFilter::Names(vec!["t1".to_string(), "t3".to_string()]);
    assert!(some.accepts("t1"));
    assert!(!some.accepts("t2"));
    assert!(some.accepts("t3"));
    assert!(!NameFilter::Names(Vec::new()).accepts("t1"));
    let pattern = NameFilter::Pattern("net*_test".to_string());
    assert!(pattern.accepts("network_test"));
    assert!(!pattern.accepts("network_tests"));
}

#[test]
fn plan_orders_tests_by_name() {
    let suite = entries(&["t2", "basic", "t10", "advanced", "t1", "Z"]);
    let plan = plan_tests(&suite, 4, &NameFilter::All).unwrap();
    assert_eq!(names(&plan), vec!["Z", "advanced", "basic", "t1", "t10", "t2"]);
    assert!(plan_tests(&Vec::new(), 4, &NameFilter::All).unwrap().is_empty());
}

#[test]
fn plan_settles_the_width_of_each_test() {
    let suite = vec![
        TestEntry { name: "wide".to_string(), width_bits: Some(8) },
        entry("plain"),
        TestEntry { name: "narrow".to_string(), width_bits: Some(2) },
    ];
    assert_eq!(
        plan_tests(&suite, 4, &NameFilter::All),
        Ok(vec![planned("narrow", 2), planned("plain", 4), planned("wide", 8)])
    );
}

#[test]
fn plan_holds_the_selected_tests_only() {
    let suite = entries(&["t2", "basic", "t10", "advanced", "t1"]);
    let pattern = NameFilter::Pattern("t*".to_string());
    assert_eq!(names(&plan_tests(&suite, 4, &pattern).unwrap()), vec!["t1", "t10", "t2"]);
    let some = NameFilter::Names(vec!["t2".to_string(), "missing".to_string(), "basic".to_string()]);
    assert_eq!(names(&plan_tests(&suite, 4, &some).unwrap()), vec!["basic", "t2"]);
    let none = NameFilter::Pattern("x*".to_string());
    assert!(plan_tests(&suite, 4, &none).unwrap().is_empty());
}

#[test]
fn plan_rejects_a_suite_that_is_not_in_order() {
    let all = NameFilter::All;
    assert_eq!(plan_tests(&entries(&["a", "", "b"]), 4, &all), Err(SuiteError::EmptyTestName));
    assert_eq!(plan_tests(&entries(&["a", "b", "a"]), 4, &all), Err(SuiteError::DuplicateTestName));
    assert_eq!(plan_tests(&entries(&["a"]), 0, &all), Err(SuiteError::InvalidWidth));
    assert_eq!(plan_tests(&entries(&["a"]), 25, &all), Err(SuiteError::InvalidWidth));
    assert!(plan_tests(&entries(&["a"]), 24, &all).is_ok());
    let wide = vec![entry("a"), TestEntry { name: "b".to_string(), width_bits: Some(30) }];
    assert_eq!(plan_tests(&wide, 4, &all), Err(SuiteError::InvalidWidth));
    // a width of its own makes up for the suite's
    let own = vec![TestEntry { name: "a".to_string(), width_bits: Some(3) }];
    assert_eq!(plan_tests(&own, 0, &all), Ok(vec![planned("a", 3)]));
}

#[test]
fn plan_reports_the_error_that_comes_first() {
    let all = NameFilter::All;
    let suite = vec![
        entry("a"),
        entry("a"),
        TestEntry { name: "b".to_string(), width_bits: Some(0) },
        entry(""),
    ];
    assert_eq!(plan_tests(&suite, 4, &all), Err(SuiteError::EmptyTestName));
    assert_eq!(plan_tests(&suite[..3].to_vec(), 4, &all), Err(SuiteError::InvalidWidth));
    assert_eq!(plan_tests(&suite[..2].to_vec(), 4, &all), Err(SuiteError::DuplicateTestName));
    // what the filter leaves out is checked all the same
    let only_b = NameFilter::Names(vec!["b".to_string()]);
    assert_eq!(plan_tests(&suite[..2].to_vec(), 4, &only_b), Err(SuiteError::DuplicateTestName));
}

#[test]
fn runner_rejects_a_run_of_nothing_at_a_time() {
    let suite = entries(&["a", "a"]);
    let all = NameFilter::All;
    assert_eq!(SuiteRunner::new(&suite, 4, &all, 0, pool(4)).err(), Some(SuiteError::ZeroConcurrency));
    assert_eq!(SuiteRunner::new(&suite, 4, &all, 1, pool(4)).err(), Some(SuiteError::DuplicateTestName));
}

#[test]
fn runner_rejects_tests_that_are_too_wide_for_the_pool() {
    let all = NameFilter::All;
    let wide = vec![entry("a"), TestEntry { name: "b".to_string(), width_bits: Some(9) }];
    assert_eq!(SuiteRunner::new(&wide, 8, &all, 1, pool(4)).err(), Some(SuiteError::WidthExceedsPool));
    assert_eq!(SuiteRunner::new(&entries(&["a"]), 9, &all, 1, pool(4)).err(), Some(SuiteError::WidthExceedsPool));
    assert!(SuiteRunner::new(&entries(&["a"]), 8, &all, 1, pool(4)).is_ok());
    // what is wrong with the suite itself comes first
    let twice = vec![wide[1].clone(), wide[1].clone()];
    assert_eq!(SuiteRunner::new(&twice, 8, &all, 1, pool(4)).err(), Some(SuiteError::DuplicateTestName));
}

#[test]
fn runner_leases_a_subnet_to_every_test_that_runs() {
    let mut r = runner(&["a", "b", "c", "d"], 3);
    let a = r.start_next().unwrap();
    let b = r.start_next().unwrap();
    let c = r.start_next().unwrap();
    assert_eq!(r.start_next(), None);
    assert_eq!(
        [&a, &b, &c].map(|t| (t.subnet.network_address(), t.subnet.width_bits())),
        [(BASE, 4), (BASE + 256, 4), (BASE + 512, 4)]
    );
    // the subnet of a test that is done goes to the next
    r.complete(result("b", Outcome::Passed)).unwrap();
    let d = r.start_next().unwrap();
    assert_eq!((d.name.as_str(), d.subnet), ("d", b.subnet));
}

#[test]
fn runner_waits_for_a_subnet_when_the_pool_is_empty() {
    let suite = entries(&["a", "b"]);
    let mut r = SuiteRunner::new(&suite, 4, &NameFilter::All, 2, pool(1)).unwrap();
    assert_eq!(brief(r.start_next()), test("a", 4));
    assert_eq!(r.start_next(), None);
    assert!(!r.is_finished());
    assert_eq!(r.waiting_count(), 1);
    r.complete(result("a", Outcome::Passed)).unwrap();
    assert_eq!(brief(r.start_next()), test("b", 4));
}

#[test]
fn runner_starts_tests_in_the_order_of_their_names() {
    let mut r = runner(&["t2", "t3", "t1"], 1);
    assert_eq!(names(r.get_plan()), vec!["t1", "t2", "t3"]);
    for name in ["t1", "t2", "t3"] {
        assert!(!r.is_finished());
        assert_eq!(brief(r.start_next()), test(name, 4));
        assert_eq!(r.start_next(), None);
        assert_eq!(r.complete(result(name, Outcome::Passed)), Ok(()));
    }
    assert!(r.is_finished());
    assert_eq!(r.start_next(), None);
}

#[test]
fn runner_never_runs_more_tests_than_it_may() {
    for cap in 1..=4usize {
        let mut r = runner(&["a", "b", "c", "d", "e", "f", "g"], cap);
        let mut running: Vec<String> = Vec::new();
        let mut round = 0;
        while !r.is_finished() {
            while let Some(test) = r.start_next() {
                running.push(test.name);
                assert!(running.len() <= cap);
                assert_eq!(r.running_count(), running.len());
            }
            assert_eq!(running.len(), cap.min(running.len() + r.waiting_count()));
            // the tests end in an order of their own
            let done = running.remove(round % running.len());
            assert_eq!(r.complete(result(&done, Outcome::Passed)), Ok(()));
            round += 1;
        }
        assert_eq!(r.get_results().len(), 7);
        assert_eq!(r.running_count(), 0);
    }
}

#[test]
fn runner_takes_results_of_running_tests_only() {
    let mut r = runner(&["a", "b"], 2);
    assert_eq!(r.complete(result("a", Outcome::Passed)), Err(SuiteError::NotRunning));
    r.start_next();
    assert_eq!(r.complete(result("b", Outcome::Passed)), Err(SuiteError::NotRunning));
    assert_eq!(r.complete(result("zz", Outcome::Passed)), Err(SuiteError::NotRunning));
    assert_eq!(r.complete(result("a", Outcome::Passed)), Ok(()));
    assert_eq!(r.complete(result("a", Outcome::Passed)), Err(SuiteError::NotRunning));
    assert_eq!(r.get_results().len(), 1);
    assert_eq!(r.running_count(), 0);
    assert_eq!(r.waiting_count(), 1);
}

#[test]
fn runner_goes_on_when_a_test_fails() {
    let mut r = runner(&["a", "b", "c"], 1);
    r.start_next();
    r.complete(result("a", Outcome::Failed("no".to_string()))).unwrap();
    assert_eq!(brief(r.start_next()), test("b", 4));
    r.complete(result("b", Outcome::Errored(ErrorSite::Setup, Fault::NetworkCreateFailed))).unwrap();
    assert_eq!(brief(r.start_next()), test("c", 4));
    r.complete(result("c", Outcome::Passed)).unwrap();
    let report = r.report();
    assert_eq!(report.tally, Tally { passed: 1, failed: 1, errored: 1, skipped: 0, timed_out: 0 });
    assert_eq!(report.exit_code(), EXIT_FAILED);
}

#[test]
fn runner_skips_what_waits_when_it_is_cancelled() {
    let mut r = runner(&["a", "b", "c", "d"], 2);
    r.start_next();
    r.start_next();
    r.complete(result("a", Outcome::Passed)).unwrap();
    r.cancel();
    assert!(r.is_cancelled());
    assert_eq!(r.start_next(), None);
    assert_eq!(r.waiting_count(), 0);
    assert_eq!(r.running_count(), 1);
    assert!(!r.is_finished());
    let cancelled = Outcome::Errored(ErrorSite::Cancelled, Fault::Interrupted(kurtosis_rust_lib::outcome::Stage::Execution));
    r.complete(result("b", cancelled.clone())).unwrap();
    assert!(r.is_finished());
    let skipped = |name: &str| TestResult {
        name: name.to_string(),
        outcome: Outcome::Skipped(SkipReason::Cancelled),
        duration_ms: 0,
        teardown_failed: false,
    };
    let report = r.report();
    assert_eq!(
        report.results,
        vec![result("a", Outcome::Passed), skipped("c"), skipped("d"), result("b", cancelled)]
    );
    assert_eq!(report.tally, Tally { passed: 1, failed: 0, errored: 1, skipped: 2, timed_out: 0 });
    assert!(report.cancelled);
    assert_eq!(report.exit_code(), EXIT_CANCELLED);
    // a second cancellation skips nothing twice
    r.cancel();
    assert_eq!(r.get_results().len(), 4);
}

#[test]
fn report_counts_every_result_once() {
    let results = vec![
        result("a", Outcome::Passed),
        result("b", Outcome::TimedOut),
        result("c", Outcome::Failed("x".to_string())),
        result("d", Outcome::Passed),
        result("e", Outcome::Skipped(SkipReason::Cancelled)),
        result("f", Outcome::Errored(ErrorSite::Teardown, Fault::TeardownFailed)),
        result("g", Outcome::TimedOut),
    ];
    let tally = tally_results(&results);
    assert_eq!(tally, Tally { passed: 2, failed: 1, errored: 1, skipped: 1, timed_out: 2 });
    assert_eq!(tally.passed + tally.failed + tally.errored + tally.skipped + tally.timed_out, results.len());
    assert_eq!(tally_results(&Vec::new()), Tally { passed: 0, failed: 0, errored: 0, skipped: 0, timed_out: 0 });
}

#[test]
fn report_gives_the_exit_code() {
    let report = |tally: Tally, cancelled: bool| SuiteReport { results: Vec::new(), tally, cancelled };
    let clean = Tally { passed: 3, failed: 0, errored: 0, skipped: 0, timed_out: 0 };
    assert_eq!((EXIT_PASSED, EXIT_FAILED, EXIT_INVALID_ARGUMENTS, EXIT_CANCELLED), (0, 1, 2, 3));
    assert_eq!(report(clean, false).exit_code(), 0);
    assert_eq!(report(Tally { passed: 0, ..clean }, false).exit_code(), 0);
    assert_eq!(report(Tally { failed: 1, ..clean }, false).exit_code(), 1);
    assert_eq!(report(Tally { errored: 1, ..clean }, false).exit_code(), 1);
    assert_eq!(report(Tally { timed_out: 1, ..clean }, false).exit_code(), 1);
    assert_eq!(report(clean, true).exit_code(), 3);
    assert_eq!(report(Tally { failed: 1, ..clean }, true).exit_code(), 3);
}

struct Registered;

impl TestSuite for Registered {
    fn get_tests(&self) -> Vec<TestEntry> {
        vec![entry("network_test"), TestEntry { name: "basic_test".to_string(), width_bits: Some(6) }]
    }

    fn get_network_width_bits(&self) -> u32 {
        8
    }
}

#[test]
fn runner_reads_the_suite_that_the_user_registers() {
    let mut r = SuiteRunner::from_suite(&Registered, &NameFilter::All, 2, pool(4)).unwrap();
    assert_eq!(brief(r.start_next()), test("basic_test", 6));
    assert_eq!(brief(r.start_next()), test("network_test", 8));
    assert_eq!(
        SuiteRunner::from_suite(&Registered, &NameFilter::All, 0, pool(4)).err(),
        Some(SuiteError::ZeroConcurrency)
    );
    let pattern = NameFilter::Pattern("net*".to_string());
    let r = SuiteRunner::from_suite(&Registered, &pattern, 1, pool(4)).unwrap();
    assert_eq!(names(r.get_plan()), vec!["network_test"]);
}
