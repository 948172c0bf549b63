//! The suite of tests that a user registers, and the plan that the core
//! makes of it: which tests run, in which order, each in a subnet of which
//! width.

use crate::address::MAX_WIDTH_BITS;
use crate::executor::effective_width;
use crate::filter::NameFilter;
use crate::text::{compare_names, name_before, NameOrder};
use vstd::prelude::*;
use vstd::string::*;

verus! {

/// One registered test: its name, and the width of its subnet where it asks
/// for another than the suite's.
#[derive(Clone, Debug, PartialEq, Eq)]
pub struct TestEntry {
    pub name: String,
    pub width_bits: Option<u32>,
}

/// What the user implements to register tests.
pub trait TestSuite {
    /// The tests of the suite. Names are not empty, and no two tests share
    /// one.
    fn get_tests(&self) -> Vec<TestEntry>;

    /// The number of host bits of each test's subnet, which bounds the
    /// number of services that a test can have.
    fn get_network_width_bits(&self) -> u32;
}

/// One test of a plan, with the width of its subnet settled.
#[derive(Clone, Debug, PartialEq, Eq)]
pub struct PlannedTest {
    pub name: String,
    pub width_bits: u32,
}

/// Why a suite cannot be run, or a request to its runner was refused.
#[derive(Clone, Copy, Debug, PartialEq, Eq)]
pub enum SuiteError {
    /// The suite is to run with no test at a time.
    ZeroConcurrency,
    /// A test has the empty name.
    EmptyTestName,
    /// A test's subnet width is zero or larger than `MAX_WIDTH_BITS`.
    InvalidWidth,
    /// Two tests share a name.
    DuplicateTestName,
    /// A test's subnet is wider than the subnets that the pool can lease.
    WidthExceedsPool,
    /// The test whose result is reported is not running.
    NotRunning,
}

/// The subnet width of `entry` in a suite whose width is `suite_default`.
pub open spec fn width_of(entry: TestEntry, suite_default: u32) -> u32 {
    match entry.width_bits {
        Some(bits) => bits,
        None => suite_default,
    }
}

/// A test of `entries` has the empty name.
pub open spec fn has_empty_name(entries: Seq<TestEntry>) -> bool {
    exists|i: int| 0 <= i < entries.len() && (#[trigger] entries[i]).name@.len() == 0
}

/// A test of `entries` asks for a width that no subnet can have.
pub open spec fn has_invalid_width(entries: Seq<TestEntry>, suite_default: u32) -> bool {
    exists|i: int|
        0 <= i < entries.len() && !(0 < width_of(#[trigger] entries[i], suite_default)
            <= MAX_WIDTH_BITS)
}

/// Two tests of `entries` share a name.
pub open spec fn has_duplicate_name(entries: Seq<TestEntry>) -> bool {
    exists|i: int, j: int|
        0 <= i < j < entries.len() && (#[trigger] entries[i]).name@ == (#[trigger] entries[j]).name@
}

/// What is wrong with a suite, if anything: an empty name before an invalid
/// width, and that before a name used twice.
pub open spec fn suite_error(entries: Seq<TestEntry>, suite_default: u32) -> Option<SuiteError> {
    if has_empty_name(entries) {
        Some(SuiteError::EmptyTestName)
    } else if has_invalid_width(entries, suite_default) {
        Some(SuiteError::InvalidWidth)
    } else if has_duplicate_name(entries) {
        Some(SuiteError::DuplicateTestName)
    } else {
        None
    }
}

/// The tests of `plan` stand in the order of their names, each before the
/// next.
pub open spec fn ascending(plan: Seq<PlannedTest>) -> bool {
    forall|i: int, j: int|
        0 <= i < j < plan.len() ==> name_before((#[trigger] plan[i]).name@, (#[trigger] plan[j]).name@)
}

/// `planned` is the test `entry`, with its width settled.
pub open spec fn planned_from(planned: PlannedTest, entry: TestEntry, suite_default: u32) -> bool {
    planned.name@ == entry.name@ && planned.width_bits == width_of(entry, suite_default)
}

/// Every test of `plan` is a test of `entries`.
pub open spec fn drawn_from(plan: Seq<PlannedTest>, entries: Seq<TestEntry>, suite_default: u32) -> bool {
    forall|a: int|
        0 <= a < plan.len() ==> exists|b: int|
            0 <= b < entries.len() && planned_from(#[trigger] plan[a], entries[b], suite_default)
}

/// Every test of `entries` that `filter` selects is a test of `plan`.
pub open spec fn covers(
    plan: Seq<PlannedTest>,
    entries: Seq<TestEntry>,
    suite_default: u32,
    filter: NameFilter,
) -> bool {
    forall|e: TestEntry| #[trigger]
        entries.contains(e) && filter.selects(e.name@) ==> exists|a: int|
            0 <= a < plan.len() && planned_from(#[trigger] plan[a], e, suite_default)
}

/// `plan` is the plan of the suite `entries` under `filter`: the selected
/// tests and no others, in the order of their names.
pub open spec fn is_plan_of(
    plan: Seq<PlannedTest>,
    entries: Seq<TestEntry>,
    suite_default: u32,
    filter: NameFilter,
) -> bool {
    &&& ascending(plan)
    &&& drawn_from(plan, entries, suite_default)
    &&& forall|a: int| 0 <= a < plan.len() ==> filter.selects((#[trigger] plan[a]).name@)
    &&& covers(plan, entries, suite_default, filter)
}

/// The tests of `plan` that `filter` selects, in the order of `plan`.
pub open spec fn selected(plan: Seq<PlannedTest>, filter: NameFilter) -> Seq<PlannedTest>
    decreases plan.len(),
{
    if plan.len() == 0 {
        Seq::empty()
    } else if filter.selects(plan.last().name@) {
        selected(plan.drop_last(), filter).push(plan.last())
    } else {
        selected(plan.drop_last(), filter)
    }
}

/// A test put into an ascending plan at its place leaves the plan ascending.
proof fn lemma_insert_keeps_ascending(plan: Seq<PlannedTest>, pos: int, item: PlannedTest)
    requires
        ascending(plan),
        0 <= pos <= plan.len(),
        forall|a: int| 0 <= a < pos ==> name_before((#[trigger] plan[a]).name@, item.name@),
        pos < plan.len() ==> name_before(item.name@, plan[pos].name@),
    ensures
        ascending(plan.insert(pos, item)),
{
    let after = plan.insert(pos, item);
    plan.insert_ensures(pos, item);
    assert forall|i: int, j: int| 0 <= i < j < after.len() implies name_before(
        (#[trigger] after[i]).name@,
        (#[trigger] after[j]).name@,
    ) by {
        if j < pos {
        } else if j == pos {
        } else {
            assert(after[j] == plan[j - 1]);
            if i < pos {
                assert(name_before(plan[i].name@, plan[j - 1].name@));
            } else if i == pos {
                if j - 1 > pos {
                    assert(name_before(plan[pos].name@, plan[j - 1].name@));
                    crate::text::lemma_names_transitive(
                        item.name@,
                        plan[pos].name@,
                        plan[j - 1].name@,
                    );
                }
            } else {
                assert(after[i] == plan[i - 1]);
                assert(name_before(plan[i - 1].name@, plan[j - 1].name@));
            }
        }
    }
}

/// Where a plan is drawn from some tests, the plan with one more test in it
/// is drawn from those and that test.
proof fn lemma_insert_drawn(
    plan: Seq<PlannedTest>,
    seen: Seq<TestEntry>,
    pos: int,
    item: PlannedTest,
    entry: TestEntry,
    d: u32,
)
    requires
        drawn_from(plan, seen, d),
        0 <= pos <= plan.len(),
        planned_from(item, entry, d),
    ensures
        drawn_from(plan.insert(pos, item), seen.push(entry), d),
{
    let after = plan.insert(pos, item);
    let next = seen.push(entry);
    plan.insert_ensures(pos, item);
    assert forall|a: int| 0 <= a < after.len() implies exists|b: int|
        0 <= b < next.len() && planned_from(#[trigger] after[a], next[b], d) by {
        if a == pos {
            assert(planned_from(after[a], next[seen.len() as int], d));
        } else {
            let o = if a < pos {
                a
            } else {
                a - 1
            };
            assert(after[a] == plan[o]);
            let b = choose|b: int| 0 <= b < seen.len() && planned_from(plan[o], seen[b], d);
            assert(planned_from(after[a], next[b], d));
        }
    }
}

/// Where a plan covers some tests, the plan with one more test in it covers
/// those and that test.
proof fn lemma_insert_covers(
    plan: Seq<PlannedTest>,
    seen: Seq<TestEntry>,
    pos: int,
    item: PlannedTest,
    entry: TestEntry,
    d: u32,
)
    requires
        covers(plan, seen, d, NameFilter::All),
        0 <= pos <= plan.len(),
        planned_from(item, entry, d),
    ensures
        covers(plan.insert(pos, item), seen.push(entry), d, NameFilter::All),
{
    let after = plan.insert(pos, item);
    let next = seen.push(entry);
    plan.insert_ensures(pos, item);
    assert forall|e: TestEntry| #[trigger]
        next.contains(e) && NameFilter::All.selects(e.name@) implies exists|a: int|
        0 <= a < after.len() && planned_from(#[trigger] after[a], e, d) by {
        let b = choose|b: int| 0 <= b < next.len() && next[b] == e;
        if b == seen.len() {
            assert(planned_from(after[pos], e, d));
        } else {
            assert(seen[b] == e);
            assert(seen.contains(e));
            let o = choose|o: int| 0 <= o < plan.len() && planned_from(#[trigger] plan[o], e, d);
            let a = if o < pos {
                o
            } else {
                o + 1
            };
            assert(after[a] == plan[o]);
            assert(planned_from(after[a], e, d));
        }
    }
}

/// A name that has its place between the names of an ascending plan is none
/// of the names of the tests that the plan covers.
proof fn lemma_placed_name_is_new(
    plan: Seq<PlannedTest>,
    seen: Seq<TestEntry>,
    pos: int,
    name: Seq<char>,
    d: u32,
)
    requires
        ascending(plan),
        covers(plan, seen, d, NameFilter::All),
        !has_duplicate_name(seen),
        0 <= pos <= plan.len(),
        forall|a: int| 0 <= a < pos ==> name_before((#[trigger] plan[a]).name@, name),
        pos < plan.len() ==> name_before(name, plan[pos].name@),
    ensures
        forall|i: int| 0 <= i < seen.len() ==> (#[trigger] seen[i]).name@ != name,
{
    assert forall|i: int| 0 <= i < seen.len() implies (#[trigger] seen[i]).name@ != name by {
        assert(seen.contains(seen[i]));
        let o = choose|o: int| 0 <= o < plan.len() && planned_from(#[trigger] plan[o], seen[i], d);
        if o < pos {
            crate::text::lemma_names_exclusive(plan[o].name@, name);
        } else {
            if o > pos {
                assert(name_before(plan[pos].name@, plan[o].name@));
                crate::text::lemma_names_transitive(name, plan[pos].name@, plan[o].name@);
            }
            crate::text::lemma_names_exclusive(name, plan[o].name@);
        }
    }
}

/// Tests with distinct names and one more test under a new name have
/// distinct names.
proof fn lemma_push_keeps_distinct(seen: Seq<TestEntry>, entry: TestEntry)
    requires
        !has_duplicate_name(seen),
        forall|i: int| 0 <= i < seen.len() ==> (#[trigger] seen[i]).name@ != entry.name@,
    ensures
        !has_duplicate_name(seen.push(entry)),
{
    let next = seen.push(entry);
    assert forall|i: int, j: int| 0 <= i < j < next.len() implies (#[trigger] next[i]).name@ != (
    #[trigger] next[j]).name@ by {
        if j < seen.len() {
            assert(seen[i].name@ != seen[j].name@);
        } else {
            assert(next[i] == seen[i]);
        }
    }
}

/// Every selected test of a plan is a test of the plan that the filter
/// selects.
proof fn lemma_selected_members(plan: Seq<PlannedTest>, filter: NameFilter)
    ensures
        forall|a: int|
            0 <= a < selected(plan, filter).len() ==> filter.selects(
                (#[trigger] selected(plan, filter)[a]).name@,
            ) && exists|c: int| 0 <= c < plan.len() && #[trigger] plan[c] == selected(plan, filter)[a],
        forall|t: PlannedTest| #[trigger]
            plan.contains(t) && filter.selects(t.name@) ==> exists|a: int|
                0 <= a < selected(plan, filter).len() && #[trigger] selected(plan, filter)[a] == t,
    decreases plan.len(),
{
    let out = selected(plan, filter);
    if plan.len() > 0 {
        let front = plan.drop_last();
        let rest = selected(front, filter);
        lemma_selected_members(front, filter);
        assert forall|a: int| 0 <= a < out.len() implies filter.selects((#[trigger] out[a]).name@)
            && exists|c: int| 0 <= c < plan.len() && #[trigger] plan[c] == out[a] by {
            if a < rest.len() {
                assert(out[a] == rest[a]);
                let c = choose|c: int| 0 <= c < front.len() && #[trigger] front[c] == rest[a];
                assert(plan[c] == out[a]);
            } else {
                assert(plan[plan.len() - 1] == out[a]);
            }
        }
        assert forall|t: PlannedTest| #[trigger]
            plan.contains(t) && filter.selects(t.name@) implies exists|a: int|
            0 <= a < out.len() && #[trigger] out[a] == t by {
            let c = choose|c: int| 0 <= c < plan.len() && plan[c] == t;
            if c < front.len() {
                assert(front[c] == t);
                assert(front.contains(t));
                let a = choose|a: int| 0 <= a < rest.len() && #[trigger] rest[a] == t;
                assert(out[a] == t);
            } else {
                assert(out[out.len() - 1] == t);
            }
        }
    }
}

/// The selected tests of an ascending plan are ascending.
proof fn lemma_selected_ascending(plan: Seq<PlannedTest>, filter: NameFilter)
    requires
        ascending(plan),
    ensures
        ascending(selected(plan, filter)),
    decreases plan.len(),
{
    let out = selected(plan, filter);
    if plan.len() > 0 {
        let front = plan.drop_last();
        let rest = selected(front, filter);
        assert(ascending(front)) by {
            assert forall|i: int, j: int| 0 <= i < j < front.len() implies name_before(
                (#[trigger] front[i]).name@,
                (#[trigger] front[j]).name@,
            ) by {
                assert(name_before(plan[i].name@, plan[j].name@));
            }
        }
        lemma_selected_ascending(front, filter);
        lemma_selected_members(front, filter);
        assert forall|i: int, j: int| 0 <= i < j < out.len() implies name_before(
            (#[trigger] out[i]).name@,
            (#[trigger] out[j]).name@,
        ) by {
            if j < rest.len() {
                assert(out[i] == rest[i] && out[j] == rest[j]);
            } else {
                assert(out[i] == rest[i]);
                let c = choose|c: int| 0 <= c < front.len() && #[trigger] front[c] == rest[i];
                assert(name_before(plan[c].name@, plan[plan.len() - 1].name@));
            }
        }
    }
}

/// The selected tests of the plan of a whole suite are the plan of the
/// suite under the filter.
proof fn lemma_selected_is_plan(
    full: Seq<PlannedTest>,
    entries: Seq<TestEntry>,
    d: u32,
    filter: NameFilter,
)
    requires
        ascending(full),
        drawn_from(full, entries, d),
        covers(full, entries, d, NameFilter::All),
    ensures
        is_plan_of(selected(full, filter), entries, d, filter),
{
    let out = selected(full, filter);
    lemma_selected_ascending(full, filter);
    lemma_selected_members(full, filter);
    assert forall|a: int| 0 <= a < out.len() implies exists|b: int|
        0 <= b < entries.len() && planned_from(#[trigger] out[a], entries[b], d) by {
        let c = choose|c: int| 0 <= c < full.len() && #[trigger] full[c] == out[a];
        let b = choose|b: int| 0 <= b < entries.len() && planned_from(full[c], entries[b], d);
        assert(planned_from(out[a], entries[b], d));
    }
    assert forall|e: TestEntry| #[trigger]
        entries.contains(e) && filter.selects(e.name@) implies exists|a: int|
        0 <= a < out.len() && planned_from(#[trigger] out[a], e, d) by {
        assert(NameFilter::All.selects(e.name@));
        let c = choose|c: int| 0 <= c < full.len() && planned_from(#[trigger] full[c], e, d);
        assert(filter.selects(full[c].name@));
        assert(full.contains(full[c]));
        let a = choose|a: int| 0 <= a < out.len() && #[trigger] out[a] == full[c];
        assert(planned_from(out[a], e, d));
    }
}

/// The plan of the suite `entries` under `filter`.
///
/// Refused with the first of these that holds: a test has the empty name, a
/// test's width is not one that a subnet can have, two tests share a name.
pub fn plan_tests(entries: &Vec<TestEntry>, suite_default: u32, filter: &NameFilter) -> (r: Result<
    Vec<PlannedTest>,
    SuiteError,
>)
    ensures
        r matches Ok(plan) ==> suite_error(entries@, suite_default) is None && is_plan_of(
            plan@,
            entries@,
            suite_default,
            *filter,
        ),
        r matches Err(e) ==> suite_error(entries@, suite_default) == Some(e),
{
    let mut k: usize = 0;
    while k < entries.len()
        invariant
            k <= entries.len(),
            forall|i: int| 0 <= i < k ==> (#[trigger] entries@[i]).name@.len() != 0,
        decreases entries.len() - k,
    {
        if entries[k].name.as_str().is_empty() {
            assert(entries@[k as int].name@.len() == 0);
            return Err(SuiteError::EmptyTestName);
        }
        k = k + 1;
    }
    k = 0;
    while k < entries.len()
        invariant
            k <= entries.len(),
            !has_empty_name(entries@),
            forall|i: int|
                0 <= i < k ==> 0 < width_of(#[trigger] entries@[i], suite_default)
                    <= MAX_WIDTH_BITS,
        decreases entries.len() - k,
    {
        let width = effective_width(entries[k].width_bits, suite_default);
        if width == 0 || width > MAX_WIDTH_BITS {
            assert(!(0 < width_of(entries@[k as int], suite_default) <= MAX_WIDTH_BITS));
            return Err(SuiteError::InvalidWidth);
        }
        k = k + 1;
    }
    let sorted = sort_entries(entries, suite_default)?;
    let mut plan: Vec<PlannedTest> = Vec::new();
    k = 0;
    assert(sorted@.take(0) =~= Seq::<PlannedTest>::empty());
    while k < sorted.len()
        invariant
            k <= sorted.len(),
            plan@ == selected(sorted@.take(k as int), *filter),
        decreases sorted.len() - k,
    {
        let ghost upto = sorted@.take(k + 1);
        assert(upto.drop_last() =~= sorted@.take(k as int));
        assert(upto.last() == sorted@[k as int]);
        if filter.accepts(sorted[k].name.as_str()) {
            plan.push(PlannedTest { name: sorted[k].name.clone(), width_bits: sorted[k].width_bits });
        }
        k = k + 1;
    }
    proof {
        assert(sorted@.take(k as int) =~= sorted@);
        lemma_selected_is_plan(sorted@, entries@, suite_default, *filter);
    }
    Ok(plan)
}

/// The tests of `entries` in the order of their names, unless two of them
/// share a name.
fn sort_entries(entries: &Vec<TestEntry>, suite_default: u32) -> (r: Result<
    Vec<PlannedTest>,
    SuiteError,
>)
    ensures
        r matches Ok(sorted) ==> !has_duplicate_name(entries@) && ascending(sorted@) && drawn_from(
            sorted@,
            entries@,
            suite_default,
        ) && covers(sorted@, entries@, suite_default, NameFilter::All),
        r matches Err(e) ==> e == SuiteError::DuplicateTestName && has_duplicate_name(entries@),
{
    let mut sorted: Vec<PlannedTest> = Vec::new();
    let mut k: usize = 0;
    while k < entries.len()
        invariant
            k <= entries.len(),
            ascending(sorted@),
            drawn_from(sorted@, entries@.take(k as int), suite_default),
            covers(sorted@, entries@.take(k as int), suite_default, NameFilter::All),
            !has_duplicate_name(entries@.take(k as int)),
        decreases entries.len() - k,
    {
        let ghost seen = entries@.take(k as int);
        let name = &entries[k].name;
        let mut pos: usize = 0;
        let mut searching = true;
        while searching && pos < sorted.len()
            invariant
                pos <= sorted.len(),
                k < entries.len(),
                *name == entries@[k as int].name,
                seen == entries@.take(k as int),
                drawn_from(sorted@, seen, suite_default),
                forall|a: int|
                    0 <= a < pos ==> name_before((#[trigger] sorted@[a]).name@, name@),
                !searching ==> pos < sorted.len() && name_before(name@, sorted@[pos as int].name@),
            decreases
                    sorted.len() - pos + (if searching {
                        1int
                    } else {
                        0int
                    }),
        {
            match compare_names(name.as_str(), sorted[pos].name.as_str()) {
                NameOrder::Before => {
                    searching = false;
                },
                NameOrder::Same => {
                    proof {
                        let b = choose|b: int|
                            0 <= b < seen.len() && planned_from(
                                sorted@[pos as int],
                                seen[b],
                                suite_default,
                            );
                        assert(seen[b] == entries@[b]);
                        assert(entries@[b].name@ == entries@[k as int].name@);
                    }
                    return Err(SuiteError::DuplicateTestName);
                },
                NameOrder::After => {
                    pos = pos + 1;
                },
            }
        }
        let item = PlannedTest {
            name: name.clone(),
            width_bits: effective_width(entries[k].width_bits, suite_default),
        };
        let ghost before = sorted@;
        sorted.insert(pos, item);
        proof {
            let p = pos as int;
            let entry = entries@[k as int];
            assert(entries@.take(k + 1) =~= seen.push(entry));
            lemma_insert_keeps_ascending(before, p, item);
            lemma_insert_drawn(before, seen, p, item, entry, suite_default);
            lemma_insert_covers(before, seen, p, item, entry, suite_default);
            lemma_placed_name_is_new(before, seen, p, item.name@, suite_default);
            lemma_push_keeps_distinct(seen, entry);
        }
        k = k + 1;
    }
    assert(entries@.take(k as int) =~= entries@);
    Ok(sorted)
}

/// A plan names no test twice.
pub proof fn lemma_plan_names_distinct(plan: Seq<PlannedTest>, i: int, j: int)
    requires
        ascending(plan),
        0 <= i < plan.len(),
        0 <= j < plan.len(),
        i != j,
    ensures
        plan[i].name@ != plan[j].name@,
{
    if i < j {
        crate::text::lemma_names_exclusive(plan[i].name@, plan[j].name@);
    } else {
        crate::text::lemma_names_exclusive(plan[j].name@, plan[i].name@);
    }
}

} // verus!
