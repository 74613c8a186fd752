use super::models::TestMemory;
use crate::gba::cpu::CPU;
use crate::utils::text::{hex8_digits, padded_hex_string};
use std::collections::HashMap;
use vstd::prelude::*;

verus! {

broadcast use vstd::std_specs::hash::group_hash_axioms;

/// A value that differs between the expected and the actual run.
#[derive(Debug, PartialEq, Eq, Structural, Clone, Copy)]
pub struct Difference {
    pub actual: u32,
    pub expected: u32,
}

impl Difference {
    pub fn new(expected: u32, actual: u32) -> (r: Self)
        ensures
            r == (Difference { actual, expected }),
    {
        Self { actual, expected }
    }
}

/// Where an instruction test went wrong: its opcode, and for each group of registers the
/// differences by register index.
#[derive(Debug)]
pub struct TestError {
    pub opcode: String,
    pub instruction_address: Option<Difference>,
    pub register: Option<HashMap<usize, Difference>>,
    pub fiq: Option<HashMap<usize, Difference>>,
    pub svc: Option<HashMap<usize, Difference>>,
    pub abt: Option<HashMap<usize, Difference>>,
    pub irq: Option<HashMap<usize, Difference>>,
    pub und: Option<HashMap<usize, Difference>>,
    pub cpsr: Option<Difference>,
    pub spsr: Option<HashMap<usize, Difference>>,
    pub mem: Option<TestMemory>,
}

/// A test error as plain values.
pub struct TestErrorView {
    pub opcode: Seq<char>,
    pub instruction_address: Option<Difference>,
    pub register: Option<Map<usize, Difference>>,
    pub fiq: Option<Map<usize, Difference>>,
    pub svc: Option<Map<usize, Difference>>,
    pub abt: Option<Map<usize, Difference>>,
    pub irq: Option<Map<usize, Difference>>,
    pub und: Option<Map<usize, Difference>>,
    pub cpsr: Option<Difference>,
    pub spsr: Option<Map<usize, Difference>>,
    pub mem: Option<Map<usize, u32>>,
}

pub open spec fn table_view(t: Option<HashMap<usize, Difference>>) -> Option<Map<usize, Difference>> {
    match t {
        Some(m) => Some(m@),
        None => None,
    }
}

impl View for TestError {
    type V = TestErrorView;

    open spec fn view(&self) -> TestErrorView {
        TestErrorView {
            opcode: self.opcode@,
            instruction_address: self.instruction_address,
            register: table_view(self.register),
            fiq: table_view(self.fiq),
            svc: table_view(self.svc),
            abt: table_view(self.abt),
            irq: table_view(self.irq),
            und: table_view(self.und),
            cpsr: self.cpsr,
            spsr: table_view(self.spsr),
            mem: match self.mem {
                Some(m) => Some(m@),
                None => None,
            },
        }
    }
}

/// A table of differences with one more entry, started when there was none.
pub open spec fn with_entry(t: Option<Map<usize, Difference>>, idx: usize, diff: Difference) -> Option<
    Map<usize, Difference>,
> {
    Some(t.unwrap_or(Map::empty()).insert(idx, diff))
}

/// The differences between the registers of two runs, by index; each records the expected
/// run's value as `actual` and the actual run's value as `expected`.
pub open spec fn differences(actual: Seq<u32>, expected: Seq<u32>) -> Map<usize, Difference> {
    Map::new(
        |i: usize| i < actual.len() && actual[i as int] != expected[i as int],
        |i: usize| Difference { actual: expected[i as int], expected: actual[i as int] },
    )
}

/// A table after recording the differences between two runs; untouched when they agree.
pub open spec fn with_differences(
    t: Option<Map<usize, Difference>>,
    actual: Seq<u32>,
    expected: Seq<u32>,
) -> Option<Map<usize, Difference>> {
    if exists|i: int| 0 <= i < actual.len() && #[trigger] actual[i] != expected[i] {
        Some(t.unwrap_or(Map::empty()).union_prefer_right(differences(actual, expected)))
    } else {
        t
    }
}

fn insert_difference(table: &mut Option<HashMap<usize, Difference>>, idx: usize, diff: Difference)
    ensures
        table_view(*final(table)) == with_entry(table_view(*old(table)), idx, diff),
{
    if table.is_none() {
        *table = Some(HashMap::new());
    }
    let m = table.as_mut().unwrap();
    m.insert(idx, diff);
    assert(table_view(*table) =~~= with_entry(table_view(*old(table)), idx, diff));
}

fn record_differences(table: &mut Option<HashMap<usize, Difference>>, actual: &[u32], expected: &[u32])
    requires
        actual.len() == expected.len(),
    ensures
        table_view(*final(table)) == with_differences(table_view(*old(table)), actual@, expected@),
{
    let ghost start = table_view(*table);
    let mut idx: usize = 0;
    while idx < actual.len()
        invariant
            actual.len() == expected.len(),
            idx <= actual.len(),
            table_view(*table) == with_differences(
                start,
                actual@.take(idx as int),
                expected@.take(idx as int),
            ),
        decreases actual.len() - idx,
    {
        let a = actual[idx];
        let e = expected[idx];
        let ghost prev_a = actual@.take(idx as int);
        let ghost prev_e = expected@.take(idx as int);
        let ghost next_a = actual@.take(idx as int + 1);
        let ghost next_e = expected@.take(idx as int + 1);
        if a != e {
            insert_difference(table, idx, Difference::new(a, e));
            proof {
                assert(next_a[idx as int] != next_e[idx as int]);
                let base = start.unwrap_or(Map::empty());
                if !(exists|i: int| 0 <= i < prev_a.len() && #[trigger] prev_a[i] != prev_e[i]) {
                    assert(differences(prev_a, prev_e) =~= Map::empty());
                    assert(base.union_prefer_right(differences(prev_a, prev_e)) =~= base);
                }
                assert(base.union_prefer_right(differences(prev_a, prev_e)).insert(
                    idx,
                    Difference { actual: e, expected: a },
                ) =~= base.union_prefer_right(differences(next_a, next_e)));
            }
        } else {
            proof {
                assert(differences(prev_a, prev_e) =~= differences(next_a, next_e));
                if exists|i: int| 0 <= i < next_a.len() && #[trigger] next_a[i] != next_e[i] {
                    let i = choose|i: int| 0 <= i < next_a.len() && #[trigger] next_a[i] != next_e[i];
                    assert(prev_a[i] != prev_e[i]);
                }
            }
        }
        idx += 1;
    }
    assert(actual@.take(idx as int) =~= actual@);
    assert(expected@.take(idx as int) =~= expected@);
}

impl TestError {
    /// A report for `opcode` with no difference recorded yet; the opcode is kept as `0x` and
    /// eight hexadecimal digits.
    pub fn new(opcode: u32) -> (r: Self)
        ensures
            r@.opcode == "0x"@ + hex8_digits(opcode),
            r@.instruction_address is None,
            r@.register is None,
            r@.fiq is None,
            r@.svc is None,
            r@.abt is None,
            r@.irq is None,
            r@.und is None,
            r@.cpsr is None,
            r@.spsr is None,
            r@.mem is None,
    {
        let opcode = padded_hex_string(opcode);
        TestError {
            opcode,
            instruction_address: None,
            register: None,
            fiq: None,
            svc: None,
            abt: None,
            irq: None,
            und: None,
            cpsr: None,
            spsr: None,
            mem: None,
        }
    }

    /// Records how `actual` differs from `expected`: the status word and the instruction
    /// address both land in the status difference (the address overwriting it), and every
    /// differing register of each bank in that bank's table.
    pub fn apply_differences(self, expected: CPU, actual: CPU) -> (r: Self)
        ensures
            r@.opcode == self@.opcode,
            r@.instruction_address == self@.instruction_address,
            r@.mem == self@.mem,
            r@.cpsr == (if expected.inst_addr != actual.inst_addr {
                Some(Difference { actual: expected.inst_addr as u32, expected: actual.inst_addr as u32 })
            } else if expected.cpsr != actual.cpsr {
                Some(Difference { actual: expected.cpsr, expected: actual.cpsr })
            } else {
                self@.cpsr
            }),
            r@.register == with_differences(self@.register, actual.registers@, expected.registers@),
            r@.fiq == with_differences(self@.fiq, actual.fiq_banked_gen_regs@, expected.fiq_banked_gen_regs@),
            r@.svc == with_differences(self@.svc, actual.svc_banked_regs@, expected.svc_banked_regs@),
            r@.abt == with_differences(self@.abt, actual.abt_banked_regs@, expected.abt_banked_regs@),
            r@.irq == with_differences(self@.irq, actual.irq_banked_regs@, expected.irq_banked_regs@),
            r@.und == with_differences(self@.und, actual.und_banked_regs@, expected.und_banked_regs@),
            r@.spsr == with_differences(self@.spsr, actual.psr@, expected.psr@),
    {
        let mut s = self;
        if expected.cpsr != actual.cpsr {
            s.add_cpsr_difference(Difference { actual: expected.cpsr, expected: actual.cpsr });
        }
        if expected.instruction_address() != actual.instruction_address() {
            s.add_cpsr_difference(
                Difference { actual: expected.inst_addr as u32, expected: actual.inst_addr as u32 },
            );
        }
        record_differences(&mut s.register, &actual.registers, &expected.registers);
        record_differences(&mut s.fiq, &actual.fiq_banked_gen_regs, &expected.fiq_banked_gen_regs);
        record_differences(&mut s.svc, &actual.svc_banked_regs, &expected.svc_banked_regs);
        record_differences(&mut s.abt, &actual.abt_banked_regs, &expected.abt_banked_regs);
        record_differences(&mut s.irq, &actual.irq_banked_regs, &expected.irq_banked_regs);
        record_differences(&mut s.und, &actual.und_banked_regs, &expected.und_banked_regs);
        record_differences(&mut s.spsr, &actual.psr, &expected.psr);
        s
    }

    /// Sets the status difference, replacing any earlier one.
    pub fn add_cpsr_difference(&mut self, diff: Difference)
        ensures
            final(self)@ == (TestErrorView { cpsr: Some(diff), ..old(self)@ }),
    {
        self.cpsr = Some(diff);
    }

    pub fn add_register_difference(&mut self, idx: usize, diff: Difference)
        ensures
            final(self)@ == (TestErrorView {
                register: with_entry(old(self)@.register, idx, diff),
                ..old(self)@
            }),
    {
        insert_difference(&mut self.register, idx, diff);
    }

    pub fn add_fiq_difference(&mut self, idx: usize, diff: Difference)
        ensures
            final(self)@ == (TestErrorView { fiq: with_entry(old(self)@.fiq, idx, diff), ..old(self)@ }),
    {
        insert_difference(&mut self.fiq, idx, diff);
    }

    pub fn add_svc_difference(&mut self, idx: usize, diff: Difference)
        ensures
            final(self)@ == (TestErrorView { svc: with_entry(old(self)@.svc, idx, diff), ..old(self)@ }),
    {
        insert_difference(&mut self.svc, idx, diff);
    }

    pub fn add_abt_difference(&mut self, idx: usize, diff: Difference)
        ensures
            final(self)@ == (TestErrorView { abt: with_entry(old(self)@.abt, idx, diff), ..old(self)@ }),
    {
        insert_difference(&mut self.abt, idx, diff);
    }

    pub fn add_irq_difference(&mut self, idx: usize, diff: Difference)
        ensures
            final(self)@ == (TestErrorView { irq: with_entry(old(self)@.irq, idx, diff), ..old(self)@ }),
    {
        insert_difference(&mut self.irq, idx, diff);
    }

    pub fn add_und_difference(&mut self, idx: usize, diff: Difference)
        ensures
            final(self)@ == (TestErrorView { und: with_entry(old(self)@.und, idx, diff), ..old(self)@ }),
    {
        insert_difference(&mut self.und, idx, diff);
    }

    pub fn add_spsr_difference(&mut self, idx: usize, diff: Difference)
        ensures
            final(self)@ == (TestErrorView { spsr: with_entry(old(self)@.spsr, idx, diff), ..old(self)@ }),
    {
        insert_difference(&mut self.spsr, idx, diff);
    }
}

/// The results of the tests of one file.
#[derive(Debug)]
pub struct SuiteReport {
    pub path: String,
    pub failed_tests: HashMap<usize, TestError>,
    pub total: usize,
    pub failed: usize,
    pub passed: usize,
    pub skipped: usize,
}

/// A suite report as plain values.
pub struct SuiteReportView {
    pub path: Seq<char>,
    pub failures: Map<usize, TestError>,
    pub total: usize,
    pub failed: usize,
    pub passed: usize,
    pub skipped: usize,
}

impl View for SuiteReport {
    type V = SuiteReportView;

    open spec fn view(&self) -> SuiteReportView {
        SuiteReportView {
            path: self.path@,
            failures: self.failed_tests@,
            total: self.total,
            failed: self.failed,
            passed: self.passed,
            skipped: self.skipped,
        }
    }
}

/// The total counts exactly the passed and the failed tests.
pub open spec fn counts_agree(v: SuiteReportView) -> bool {
    v.total == v.passed + v.failed
}

/// Every way of counting a test keeps the total equal to the passed and failed tests.
pub proof fn lemma_counts_agree(v: SuiteReportView, idx: usize, e: TestError)
    requires
        counts_agree(v),
        v.total < usize::MAX,
        v.passed < usize::MAX,
        v.failed < usize::MAX,
        v.skipped < usize::MAX,
    ensures
        counts_agree(SuiteReportView { total: (v.total + 1) as usize, passed: (v.passed + 1) as usize, ..v }),
        counts_agree(SuiteReportView { skipped: (v.skipped + 1) as usize, ..v }),
        counts_agree(
            SuiteReportView {
                failures: v.failures.insert(idx, e),
                total: (v.total + 1) as usize,
                failed: (v.failed + 1) as usize,
                ..v
            },
        ),
{
}

impl SuiteReport {
    pub fn new(path: String) -> (r: Self)
        ensures
            r@ == (SuiteReportView {
                path: path@,
                failures: Map::empty(),
                total: 0,
                failed: 0,
                passed: 0,
                skipped: 0,
            }),
    {
        let r = SuiteReport {
            path,
            failed_tests: HashMap::new(),
            total: 0,
            failed: 0,
            passed: 0,
            skipped: 0,
        };
        assert(r@.failures =~= Map::empty());
        r
    }

    /// Counts a passed test.
    pub fn add_success(&mut self)
        requires
            old(self)@.total < usize::MAX,
            old(self)@.passed < usize::MAX,
        ensures
            final(self)@ == (SuiteReportView {
                total: (old(self)@.total + 1) as usize,
                passed: (old(self)@.passed + 1) as usize,
                ..old(self)@
            }),
    {
        self.total += 1;
        self.passed += 1;
    }

    /// Counts a test that could not be run; skipped tests are not in the total.
    pub fn add_skipped(&mut self)
        requires
            old(self)@.skipped < usize::MAX,
        ensures
            final(self)@ == (SuiteReportView {
                skipped: (old(self)@.skipped + 1) as usize,
                ..old(self)@
            }),
    {
        self.skipped += 1;
    }

    /// Counts a failed test and keeps its error under its index, replacing an earlier one.
    pub fn add_failed(&mut self, idx: usize, e: TestError)
        requires
            old(self)@.total < usize::MAX,
            old(self)@.failed < usize::MAX,
        ensures
            final(self)@ == (SuiteReportView {
                failures: old(self)@.failures.insert(idx, e),
                total: (old(self)@.total + 1) as usize,
                failed: (old(self)@.failed + 1) as usize,
                ..old(self)@
            }),
    {
        self.failed_tests.insert(idx, e);
        self.total += 1;
        self.failed += 1;
    }
}

} // verus!
