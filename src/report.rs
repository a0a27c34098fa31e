use vstd::prelude::*;
use crate::buffer::WriteBuffer;
use crate::error::BuildError;
use crate::model::Test;
use crate::naming::{decimal, push_decimal};
use crate::reconcile::{TestFailure, check_results, counts_agree, outcome, subtest_failure};

verus! {

/// The outcome of one pairing: the test that ran and one verdict per
/// subtest, in order.
#[derive(Debug)]
pub struct TestReport {
    pub test: Test,
    pub results: Vec<Result<(), TestFailure>>,
}

/// Finalizes the four buffers of a run of `test` (dropping each pending
/// function) and reconciles them. The run fails as a whole when a buffer does
/// not hold one frame per subtest; otherwise each subtest gets its verdict.
pub fn run_report(
    test: Test,
    caller_inputs: WriteBuffer,
    caller_outputs: WriteBuffer,
    callee_inputs: WriteBuffer,
    callee_outputs: WriteBuffer,
) -> (r: Result<TestReport, BuildError>)
    ensures
        r is Ok <==> counts_agree(
            test.funcs@.len(),
            caller_inputs@.drop_last(),
            caller_outputs@.drop_last(),
            callee_inputs@.drop_last(),
            callee_outputs@.drop_last(),
        ),
        r is Err ==> r == Err::<TestReport, BuildError>(
            BuildError::TestCountMismatch(
                test.funcs.len(),
                (caller_inputs@.len() - 1) as usize,
                (caller_outputs@.len() - 1) as usize,
                (callee_inputs@.len() - 1) as usize,
                (callee_outputs@.len() - 1) as usize,
            ),
        ),
        r is Ok ==> r->Ok_0.test.view() == test.view(),
        r is Ok ==> r->Ok_0.results@.len() == test.funcs@.len(),
        r is Ok ==> forall|i: int|
            0 <= i < test.funcs@.len() ==> #[trigger] outcome(r->Ok_0.results@[i])
                == subtest_failure(
                i as nat,
                caller_inputs@[i],
                caller_outputs@[i],
                callee_inputs@[i],
                callee_outputs@[i],
            ),
{
    let ci = caller_inputs.finish_tests();
    let co = caller_outputs.finish_tests();
    let ki = callee_inputs.finish_tests();
    let ko = callee_outputs.finish_tests();
    assert(ci.deep_view().len() == ci@.len());
    assert(co.deep_view().len() == co@.len());
    assert(ki.deep_view().len() == ki@.len());
    assert(ko.deep_view().len() == ko@.len());
    match check_results(test.funcs.len(), &ci, &co, &ki, &ko) {
        Ok(results) => Ok(TestReport { test, results }),
        Err(e) => Err(e),
    }
}

/// How many verdicts are passes.
pub open spec fn passed_count(s: Seq<Result<(), TestFailure>>) -> nat
    decreases s.len(),
{
    if s.len() == 0 {
        0
    } else {
        passed_count(s.drop_last()) + if s.last() is Ok { 1nat } else { 0nat }
    }
}

proof fn lemma_passed_count_bound(s: Seq<Result<(), TestFailure>>)
    ensures
        passed_count(s) <= s.len(),
    decreases s.len(),
{
    if s.len() > 0 {
        lemma_passed_count_bound(s.drop_last());
    }
}

/// Counts the subtests that passed.
pub fn count_passed(results: &Vec<Result<(), TestFailure>>) -> (r: usize)
    ensures
        r == passed_count(results@),
        r <= results@.len(),
{
    let mut n: usize = 0;
    let mut i: usize = 0;
    while i < results.len()
        invariant
            i <= results@.len(),
            n == passed_count(results@.take(i as int)),
            n <= i,
        decreases results@.len() - i,
    {
        assert(results@.take(i + 1).drop_last() =~= results@.take(i as int));
        if results[i].is_ok() {
            n = n + 1;
        }
        i = i + 1;
    }
    assert(results@.take(i as int) =~= results@);
    n
}

/// Running totals over all pairings: subtests passed, subtests failed, and
/// pairings that failed completely.
pub struct Totals {
    pub passed: usize,
    pub failed: usize,
    pub completely_failed: usize,
}

impl Totals {
    pub fn new() -> (r: Totals)
        ensures
            r.passed == 0 && r.failed == 0 && r.completely_failed == 0,
    {
        Totals { passed: 0, failed: 0, completely_failed: 0 }
    }

    /// Adds one pairing's outcome: its passed and failed subtests, or one
    /// complete failure.
    pub fn record(&mut self, report: &Result<TestReport, BuildError>)
        requires
            old(self).passed + old(self).failed + old(self).completely_failed + match report {
                Ok(t) => t.results@.len(),
                Err(_) => 1,
            } <= usize::MAX,
        ensures
            match report {
                Ok(t) => final(self).passed == old(self).passed + passed_count(t.results@)
                    && final(self).failed == old(self).failed + t.results@.len() - passed_count(
                    t.results@,
                ) && final(self).completely_failed == old(self).completely_failed,
                Err(_) => final(self).passed == old(self).passed && final(self).failed == old(
                    self,
                ).failed && final(self).completely_failed == old(self).completely_failed + 1,
            },
    {
        match report {
            Ok(t) => {
                let p = count_passed(&t.results);
                self.passed = self.passed + p;
                self.failed = self.failed + (t.results.len() - p);
            },
            Err(_) => {
                self.completely_failed = self.completely_failed + 1;
            },
        }
    }

    /// The closing line of a run:
    /// `total: <P> passed, <F> failed, <T> completely failed`.
    pub fn summary_line(&self) -> (r: String)
        ensures
            r@ == "total: "@ + decimal(self.passed as nat) + " passed, "@ + decimal(
                self.failed as nat,
            ) + " failed, "@ + decimal(self.completely_failed as nat) + " completely failed"@,
    {
        let mut s = String::from_str("total: ");
        push_decimal(&mut s, self.passed);
        s.append(" passed, ");
        push_decimal(&mut s, self.failed);
        s.append(" failed, ");
        push_decimal(&mut s, self.completely_failed);
        s.append(" completely failed");
        s
    }
}

} // verus!
