use vstd::prelude::*;
use crate::buffer::Frames;
use crate::error::BuildError;

verus! {

/// How one subtest failed: the first disagreement between the caller's and
/// the callee's observations.
#[derive(Debug)]
pub enum TestFailure {
    /// Subtest, input value and field whose bytes differ, then both byte strings.
    InputFieldMismatch(usize, usize, usize, Vec<u8>, Vec<u8>),
    /// Subtest, output value and field whose bytes differ, then both byte strings.
    OutputFieldMismatch(usize, usize, usize, Vec<u8>, Vec<u8>),
    /// Subtest and input value whose field counts differ, then both values.
    InputFieldCountMismatch(usize, usize, Vec<Vec<u8>>, Vec<Vec<u8>>),
    /// Subtest and output value whose field counts differ, then both values.
    OutputFieldCountMismatch(usize, usize, Vec<Vec<u8>>, Vec<Vec<u8>>),
    /// Subtest whose input counts differ, then both input lists.
    InputCountMismatch(usize, Vec<Vec<Vec<u8>>>, Vec<Vec<Vec<u8>>>),
    /// Subtest whose output counts differ, then both output lists.
    OutputCountMismatch(usize, Vec<Vec<Vec<u8>>>, Vec<Vec<Vec<u8>>>),
}

/// A failure as mathematical values; `input` tells inputs from outputs.
#[allow(inconsistent_fields)]
pub enum Failure {
    /// A field's bytes differ.
    FieldMismatch { input: bool, func: nat, val: nat, field: nat, caller: Seq<u8>, callee: Seq<u8> },
    /// A value's field counts differ.
    FieldCountMismatch { input: bool, func: nat, val: nat, caller: Seq<Seq<u8>>, callee: Seq<Seq<u8>> },
    /// The value counts differ.
    CountMismatch { input: bool, func: nat, caller: Seq<Seq<Seq<u8>>>, callee: Seq<Seq<Seq<u8>>> },
}

impl TestFailure {
    /// The failure as mathematical values.
    pub open spec fn view(&self) -> Failure {
        match self {
            TestFailure::InputFieldMismatch(f, v, k, a, b) => Failure::FieldMismatch {
                input: true, func: *f as nat, val: *v as nat, field: *k as nat, caller: a@, callee: b@,
            },
            TestFailure::OutputFieldMismatch(f, v, k, a, b) => Failure::FieldMismatch {
                input: false, func: *f as nat, val: *v as nat, field: *k as nat, caller: a@, callee: b@,
            },
            TestFailure::InputFieldCountMismatch(f, v, a, b) => Failure::FieldCountMismatch {
                input: true, func: *f as nat, val: *v as nat, caller: a.deep_view(), callee: b.deep_view(),
            },
            TestFailure::OutputFieldCountMismatch(f, v, a, b) => Failure::FieldCountMismatch {
                input: false, func: *f as nat, val: *v as nat, caller: a.deep_view(), callee: b.deep_view(),
            },
            TestFailure::InputCountMismatch(f, a, b) => Failure::CountMismatch {
                input: true, func: *f as nat, caller: a.deep_view(), callee: b.deep_view(),
            },
            TestFailure::OutputCountMismatch(f, a, b) => Failure::CountMismatch {
                input: false, func: *f as nat, caller: a.deep_view(), callee: b.deep_view(),
            },
        }
    }
}

/// The outcome of one subtest as a mathematical value: `None` when it passed.
pub open spec fn outcome(r: Result<(), TestFailure>) -> Option<Failure> {
    match r {
        Ok(_) => None,
        Err(f) => Some(f.view()),
    }
}

/// An optional failure as a mathematical value.
pub open spec fn failure_view(r: Option<TestFailure>) -> Option<Failure> {
    match r {
        Some(f) => Some(f.view()),
        None => None,
    }
}

/// The first field, from index `k` on, whose bytes differ between the two
/// sides' views of one value.
pub open spec fn field_failure(
    input: bool,
    func: nat,
    val: nat,
    c: Seq<Seq<u8>>,
    d: Seq<Seq<u8>>,
    k: nat,
) -> Option<Failure>
    decreases c.len() - k,
{
    if k >= c.len() {
        None
    } else if c[k as int] != d[k as int] {
        Some(
            Failure::FieldMismatch {
                input, func, val, field: k, caller: c[k as int], callee: d[k as int],
            },
        )
    } else {
        field_failure(input, func, val, c, d, k + 1)
    }
}

/// The first disagreement, from value `j` on, between the two sides' views of
/// a function's inputs (or outputs): a field count, else a field's bytes.
pub open spec fn value_failure(
    input: bool,
    func: nat,
    c: Seq<Seq<Seq<u8>>>,
    d: Seq<Seq<Seq<u8>>>,
    j: nat,
) -> Option<Failure>
    decreases c.len() - j,
{
    if j >= c.len() {
        None
    } else if c[j as int].len() != d[j as int].len() {
        Some(
            Failure::FieldCountMismatch {
                input, func, val: j, caller: c[j as int], callee: d[j as int],
            },
        )
    } else {
        match field_failure(input, func, j, c[j as int], d[j as int], 0) {
            Some(f) => Some(f),
            None => value_failure(input, func, c, d, j + 1),
        }
    }
}

/// The first disagreement on one side of a function (inputs when `input`).
pub open spec fn side_failure(
    input: bool,
    func: nat,
    c: Seq<Seq<Seq<u8>>>,
    d: Seq<Seq<Seq<u8>>>,
) -> Option<Failure> {
    if c.len() != d.len() {
        Some(Failure::CountMismatch { input, func, caller: c, callee: d })
    } else {
        value_failure(input, func, c, d, 0)
    }
}

/// The verdict on subtest `func`, from the caller's and the callee's inputs and
/// outputs: value counts first, then inputs value by value, then outputs.
pub open spec fn subtest_failure(
    func: nat,
    ci: Seq<Seq<Seq<u8>>>,
    co: Seq<Seq<Seq<u8>>>,
    ki: Seq<Seq<Seq<u8>>>,
    ko: Seq<Seq<Seq<u8>>>,
) -> Option<Failure> {
    if ci.len() != ki.len() {
        Some(Failure::CountMismatch { input: true, func, caller: ci, callee: ki })
    } else if co.len() != ko.len() {
        Some(Failure::CountMismatch { input: false, func, caller: co, callee: ko })
    } else {
        match value_failure(true, func, ci, ki, 0) {
            Some(f) => Some(f),
            None => value_failure(false, func, co, ko, 0),
        }
    }
}

fn bytes_equal(a: &Vec<u8>, b: &Vec<u8>) -> (r: bool)
    ensures
        r == (a@ == b@),
{
    if a.len() != b.len() {
        return false;
    }
    let mut i: usize = 0;
    while i < a.len()
        invariant
            a@.len() == b@.len(),
            i <= a@.len(),
            a@.subrange(0, i as int) == b@.subrange(0, i as int),
        decreases a@.len() - i,
    {
        if a[i] != b[i] {
            assert(a@[i as int] != b@[i as int]);
            return false;
        }
        assert(a@.subrange(0, i + 1) =~= a@.subrange(0, i as int).push(a@[i as int]));
        assert(b@.subrange(0, i + 1) =~= b@.subrange(0, i as int).push(b@[i as int]));
        i = i + 1;
    }
    assert(a@ =~= a@.subrange(0, i as int));
    assert(b@ =~= b@.subrange(0, i as int));
    true
}


fn copy_value(v: &Vec<Vec<u8>>) -> (r: Vec<Vec<u8>>)
    ensures
        r.deep_view() == v.deep_view(),
{
    let r = v.clone();
    assert(r.deep_view() =~~= v.deep_view());
    r
}

fn copy_values(v: &Vec<Vec<Vec<u8>>>) -> (r: Vec<Vec<Vec<u8>>>)
    ensures
        r.deep_view() == v.deep_view(),
{
    let r = v.clone();
    assert(r.deep_view() =~~= v.deep_view());
    r
}

fn check_fields(input: bool, func: usize, val: usize, c: &Vec<Vec<u8>>, d: &Vec<Vec<u8>>) -> (r:
    Option<TestFailure>)
    requires
        c@.len() == d@.len(),
    ensures
        failure_view(r) == field_failure(
            input,
            func as nat,
            val as nat,
            c.deep_view(),
            d.deep_view(),
            0,
        ),
{
    let ghost cv = c.deep_view();
    let ghost dv = d.deep_view();
    let mut k: usize = 0;
    while k < c.len()
        invariant
            c@.len() == d@.len(),
            cv == c.deep_view(),
            dv == d.deep_view(),
            k <= c@.len(),
            field_failure(input, func as nat, val as nat, cv, dv, 0) == field_failure(
                input,
                func as nat,
                val as nat,
                cv,
                dv,
                k as nat,
            ),
        decreases c@.len() - k,
    {
        assert(cv[k as int] =~= c@[k as int]@);
        assert(dv[k as int] =~= d@[k as int]@);
        if !bytes_equal(&c[k], &d[k]) {
            let a = copy_value_bytes(&c[k]);
            let b = copy_value_bytes(&d[k]);
            if input {
                return Some(TestFailure::InputFieldMismatch(func, val, k, a, b));
            } else {
                return Some(TestFailure::OutputFieldMismatch(func, val, k, a, b));
            }
        }
        k = k + 1;
    }
    None
}

fn copy_value_bytes(v: &Vec<u8>) -> (r: Vec<u8>)
    ensures
        r@ == v@,
{
    let r = v.clone();
    assert(r@ =~= v@);
    r
}


fn check_values(input: bool, func: usize, c: &Vec<Vec<Vec<u8>>>, d: &Vec<Vec<Vec<u8>>>) -> (r:
    Option<TestFailure>)
    requires
        c@.len() == d@.len(),
    ensures
        failure_view(r) == value_failure(input, func as nat, c.deep_view(), d.deep_view(), 0),
{
    let ghost cv = c.deep_view();
    let ghost dv = d.deep_view();
    let mut j: usize = 0;
    while j < c.len()
        invariant
            c@.len() == d@.len(),
            cv == c.deep_view(),
            dv == d.deep_view(),
            j <= c@.len(),
            value_failure(input, func as nat, cv, dv, 0) == value_failure(
                input,
                func as nat,
                cv,
                dv,
                j as nat,
            ),
        decreases c@.len() - j,
    {
        assert(cv[j as int] == c@[j as int].deep_view());
        assert(dv[j as int] == d@[j as int].deep_view());
        if c[j].len() != d[j].len() {
            let a = copy_value(&c[j]);
            let b = copy_value(&d[j]);
            if input {
                return Some(TestFailure::InputFieldCountMismatch(func, j, a, b));
            } else {
                return Some(TestFailure::OutputFieldCountMismatch(func, j, a, b));
            }
        }
        let f = check_fields(input, func, j, &c[j], &d[j]);
        if f.is_some() {
            return f;
        }
        j = j + 1;
    }
    None
}

/// Reconciles one subtest: the caller's inputs and outputs against the
/// callee's, reporting the first disagreement.
pub fn check_subtest(
    func: usize,
    ci: &Vec<Vec<Vec<u8>>>,
    co: &Vec<Vec<Vec<u8>>>,
    ki: &Vec<Vec<Vec<u8>>>,
    ko: &Vec<Vec<Vec<u8>>>,
) -> (r: Result<(), TestFailure>)
    ensures
        outcome(r) == subtest_failure(
            func as nat,
            ci.deep_view(),
            co.deep_view(),
            ki.deep_view(),
            ko.deep_view(),
        ),
{
    if ci.len() != ki.len() {
        return Err(TestFailure::InputCountMismatch(func, copy_values(ci), copy_values(ki)));
    }
    if co.len() != ko.len() {
        return Err(TestFailure::OutputCountMismatch(func, copy_values(co), copy_values(ko)));
    }
    match check_values(true, func, ci, ki) {
        Some(f) => {
            return Err(f);
        },
        None => {},
    }
    match check_values(false, func, co, ko) {
        Some(f) => Err(f),
        None => Ok(()),
    }
}

/// Whether every buffer holds as many function frames as the test has subtests.
pub open spec fn counts_agree(
    expected: nat,
    ci: Frames,
    co: Frames,
    ki: Frames,
    ko: Frames,
) -> bool {
    ci.len() == expected && co.len() == expected && ki.len() == expected && ko.len() == expected
}

/// Reconciles the four finalized observation buffers of one run against a test
/// of `expected` subtests: a count mismatch fails the whole run, otherwise each
/// subtest gets its own verdict, in order.
pub fn check_results(
    expected: usize,
    ci: &Vec<Vec<Vec<Vec<u8>>>>,
    co: &Vec<Vec<Vec<Vec<u8>>>>,
    ki: &Vec<Vec<Vec<Vec<u8>>>>,
    ko: &Vec<Vec<Vec<Vec<u8>>>>,
) -> (r: Result<Vec<Result<(), TestFailure>>, BuildError>)
    ensures
        r is Ok <==> counts_agree(
            expected as nat,
            ci.deep_view(),
            co.deep_view(),
            ki.deep_view(),
            ko.deep_view(),
        ),
        r is Err ==> r == Err::<Vec<Result<(), TestFailure>>, BuildError>(
            BuildError::TestCountMismatch(expected, ci.len(), co.len(), ki.len(), ko.len()),
        ),
        r is Ok ==> r->Ok_0@.len() == expected,
        r is Ok ==> forall|i: int|
            0 <= i < expected ==> #[trigger] outcome(r->Ok_0@[i]) == subtest_failure(
                i as nat,
                ci.deep_view()[i],
                co.deep_view()[i],
                ki.deep_view()[i],
                ko.deep_view()[i],
            ),
{
    if ci.len() != expected || co.len() != expected || ki.len() != expected || ko.len()
        != expected {
        return Err(BuildError::TestCountMismatch(expected, ci.len(), co.len(), ki.len(), ko.len()));
    }
    let mut results: Vec<Result<(), TestFailure>> = Vec::new();
    let mut i: usize = 0;
    while i < expected
        invariant
            ci@.len() == expected && co@.len() == expected && ki@.len() == expected && ko@.len()
                == expected,
            i <= expected,
            results@.len() == i,
            forall|t: int|
                0 <= t < i ==> #[trigger] outcome(results@[t]) == subtest_failure(
                    t as nat,
                    ci.deep_view()[t],
                    co.deep_view()[t],
                    ki.deep_view()[t],
                    ko.deep_view()[t],
                ),
        decreases expected - i,
    {
        let r = check_subtest(i, &ci[i], &co[i], &ki[i], &ko[i]);
        results.push(r);
        i = i + 1;
    }
    Ok(results)
}


/// Whether two views of a function's inputs (or outputs) are framed alike: as
/// many values, and each value with as many fields.
pub open spec fn same_framing(c: Seq<Seq<Seq<u8>>>, d: Seq<Seq<Seq<u8>>>) -> bool {
    c.len() == d.len() && forall|j: int| 0 <= j < c.len() ==> #[trigger] c[j].len() == d[j].len()
}

/// Whether a verdict is a disagreement on framing: a value count or a field count.
pub open spec fn is_framing_failure(f: Option<Failure>) -> bool {
    match f {
        Some(Failure::CountMismatch { .. }) => true,
        Some(Failure::FieldCountMismatch { .. }) => true,
        _ => false,
    }
}

proof fn lemma_field_failure(input: bool, func: nat, val: nat, c: Seq<Seq<u8>>, d: Seq<Seq<u8>>, k: nat)
    requires
        c.len() == d.len(),
        k <= c.len(),
    ensures
        field_failure(input, func, val, c, d, k) is None <==> (forall|t: int|
            k <= t < c.len() ==> c[t] == d[t]),
        !is_framing_failure(field_failure(input, func, val, c, d, k)),
    decreases c.len() - k,
{
    if k < c.len() {
        lemma_field_failure(input, func, val, c, d, k + 1);
    }
}

proof fn lemma_value_failure(input: bool, func: nat, c: Seq<Seq<Seq<u8>>>, d: Seq<Seq<Seq<u8>>>, j: nat)
    requires
        c.len() == d.len(),
        j <= c.len(),
    ensures
        value_failure(input, func, c, d, j) is None <==> (forall|t: int|
            j <= t < c.len() ==> c[t] == d[t]),
        (forall|t: int| j <= t < c.len() ==> #[trigger] c[t].len() == d[t].len())
            ==> !is_framing_failure(value_failure(input, func, c, d, j)),
        !(value_failure(input, func, c, d, j) matches Some(Failure::CountMismatch { .. })),
    decreases c.len() - j,
{
    if j < c.len() {
        lemma_value_failure(input, func, c, d, j + 1);
        if c[j as int].len() == d[j as int].len() {
            lemma_field_failure(input, func, j, c[j as int], d[j as int], 0);
            if field_failure(input, func, j, c[j as int], d[j as int], 0) is None {
                assert(c[j as int] =~= d[j as int]);
            }
        }
    }
}

/// The check of one side of a subtest (its inputs, or its outputs) reports a
/// disagreement on framing exactly when the two views are framed differently,
/// and passes exactly when the two views are identical. So where two views
/// framed alike also agree on every byte, being framed alike and passing the
/// check are the same thing.
pub proof fn lemma_side_check_matches_framing(
    input: bool,
    func: nat,
    c: Seq<Seq<Seq<u8>>>,
    d: Seq<Seq<Seq<u8>>>,
)
    ensures
        same_framing(c, d) ==> !is_framing_failure(side_failure(input, func, c, d)),
        is_framing_failure(side_failure(input, func, c, d)) ==> !same_framing(c, d),
        side_failure(input, func, c, d) is None <==> c == d,
        side_failure(input, func, c, d) is None ==> same_framing(c, d),
        (same_framing(c, d) ==> c == d) ==> (same_framing(c, d) <==> side_failure(
            input,
            func,
            c,
            d,
        ) is None),
{
    if c.len() == d.len() {
        lemma_value_failure(input, func, c, d, 0);
        if value_failure(input, func, c, d, 0) is None {
            assert(c =~= d);
        }
    }
}

/// A subtest passes exactly when the caller and the callee observed identical
/// inputs and identical outputs; its verdict is the input check's unless the
/// inputs pass.
pub proof fn lemma_subtest_passes_iff_identical(
    func: nat,
    ci: Seq<Seq<Seq<u8>>>,
    co: Seq<Seq<Seq<u8>>>,
    ki: Seq<Seq<Seq<u8>>>,
    ko: Seq<Seq<Seq<u8>>>,
)
    ensures
        subtest_failure(func, ci, co, ki, ko) is None <==> (ci == ki && co == ko),
        side_failure(true, func, ci, ki) is Some && co.len() == ko.len() ==> subtest_failure(
            func,
            ci,
            co,
            ki,
            ko,
        ) == side_failure(true, func, ci, ki),
{
    lemma_side_check_matches_framing(true, func, ci, ki);
    lemma_side_check_matches_framing(false, func, co, ko);
}

} // verus!
