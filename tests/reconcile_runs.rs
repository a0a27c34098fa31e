use abi_checker::buffer::WriteBuffer;
use abi_checker::error::BuildError;
use abi_checker::model::{CallingConvention, FloatVal, Func, IntVal, Test, Val};
use abi_checker::reconcile::{check_results, check_subtest, TestFailure};
use abi_checker::report::{count_passed, run_report, TestReport, Totals};

fn one_func_test(name: &str, inputs: Vec<Val>, output: Option<Val>) -> Test {
    Test {
        name: name.to_string(),
        funcs: vec![Func {
            name: format!("{name}_func"),
            conventions: vec![CallingConvention::C],
            inputs,
            output,
        }],
    }
}

fn fresh4() -> (WriteBuffer, WriteBuffer, WriteBuffer, WriteBuffer) {
    (WriteBuffer::new(), WriteBuffer::new(), WriteBuffer::new(), WriteBuffer::new())
}

#[test]
fn i32_value_in_same_language_passes() {
    let test = one_func_test("i32", vec![Val::Int(IntVal::c_int32_t(0x1a2b3c4d))], None);
    let (mut ci, mut co, mut ki, mut ko) = fresh4();
    ci.write_field(0x1a2b3c4di32.to_le_bytes().to_vec());
    ci.finished_val();
    ci.finished_func();
    co.finished_func();
    ki.write_field(0x1a2b3c4di32.to_le_bytes().to_vec());
    ki.finished_val();
    ki.finished_func();
    ko.finished_func();
    let ci = ci.finish_tests();
    let ki = ki.finish_tests();
    assert_eq!(ci[0][0][0], vec![0x4d, 0x3c, 0x2b, 0x1a]);
    assert_eq!(ki[0][0][0], vec![0x4d, 0x3c, 0x2b, 0x1a]);
    let co = co.finish_tests();
    let ko = ko.finish_tests();
    let results = check_results(test.funcs.len(), &ci, &co, &ki, &ko).unwrap();
    assert_eq!(results.len(), 1);
    assert!(results[0].is_ok());
}

#[test]
fn i32_widened_by_caller_is_field_mismatch() {
    let test = one_func_test("i32", vec![Val::Int(IntVal::c_int32_t(0x1a2b3c4d))], None);
    let (mut ci, mut co, mut ki, mut ko) = fresh4();
    ci.write_field(0x1a2b3c4di64.to_le_bytes().to_vec());
    ci.finished_val();
    ci.finished_func();
    co.finished_func();
    ki.write_field(0x1a2b3c4di32.to_le_bytes().to_vec());
    ki.finished_val();
    ki.finished_func();
    ko.finished_func();
    let report = run_report(test, ci, co, ki, ko).unwrap();
    match &report.results[0] {
        Err(TestFailure::InputFieldMismatch(0, 0, 0, caller, callee)) => {
            assert_eq!(caller, &vec![0x4d, 0x3c, 0x2b, 0x1a, 0, 0, 0, 0]);
            assert_eq!(callee, &vec![0x4d, 0x3c, 0x2b, 0x1a]);
        }
        other => panic!("unexpected verdict {other:?}"),
    }
}

#[test]
fn ref_input_records_referent_bytes() {
    let test = one_func_test(
        "by_ref",
        vec![Val::Ref(Box::new(Val::Int(IntVal::c_int32_t(0x11223344))))],
        None,
    );
    let (mut ci, mut co, mut ki, mut ko) = fresh4();
    for b in [&mut ci, &mut ki] {
        b.write_field(0x11223344i32.to_le_bytes().to_vec());
        b.finished_val();
    }
    ci.finished_func();
    co.finished_func();
    ki.finished_func();
    ko.finished_func();
    let report = run_report(test, ci, co, ki, ko).unwrap();
    assert_eq!(report.results.len(), 1);
    assert!(report.results[0].is_ok());
}

#[test]
fn ref_input_field_bytes_are_four() {
    let mut b = WriteBuffer::new();
    b.write_field(0x11223344i32.to_le_bytes().to_vec());
    b.finished_val();
    b.finished_func();
    let frames = b.finish_tests();
    assert_eq!(frames, vec![vec![vec![vec![0x44, 0x33, 0x22, 0x11]]]]);
}

#[test]
fn f64_output_only() {
    let test = one_func_test("f64", vec![], Some(Val::Float(FloatVal::Double(3.5f64.to_bits()))));
    let (mut ci, mut co, mut ki, mut ko) = fresh4();
    co.write_field(3.5f64.to_le_bytes().to_vec());
    co.finished_val();
    ko.write_field(3.5f64.to_le_bytes().to_vec());
    ko.finished_val();
    ci.finished_func();
    co.finished_func();
    ki.finished_func();
    ko.finished_func();
    let ci = ci.finish_tests();
    let co = co.finish_tests();
    let ki = ki.finish_tests();
    let ko = ko.finish_tests();
    assert_eq!(co[0][0][0], 3.5f64.to_le_bytes().to_vec());
    assert_eq!(ko[0][0][0], 3.5f64.to_le_bytes().to_vec());
    assert!(ci[0].is_empty());
    assert!(ki[0].is_empty());
    let results = check_results(test.funcs.len(), &ci, &co, &ki, &ko).unwrap();
    assert!(results[0].is_ok());
}

#[test]
fn missing_frame_is_count_mismatch() {
    let test = one_func_test("i8", vec![Val::Int(IntVal::c_int8_t(1))], None);
    let (ci, co, ki, mut ko) = fresh4();
    ko.finished_func();
    match run_report(test, ci, co, ki, ko) {
        Err(BuildError::TestCountMismatch(1, 0, 0, 0, 1)) => {}
        other => panic!("unexpected outcome {:?}", other.map(|r: TestReport| r.results.len()).err().is_some()),
    }
}

#[test]
fn fresh_buffer_finalizes_empty() {
    let b = WriteBuffer::new();
    assert!(b.finish_tests().is_empty());
}

#[test]
fn frames_follow_protocol() {
    let mut a = WriteBuffer::new();
    a.write_field(vec![1]);
    a.write_field(vec![2, 3]);
    a.finished_val();
    a.write_field(vec![4]);
    a.finished_val();
    a.finished_func();
    a.finished_func();
    a.write_field(vec![5]);
    a.finished_val();
    a.finished_func();
    let frames = a.finish_tests();
    assert_eq!(
        frames,
        vec![
            vec![vec![vec![1], vec![2, 3]], vec![vec![4]]],
            vec![],
            vec![vec![vec![5]]],
        ]
    );
}

fn vals(v: &[&[&[u8]]]) -> Vec<Vec<Vec<u8>>> {
    v.iter().map(|val| val.iter().map(|f| f.to_vec()).collect()).collect()
}

#[test]
fn input_count_mismatch_comes_first() {
    let ci = vals(&[&[&[1]]]);
    let ki = vals(&[]);
    let co = vals(&[&[&[9]]]);
    let ko = vals(&[]);
    match check_subtest(3, &ci, &co, &ki, &ko) {
        Err(TestFailure::InputCountMismatch(3, a, b)) => {
            assert_eq!(a, ci);
            assert_eq!(b, ki);
        }
        other => panic!("unexpected verdict {other:?}"),
    }
}

#[test]
fn output_count_mismatch() {
    let ci = vals(&[&[&[1]]]);
    let co = vals(&[&[&[9]]]);
    let ko = vals(&[]);
    match check_subtest(0, &ci, &co, &ci, &ko) {
        Err(TestFailure::OutputCountMismatch(0, a, b)) => {
            assert_eq!(a, co);
            assert_eq!(b, ko);
        }
        other => panic!("unexpected verdict {other:?}"),
    }
}

#[test]
fn input_field_count_mismatch() {
    let ci = vals(&[&[&[1]], &[&[2], &[3]]]);
    let ki = vals(&[&[&[1]], &[&[2]]]);
    let none = vals(&[]);
    match check_subtest(2, &ci, &none, &ki, &none) {
        Err(TestFailure::InputFieldCountMismatch(2, 1, a, b)) => {
            assert_eq!(a, vec![vec![2], vec![3]]);
            assert_eq!(b, vec![vec![2]]);
        }
        other => panic!("unexpected verdict {other:?}"),
    }
}

#[test]
fn output_field_count_mismatch() {
    let co = vals(&[&[&[1], &[2]]]);
    let ko = vals(&[&[&[1]]]);
    let none = vals(&[]);
    match check_subtest(0, &none, &co, &none, &ko) {
        Err(TestFailure::OutputFieldCountMismatch(0, 0, a, b)) => {
            assert_eq!(a, vec![vec![1], vec![2]]);
            assert_eq!(b, vec![vec![1]]);
        }
        other => panic!("unexpected verdict {other:?}"),
    }
}

#[test]
fn output_field_mismatch() {
    let co = vals(&[&[&[1], &[2, 2]]]);
    let ko = vals(&[&[&[1], &[2, 3]]]);
    let none = vals(&[]);
    match check_subtest(5, &none, &co, &none, &ko) {
        Err(TestFailure::OutputFieldMismatch(5, 0, 1, a, b)) => {
            assert_eq!(a, vec![2, 2]);
            assert_eq!(b, vec![2, 3]);
        }
        other => panic!("unexpected verdict {other:?}"),
    }
}

#[test]
fn input_failure_reported_before_output_failure() {
    let ci = vals(&[&[&[1]]]);
    let ki = vals(&[&[&[2]]]);
    let co = vals(&[&[&[1]]]);
    let ko = vals(&[&[&[1, 1]]]);
    assert!(matches!(
        check_subtest(0, &ci, &co, &ki, &ko),
        Err(TestFailure::InputFieldMismatch(0, 0, 0, _, _))
    ));
}

#[test]
fn first_failing_subtest_does_not_stop_the_rest() {
    let ci = vec![vals(&[&[&[1]]]), vals(&[&[&[7]]])];
    let ki = vec![vals(&[&[&[2]]]), vals(&[&[&[7]]])];
    let co = vec![vals(&[]), vals(&[])];
    let ko = vec![vals(&[]), vals(&[])];
    let results = check_results(2, &ci, &co, &ki, &ko).unwrap();
    assert!(results[0].is_err());
    assert!(results[1].is_ok());
    assert_eq!(count_passed(&results), 1);
}

#[test]
fn totals_and_summary_line() {
    let mut totals = Totals::new();
    let ci = vec![vals(&[&[&[1]]]), vals(&[&[&[7]]])];
    let ki = vec![vals(&[&[&[2]]]), vals(&[&[&[7]]])];
    let co = vec![vals(&[]), vals(&[])];
    let ko = vec![vals(&[]), vals(&[])];
    let results = check_results(2, &ci, &co, &ki, &ko).unwrap();
    let test = one_func_test("t", vec![], None);
    totals.record(&Ok(TestReport { test, results }));
    totals.record(&Err(BuildError::HandwrittenMixing));
    assert_eq!(totals.passed, 1);
    assert_eq!(totals.failed, 1);
    assert_eq!(totals.completely_failed, 1);
    assert_eq!(totals.summary_line(), "total: 1 passed, 1 failed, 1 completely failed");
}

#[test]
fn summary_line_multi_digit() {
    let totals = Totals { passed: 1230, failed: 0, completely_failed: 45 };
    assert_eq!(totals.summary_line(), "total: 1230 passed, 0 failed, 45 completely failed");
}
