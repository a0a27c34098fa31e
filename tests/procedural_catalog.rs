use abi_checker::buffer::WriteBuffer;
use abi_checker::model::{CallingConvention, FloatVal, IntVal, Val};
use abi_checker::report::run_report;
use abi_checker::procedural::procedural_test;

fn i32v() -> Val {
    Val::Int(IntVal::c_int32_t(0x1a2b3c4d))
}

fn is_i32(v: &Val) -> bool {
    matches!(v, Val::Int(IntVal::c_int32_t(0x1a2b3c4d)))
}

fn is_marker_byte(v: &Val) -> bool {
    matches!(v, Val::Int(IntVal::c_uint8_t(0xeb)))
}

fn is_marker_single(v: &Val) -> bool {
    matches!(v, Val::Float(FloatVal::Single(bits)) if *bits == 1234.456f32.to_bits())
}

#[test]
fn catalog_size_and_order() {
    let test = procedural_test("i32", &vec![i32v()]);
    assert_eq!(test.name, "i32");
    assert_eq!(test.funcs.len(), 6 + 15 + 16 + 16 + 5 + 17 + 5 + 17 + 5 + 17);
    let names: Vec<&str> = test.funcs.iter().map(|f| f.name.as_str()).collect();
    assert_eq!(
        &names[..7],
        &[
            "i32_val_in",
            "i32_val_out",
            "i32_val_in_out",
            "i32_ref_in",
            "i32_ref_out",
            "i32_ref_in_out",
            "i32_val_in_2"
        ]
    );
    assert_eq!(names[20], "i32_val_in_16");
    assert_eq!(names[21], "i32_struct_in_1");
    assert_eq!(names[37], "i32_ref_struct_in_1");
    assert_eq!(names[53], "i32_val_in_0_perturbed_small");
    assert_eq!(names[58], "i32_val_in_0_perturbed_big");
    assert_eq!(names[74], "i32_val_in_16_perturbed_big");
    assert_eq!(names[75], "i32_struct_in_0_perturbed_small");
    assert_eq!(*names.last().unwrap(), "i32_ref_struct_in_16_perturbed_big");
    for f in &test.funcs {
        assert_eq!(f.conventions, vec![CallingConvention::All]);
    }
}

#[test]
fn basic_subtests_shapes() {
    let test = procedural_test("i32", &vec![i32v()]);
    let f = &test.funcs;
    assert!(f[0].inputs.len() == 1 && is_i32(&f[0].inputs[0]) && f[0].output.is_none());
    assert!(f[1].inputs.is_empty() && matches!(&f[1].output, Some(v) if is_i32(v)));
    assert!(matches!(&f[3].inputs[0], Val::Ref(b) if is_i32(b)));
    assert!(matches!(&f[5].output, Some(Val::Ref(b)) if is_i32(b)));
}

#[test]
fn stress_subtests_shapes() {
    let test = procedural_test("i32", &vec![i32v()]);
    let f = &test.funcs;
    assert_eq!(f[6].inputs.len(), 2);
    assert_eq!(f[20].inputs.len(), 16);
    assert!(f[20].inputs.iter().all(is_i32));
    match &f[21 + 15].inputs[..] {
        [Val::Struct(name, fields)] => {
            assert_eq!(name, "i32_16");
            assert_eq!(fields.len(), 16);
        }
        other => panic!("unexpected inputs {other:?}"),
    }
    match &f[37].inputs[..] {
        [Val::Ref(b)] => match &**b {
            Val::Struct(name, fields) => {
                assert_eq!(name, "i32_1");
                assert_eq!(fields.len(), 1);
            }
            other => panic!("unexpected referent {other:?}"),
        },
        other => panic!("unexpected inputs {other:?}"),
    }
}

#[test]
fn perturbed_markers_move_through_every_position() {
    let test = procedural_test("i32", &vec![i32v()]);
    for idx in 0..=4usize {
        let f = &test.funcs[53 + idx];
        assert_eq!(f.name, format!("i32_val_in_{idx}_perturbed_small"));
        assert_eq!(f.inputs.len(), 6);
        let single_at = 5 - idx;
        let byte_at = if single_at <= idx { idx + 1 } else { idx };
        assert!(is_marker_byte(&f.inputs[byte_at]));
        assert!(is_marker_single(&f.inputs[single_at]));
        let plain = f.inputs.iter().filter(|v| is_i32(v)).count();
        assert_eq!(plain, 4);
    }
    let f = &test.funcs[75 + 2];
    match &f.inputs[..] {
        [Val::Struct(name, fields)] => {
            assert_eq!(name, "i32_2_perturbed_small");
            assert_eq!(fields.len(), 6);
        }
        other => panic!("unexpected inputs {other:?}"),
    }
}

#[test]
fn catalogs_follow_value_order() {
    let vals = vec![Val::Bool(true), Val::Ptr(0x1a2b3c4d_23eaf142)];
    let test = procedural_test("mixed", &vals);
    assert_eq!(test.funcs.len(), 2 * 119);
    assert_eq!(test.funcs[0].name, "bool_val_in");
    assert_eq!(test.funcs[119].name, "ptr_val_in");
}

#[test]
fn no_values_no_subtests() {
    let test = procedural_test("none", &vec![]);
    assert!(test.funcs.is_empty());
}

fn fields(buf: &mut WriteBuffer, v: &Val) {
    match v {
        Val::Int(IntVal::c_int32_t(x)) => buf.write_field(x.to_le_bytes().to_vec()),
        Val::Int(IntVal::c_uint8_t(x)) => buf.write_field(vec![*x]),
        Val::Float(FloatVal::Single(bits)) => buf.write_field(bits.to_le_bytes().to_vec()),
        Val::Struct(_, fs) | Val::Array(fs) => fs.iter().for_each(|f| fields(buf, f)),
        Val::Ref(x) => fields(buf, x),
        other => panic!("value not used here: {other:?}"),
    }
}

fn write_val(buf: &mut WriteBuffer, v: &Val) {
    fields(buf, v);
    buf.finished_val();
}

#[test]
fn identical_sides_pass_every_generated_subtest() {
    let test = procedural_test("i32", &vec![i32v()]);
    let mut bufs: Vec<WriteBuffer> = (0..4).map(|_| WriteBuffer::new()).collect();
    for f in &test.funcs {
        for side in [0usize, 2] {
            for v in &f.inputs {
                write_val(&mut bufs[side], v);
            }
            if let Some(o) = &f.output {
                write_val(&mut bufs[side + 1], o);
            }
            let (a, b) = bufs.split_at_mut(side + 1);
            a[side].finished_func();
            b[0].finished_func();
        }
    }
    let ko = bufs.pop().unwrap();
    let ki = bufs.pop().unwrap();
    let co = bufs.pop().unwrap();
    let ci = bufs.pop().unwrap();
    let n = test.funcs.len();
    let report = run_report(test, ci, co, ki, ko).unwrap();
    assert_eq!(report.results.len(), n);
    assert!(report.results.iter().all(|r| r.is_ok()));
}
