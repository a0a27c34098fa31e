use abi_checker::error::BuildError;
use abi_checker::model::{CallingConvention, FloatVal, Func, IntVal, Test, Val};
use abi_checker::naming::{
    arg_ty, full_subtest_name, full_test_name, harness_path, lib_name, source_path, Side,
};
use abi_checker::prepare::{check_struct_coherence, handwritten_mode};
use abi_checker::shape::{render_decl, shapes_match};

fn i32v(x: i32) -> Val {
    Val::Int(IntVal::c_int32_t(x))
}

fn func(name: &str, conventions: Vec<CallingConvention>, inputs: Vec<Val>) -> Func {
    Func { name: name.to_string(), conventions, inputs, output: None }
}

#[test]
fn primitive_type_names() {
    let cases: Vec<(Val, &str)> = vec![
        (Val::Int(IntVal::c__int128(1)), "i128"),
        (Val::Int(IntVal::c_int64_t(1)), "i64"),
        (i32v(1), "i32"),
        (Val::Int(IntVal::c_int16_t(1)), "i16"),
        (Val::Int(IntVal::c_int8_t(1)), "i8"),
        (Val::Int(IntVal::c__uint128(1)), "u128"),
        (Val::Int(IntVal::c_uint64_t(1)), "u64"),
        (Val::Int(IntVal::c_uint32_t(1)), "u32"),
        (Val::Int(IntVal::c_uint16_t(1)), "u16"),
        (Val::Int(IntVal::c_uint8_t(1)), "u8"),
        (Val::Float(FloatVal::Double(0)), "f64"),
        (Val::Float(FloatVal::Single(0)), "f32"),
        (Val::Bool(true), "bool"),
        (Val::Ptr(0x1a2b), "ptr"),
    ];
    for (v, name) in cases {
        assert_eq!(arg_ty(&v), name);
    }
}

#[test]
fn composite_type_names() {
    let arr = Val::Array(vec![i32v(1), i32v(2), i32v(3)]);
    assert_eq!(arg_ty(&arr), "arr_3_i32");
    let big = Val::Array((0..12).map(|_| Val::Bool(false)).collect());
    assert_eq!(arg_ty(&big), "arr_12_bool");
    let s = Val::Struct("point".to_string(), vec![i32v(1), i32v(2)]);
    assert_eq!(arg_ty(&s), "struct_point");
    let r = Val::Ref(Box::new(Val::Ref(Box::new(arr))));
    assert_eq!(arg_ty(&r), "ref_ref_arr_3_i32");
}

#[test]
fn pretty_names() {
    assert_eq!(full_test_name("i32", "rustc", "cc"), "i32::rustc_calls_cc");
    assert_eq!(
        full_subtest_name("i32", "rustc", "cc", "i32_val_in"),
        "i32::rustc_calls_cc::i32_val_in"
    );
}

#[test]
fn artifact_paths() {
    assert_eq!(
        source_path(false, "i32", "rustc", Side::Caller, "rs"),
        "generated_impls/rustc/i32_rustc_caller.rs"
    );
    assert_eq!(
        source_path(true, "opaque_example", "cc", Side::Callee, "c"),
        "handwritten_impls/cc/opaque_example_cc_callee.c"
    );
    assert_eq!(lib_name("i32", "cc", Side::Callee), "i32_cc_callee");
    assert_eq!(
        harness_path("i32", "rustc", "cc"),
        "target/temp/i32_rustc_calls_cc_harness.dll"
    );
}

#[test]
fn handwritten_mixing_is_refused() {
    let test = Test {
        name: "mixed".to_string(),
        funcs: vec![
            func("a", vec![CallingConvention::Handwritten], vec![]),
            func("b", vec![CallingConvention::C], vec![]),
        ],
    };
    assert!(matches!(handwritten_mode(&test), Err(BuildError::HandwrittenMixing)));
}

#[test]
fn all_or_none_handwritten_is_accepted() {
    let all = Test {
        name: "hand".to_string(),
        funcs: vec![
            func("a", vec![CallingConvention::Handwritten], vec![]),
            func("b", vec![CallingConvention::Handwritten], vec![]),
        ],
    };
    assert!(matches!(handwritten_mode(&all), Ok(true)));
    let none = Test {
        name: "gen".to_string(),
        funcs: vec![
            func("a", vec![CallingConvention::C, CallingConvention::Rust], vec![]),
            func("b", vec![CallingConvention::All], vec![]),
        ],
    };
    assert!(matches!(handwritten_mode(&none), Ok(false)));
    let empty = Test { name: "empty".to_string(), funcs: vec![] };
    assert!(matches!(handwritten_mode(&empty), Ok(false)));
}

#[test]
fn divergent_struct_definitions_are_refused() {
    let first = Val::Struct("S".to_string(), vec![i32v(1), i32v(2)]);
    let second = Val::Struct(
        "S".to_string(),
        vec![i32v(1), Val::Int(IntVal::c_int64_t(2))],
    );
    let test = Test {
        name: "structs".to_string(),
        funcs: vec![
            func("one", vec![CallingConvention::C], vec![first]),
            func("two", vec![CallingConvention::C], vec![Val::Ref(Box::new(second))]),
        ],
    };
    match check_struct_coherence(&test) {
        Err(BuildError::InconsistentStructDefinition { name, old_decl, new_decl }) => {
            assert_eq!(name, "S");
            assert_eq!(old_decl, "struct S { i32, i32 }");
            assert_eq!(new_decl, "struct S { i32, i64 }");
        }
        other => panic!("unexpected outcome {other:?}"),
    }
}

#[test]
fn nested_struct_definitions_are_checked() {
    let inner_a = Val::Struct("In".to_string(), vec![Val::Bool(true)]);
    let inner_b = Val::Struct("In".to_string(), vec![Val::Bool(true), Val::Bool(false)]);
    let test = Test {
        name: "nested".to_string(),
        funcs: vec![Func {
            name: "f".to_string(),
            conventions: vec![CallingConvention::C],
            inputs: vec![Val::Struct("Out".to_string(), vec![inner_a])],
            output: Some(Val::Array(vec![inner_b])),
        }],
    };
    assert!(matches!(
        check_struct_coherence(&test),
        Err(BuildError::InconsistentStructDefinition { .. })
    ));
}

#[test]
fn consistent_structs_pass() {
    let s = || Val::Struct("S".to_string(), vec![i32v(1), Val::Float(FloatVal::Single(0))]);
    let test = Test {
        name: "structs".to_string(),
        funcs: vec![
            func("one", vec![CallingConvention::C], vec![s(), s()]),
            func("two", vec![CallingConvention::C], vec![Val::Ref(Box::new(s()))]),
        ],
    };
    assert!(check_struct_coherence(&test).is_ok());
}

#[test]
fn shapes_ignore_literals_but_not_widths() {
    assert!(shapes_match(&i32v(1), &i32v(2)));
    assert!(!shapes_match(&i32v(1), &Val::Int(IntVal::c_uint32_t(1))));
    assert!(!shapes_match(
        &Val::Array(vec![i32v(1)]),
        &Val::Array(vec![i32v(1), i32v(1)])
    ));
    assert!(!shapes_match(
        &Val::Float(FloatVal::Double(0)),
        &Val::Float(FloatVal::Single(0))
    ));
    assert!(shapes_match(
        &Val::Ref(Box::new(Val::Ptr(1))),
        &Val::Ref(Box::new(Val::Ptr(2)))
    ));
}

#[test]
fn decl_of_empty_struct() {
    let s = Val::Struct("E".to_string(), vec![]);
    assert_eq!(render_decl(&s), "struct E {  }");
}

#[test]
fn equal_type_names_mean_equal_shapes() {
    let a = Val::Array(vec![i32v(1), i32v(2)]);
    let b = Val::Array(vec![i32v(5), i32v(6)]);
    assert_eq!(arg_ty(&a), arg_ty(&b));
    assert!(shapes_match(&a, &b));
    let c = Val::Array(vec![i32v(1), i32v(2), i32v(3)]);
    assert_ne!(arg_ty(&a), arg_ty(&c));
    assert!(!shapes_match(&a, &c));
    let d = Val::Array(vec![Val::Int(IntVal::c_uint32_t(1)), Val::Int(IntVal::c_uint32_t(2))]);
    assert_ne!(arg_ty(&a), arg_ty(&d));
    assert!(!shapes_match(&a, &d));
}
