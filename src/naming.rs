use vstd::prelude::*;
use crate::model::{FloatVal, IntVal, Val, ValModel, lemma_vals_view};

verus! {

/// The character of a decimal digit.
pub open spec fn digit_char(d: nat) -> char {
    if d == 0 { '0' }
    else if d == 1 { '1' }
    else if d == 2 { '2' }
    else if d == 3 { '3' }
    else if d == 4 { '4' }
    else if d == 5 { '5' }
    else if d == 6 { '6' }
    else if d == 7 { '7' }
    else if d == 8 { '8' }
    else { '9' }
}

/// The decimal digits of `n`, most significant first, with no leading zero.
pub open spec fn decimal(n: nat) -> Seq<char>
    decreases n,
{
    if n < 10 {
        seq![digit_char(n)]
    } else {
        decimal(n / 10).push(digit_char(n % 10))
    }
}

/// Whether every array inside a value, at any depth, is non-empty: such a
/// value has a type name.
pub open spec fn arrays_nonempty(v: ValModel) -> bool
    decreases v,
{
    match v {
        ValModel::Array(vs) => vs.len() > 0 && all_arrays_nonempty(vs),
        ValModel::Struct(_, fs) => all_arrays_nonempty(fs),
        ValModel::Ref(x) => arrays_nonempty(*x),
        _ => true,
    }
}

/// Whether every array inside each of the values is non-empty.
pub open spec fn all_arrays_nonempty(s: Seq<ValModel>) -> bool
    decreases s,
{
    if s.len() == 0 {
        true
    } else {
        all_arrays_nonempty(s.drop_last()) && arrays_nonempty(s.last())
    }
}

/// Every array inside each of the values is non-empty exactly when that holds
/// of each value.
pub proof fn lemma_all_arrays_nonempty(s: Seq<ValModel>)
    ensures
        all_arrays_nonempty(s) <==> forall|i: int| 0 <= i < s.len() ==> #[trigger] arrays_nonempty(s[i]),
    decreases s.len(),
{
    if s.len() > 0 {
        let d = s.drop_last();
        lemma_all_arrays_nonempty(d);
        if forall|i: int| 0 <= i < s.len() ==> #[trigger] arrays_nonempty(s[i]) {
            assert forall|i: int| 0 <= i < d.len() implies #[trigger] arrays_nonempty(d[i]) by {
                assert(d[i] == s[i]);
            }
            assert(arrays_nonempty(s[s.len() - 1]));
        }
        if all_arrays_nonempty(s) {
            assert forall|i: int| 0 <= i < s.len() implies #[trigger] arrays_nonempty(s[i]) by {
                if i < d.len() {
                    assert(d[i] == s[i]);
                }
            }
        }
    }
}

/// The name of an integer type.
pub open spec fn int_ty_name(i: IntVal) -> Seq<char> {
    match i {
        IntVal::c__int128(_) => seq!['i', '1', '2', '8'],
        IntVal::c_int64_t(_) => seq!['i', '6', '4'],
        IntVal::c_int32_t(_) => seq!['i', '3', '2'],
        IntVal::c_int16_t(_) => seq!['i', '1', '6'],
        IntVal::c_int8_t(_) => seq!['i', '8'],
        IntVal::c__uint128(_) => seq!['u', '1', '2', '8'],
        IntVal::c_uint64_t(_) => seq!['u', '6', '4'],
        IntVal::c_uint32_t(_) => seq!['u', '3', '2'],
        IntVal::c_uint16_t(_) => seq!['u', '1', '6'],
        IntVal::c_uint8_t(_) => seq!['u', '8'],
    }
}

/// The canonical name of a value's type, from which generated identifiers
/// are made: `ref_<inner>`, `arr_<len>_<elem>`, `struct_<name>`, or the name
/// of a primitive.
pub open spec fn ty_name(v: ValModel) -> Seq<char>
    decreases v,
{
    match v {
        ValModel::Ref(x) => seq!['r', 'e', 'f', '_'] + ty_name(*x),
        ValModel::Ptr(_) => seq!['p', 't', 'r'],
        ValModel::Bool(_) => seq!['b', 'o', 'o', 'l'],
        ValModel::Array(vs) => if vs.len() > 0 {
            seq!['a', 'r', 'r', '_'] + decimal(vs.len()) + seq!['_'] + ty_name(vs[0])
        } else {
            seq!['a', 'r', 'r', '_', '0', '_']
        },
        ValModel::Struct(name, _) => seq!['s', 't', 'r', 'u', 'c', 't', '_'] + name,
        ValModel::Float(FloatVal::Double(_)) => seq!['f', '6', '4'],
        ValModel::Float(FloatVal::Single(_)) => seq!['f', '3', '2'],
        ValModel::Int(i) => int_ty_name(i),
    }
}

fn digit_str(d: usize) -> (r: &'static str)
    requires
        d < 10,
    ensures
        r@ == seq![digit_char(d as nat)],
{
    proof {
        reveal_strlit("0");
        reveal_strlit("1");
        reveal_strlit("2");
        reveal_strlit("3");
        reveal_strlit("4");
        reveal_strlit("5");
        reveal_strlit("6");
        reveal_strlit("7");
        reveal_strlit("8");
        reveal_strlit("9");
    }
    if d == 0 { "0" }
    else if d == 1 { "1" }
    else if d == 2 { "2" }
    else if d == 3 { "3" }
    else if d == 4 { "4" }
    else if d == 5 { "5" }
    else if d == 6 { "6" }
    else if d == 7 { "7" }
    else if d == 8 { "8" }
    else { "9" }
}

/// Appends the decimal digits of `n` to `s`.
pub fn push_decimal(s: &mut String, n: usize)
    ensures
        final(s)@ == old(s)@ + decimal(n as nat),
    decreases n,
{
    if n >= 10 {
        push_decimal(s, n / 10);
        s.append(digit_str(n % 10));
    } else {
        s.append(digit_str(n));
    }
}

fn int_name(i: IntVal) -> (r: &'static str)
    ensures
        r@ == int_ty_name(i),
{
    proof {
        reveal_strlit("i128");
        reveal_strlit("i64");
        reveal_strlit("i32");
        reveal_strlit("i16");
        reveal_strlit("i8");
        reveal_strlit("u128");
        reveal_strlit("u64");
        reveal_strlit("u32");
        reveal_strlit("u16");
        reveal_strlit("u8");
    }
    match i {
        IntVal::c__int128(_) => "i128",
        IntVal::c_int64_t(_) => "i64",
        IntVal::c_int32_t(_) => "i32",
        IntVal::c_int16_t(_) => "i16",
        IntVal::c_int8_t(_) => "i8",
        IntVal::c__uint128(_) => "u128",
        IntVal::c_uint64_t(_) => "u64",
        IntVal::c_uint32_t(_) => "u32",
        IntVal::c_uint16_t(_) => "u16",
        IntVal::c_uint8_t(_) => "u8",
    }
}

/// Appends the type name of a value to `s`.
pub fn push_ty_name(s: &mut String, val: &Val)
    ensures
        final(s)@ == old(s)@ + ty_name(val.view()),
    decreases val,
{
    proof {
        reveal_strlit("ref_");
        reveal_strlit("ptr");
        reveal_strlit("bool");
        reveal_strlit("arr_");
        reveal_strlit("arr_0_");
        reveal_strlit("_");
        reveal_strlit("struct_");
        reveal_strlit("f64");
        reveal_strlit("f32");
    }
    let ghost s0 = s@;
    match val {
        Val::Ref(x) => {
            s.append("ref_");
            push_ty_name(s, x);
            assert(s@ =~= s0 + ty_name(val.view()));
        },
        Val::Ptr(_) => s.append("ptr"),
        Val::Bool(_) => s.append("bool"),
        Val::Array(vals) => {
            proof {
                lemma_vals_view(vals@);
            }
            if vals.len() == 0 {
                s.append("arr_0_");
            } else {
                s.append("arr_");
                push_decimal(s, vals.len());
                s.append("_");
                assert(vals@[0].view() == crate::model::vals_view(vals@)[0]);
                push_ty_name(s, &vals[0]);
            }
            assert(s@ =~= s0 + ty_name(val.view()));
        },
        Val::Struct(name, _) => {
            s.append("struct_");
            s.append(name.as_str());
            assert(s@ =~= s0 + ty_name(val.view()));
        },
        Val::Float(FloatVal::Double(_)) => s.append("f64"),
        Val::Float(FloatVal::Single(_)) => s.append("f32"),
        Val::Int(i) => s.append(int_name(*i)),
    }
}

/// The type name to use for this value when it is stored in arguments and
/// variables.
pub fn arg_ty(val: &Val) -> (r: String)
    requires
        arrays_nonempty(val.view()),
    ensures
        r@ == ty_name(val.view()),
{
    let mut s = String::new();
    push_ty_name(&mut s, val);
    assert(s@ =~= ty_name(val.view()));
    s
}


/// The printed name of a pairing: `<test>::<caller>_calls_<callee>`.
pub open spec fn test_title(test: Seq<char>, caller: Seq<char>, callee: Seq<char>) -> Seq<char> {
    test + "::"@ + caller + "_calls_"@ + callee
}

/// The name of a test for pretty-printing.
pub fn full_test_name(test_name: &str, caller_name: &str, callee_name: &str) -> (r: String)
    ensures
        r@ == test_title(test_name@, caller_name@, callee_name@),
{
    let mut s = String::from_str(test_name);
    s.append("::");
    s.append(caller_name);
    s.append("_calls_");
    s.append(callee_name);
    s
}

/// The name of a subtest for pretty-printing.
pub fn full_subtest_name(test_name: &str, caller_name: &str, callee_name: &str, func_name: &str) -> (r:
    String)
    ensures
        r@ == test_title(test_name@, caller_name@, callee_name@) + "::"@ + func_name@,
{
    let mut s = full_test_name(test_name, caller_name, callee_name);
    s.append("::");
    s.append(func_name);
    s
}

/// Which side of the call a generated program or library is.
#[derive(Clone, Copy, Debug, PartialEq, Eq, Structural)]
pub enum Side {
    Caller,
    Callee,
}

/// The word that names a side in file and library names.
pub open spec fn side_word(side: Side) -> Seq<char> {
    match side {
        Side::Caller => "caller"@,
        Side::Callee => "callee"@,
    }
}

fn side_str(side: Side) -> (r: &'static str)
    ensures
        r@ == side_word(side),
{
    match side {
        Side::Caller => "caller",
        Side::Callee => "callee",
    }
}

/// The name of the library built for one side: `<test>_<backend>_<side>`.
pub open spec fn lib_title(test: Seq<char>, backend: Seq<char>, side: Side) -> Seq<char> {
    test + "_"@ + backend + "_"@ + side_word(side)
}

/// The directory under which the sources of a test live.
pub open spec fn impls_root(handwritten: bool) -> Seq<char> {
    if handwritten {
        "handwritten_impls/"@
    } else {
        "generated_impls/"@
    }
}

/// The library name of one side of a pairing.
pub fn lib_name(test_name: &str, backend: &str, side: Side) -> (r: String)
    ensures
        r@ == lib_title(test_name@, backend@, side),
{
    let mut s = String::from_str(test_name);
    s.append("_");
    s.append(backend);
    s.append("_");
    s.append(side_str(side));
    s
}

/// Where the source of one side of a pairing lives:
/// `<root>/<backend>/<test>_<backend>_<side>.<ext>`.
pub fn source_path(handwritten: bool, test_name: &str, backend: &str, side: Side, ext: &str) -> (r:
    String)
    ensures
        r@ == impls_root(handwritten) + backend@ + "/"@ + lib_title(test_name@, backend@, side)
            + "."@ + ext@,
{
    let mut s = if handwritten {
        String::from_str("handwritten_impls/")
    } else {
        String::from_str("generated_impls/")
    };
    s.append(backend);
    s.append("/");
    let lib = lib_name(test_name, backend, side);
    s.append(lib.as_str());
    s.append(".");
    s.append(ext);
    assert(s@ =~= impls_root(handwritten) + backend@ + "/"@ + lib_title(test_name@, backend@, side)
        + "."@ + ext@);
    s
}

/// Where the linked harness of a pairing is written:
/// `target/temp/<test>_<caller>_calls_<callee>_harness.dll`.
pub fn harness_path(test_name: &str, caller_name: &str, callee_name: &str) -> (r: String)
    ensures
        r@ == "target/temp/"@ + test_name@ + "_"@ + caller_name@ + "_calls_"@ + callee_name@
            + "_harness.dll"@,
{
    let mut s = String::from_str("target/temp/");
    s.append(test_name);
    s.append("_");
    s.append(caller_name);
    s.append("_calls_");
    s.append(callee_name);
    s.append("_harness.dll");
    assert(s@ =~= "target/temp/"@ + test_name@ + "_"@ + caller_name@ + "_calls_"@ + callee_name@
        + "_harness.dll"@);
    s
}

} // verus!
