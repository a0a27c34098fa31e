use vstd::prelude::*;
use crate::model::{FloatVal, FuncModel, IntVal, Val, ValModel, lemma_vals_view, vals_view};
use crate::naming::{
    arrays_nonempty, decimal, digit_char, int_ty_name, lemma_all_arrays_nonempty, push_ty_name,
    ty_name,
};
use crate::prepare::{coherent, func_structs, same_struct_name, structs_in, structs_in_all, test_structs};

verus! {

/// Whether two values have the same type shape: the same constructors,
/// widths, array lengths and element shapes, and struct names and field
/// shapes.
pub open spec fn same_shape(a: ValModel, b: ValModel) -> bool
    decreases a,
{
    match (a, b) {
        (ValModel::Int(i), ValModel::Int(j)) => int_ty_name(i) == int_ty_name(j),
        (ValModel::Float(FloatVal::Double(_)), ValModel::Float(FloatVal::Double(_))) => true,
        (ValModel::Float(FloatVal::Single(_)), ValModel::Float(FloatVal::Single(_))) => true,
        (ValModel::Bool(_), ValModel::Bool(_)) => true,
        (ValModel::Ptr(_), ValModel::Ptr(_)) => true,
        (ValModel::Array(xs), ValModel::Array(ys)) => xs.len() == ys.len() && (xs.len() == 0
            || same_shape(xs[0], ys[0])),
        (ValModel::Struct(n, xs), ValModel::Struct(m, ys)) => n == m && all_same_shape(xs, ys),
        (ValModel::Ref(x), ValModel::Ref(y)) => same_shape(*x, *y),
        _ => false,
    }
}

/// Whether two sequences of values have the same length and, position by
/// position, the same shapes.
pub open spec fn all_same_shape(xs: Seq<ValModel>, ys: Seq<ValModel>) -> bool
    decreases xs,
{
    if xs.len() != ys.len() {
        false
    } else if xs.len() == 0 {
        true
    } else {
        all_same_shape(xs.drop_last(), ys.drop_last()) && same_shape(xs.last(), ys.last())
    }
}

fn int_kind(i: IntVal) -> (r: u8)
    ensures
        forall|j: IntVal| #[trigger] int_ty_name(j) == int_ty_name(i) <==> int_kind_spec(j) == r,
        r == int_kind_spec(i),
{
    proof {
        lemma_int_names_by_kind();
    }
    match i {
        IntVal::c__int128(_) => 0,
        IntVal::c_int64_t(_) => 1,
        IntVal::c_int32_t(_) => 2,
        IntVal::c_int16_t(_) => 3,
        IntVal::c_int8_t(_) => 4,
        IntVal::c__uint128(_) => 5,
        IntVal::c_uint64_t(_) => 6,
        IntVal::c_uint32_t(_) => 7,
        IntVal::c_uint16_t(_) => 8,
        IntVal::c_uint8_t(_) => 9,
    }
}

/// The kind of an integer type, as a small number.
spec fn int_kind_spec(i: IntVal) -> u8 {
    match i {
        IntVal::c__int128(_) => 0,
        IntVal::c_int64_t(_) => 1,
        IntVal::c_int32_t(_) => 2,
        IntVal::c_int16_t(_) => 3,
        IntVal::c_int8_t(_) => 4,
        IntVal::c__uint128(_) => 5,
        IntVal::c_uint64_t(_) => 6,
        IntVal::c_uint32_t(_) => 7,
        IntVal::c_uint16_t(_) => 8,
        IntVal::c_uint8_t(_) => 9,
    }
}

/// Two integer types have the same name exactly when they are the same kind.
proof fn lemma_int_names_by_kind()
    ensures
        forall|i: IntVal, j: IntVal|
            #[trigger] int_ty_name(i) == #[trigger] int_ty_name(j) <==> int_kind_spec(i)
                == int_kind_spec(j),
{
    assert forall|i: IntVal, j: IntVal|
        #[trigger] int_ty_name(i) == #[trigger] int_ty_name(j) <==> int_kind_spec(i)
            == int_kind_spec(j) by {
        if int_kind_spec(i) != int_kind_spec(j) {
            let a = int_ty_name(i);
            let b = int_ty_name(j);
            assert(a.len() != b.len() || a[0] != b[0] || a[1] != b[1] || a[2] != b[2]);
        }
    }
}

/// Whether two values have the same type shape.
pub fn shapes_match(a: &Val, b: &Val) -> (r: bool)
    ensures
        r == same_shape(a.view(), b.view()),
    decreases a,
{
    match (a, b) {
        (Val::Int(i), Val::Int(j)) => int_kind(*i) == int_kind(*j),
        (Val::Float(FloatVal::Double(_)), Val::Float(FloatVal::Double(_))) => true,
        (Val::Float(FloatVal::Single(_)), Val::Float(FloatVal::Single(_))) => true,
        (Val::Bool(_), Val::Bool(_)) => true,
        (Val::Ptr(_), Val::Ptr(_)) => true,
        (Val::Array(xs), Val::Array(ys)) => {
            proof {
                lemma_vals_view(xs@);
                lemma_vals_view(ys@);
            }
            if xs.len() != ys.len() {
                false
            } else if xs.len() == 0 {
                true
            } else {
                shapes_match(&xs[0], &ys[0])
            }
        },
        (Val::Struct(n, xs), Val::Struct(m, ys)) => {
            let same_name = n.eq(m);
            if !same_name {
                false
            } else {
                all_shapes_match(xs, ys)
            }
        },
        (Val::Ref(x), Val::Ref(y)) => shapes_match(x, y),
        _ => false,
    }
}

/// Whether two sequences of values match in length and shape, position by
/// position.
pub fn all_shapes_match(xs: &Vec<Val>, ys: &Vec<Val>) -> (r: bool)
    ensures
        r == all_same_shape(vals_view(xs@), vals_view(ys@)),
    decreases xs,
{
    proof {
        lemma_vals_view(xs@);
        lemma_vals_view(ys@);
    }
    if xs.len() != ys.len() {
        return false;
    }
    let ghost xv = vals_view(xs@);
    let ghost yv = vals_view(ys@);
    let mut i: usize = 0;
    while i < xs.len()
        invariant
            xs@.len() == ys@.len(),
            xv == vals_view(xs@),
            yv == vals_view(ys@),
            xv.len() == xs@.len(),
            yv.len() == ys@.len(),
            forall|k: int| 0 <= k < xs@.len() ==> #[trigger] xv[k] == xs@[k].view(),
            forall|k: int| 0 <= k < ys@.len() ==> #[trigger] yv[k] == ys@[k].view(),
            i <= xs@.len(),
            all_same_shape(xv.take(i as int), yv.take(i as int)),
        decreases xs@.len() - i,
    {
        let m = shapes_match(&xs[i], &ys[i]);
        assert(xv.take(i + 1).drop_last() =~= xv.take(i as int));
        assert(yv.take(i + 1).drop_last() =~= yv.take(i as int));
        if !m {
            proof {
                lemma_prefix_mismatch(xv, yv, i as nat);
            }
            return false;
        }
        i = i + 1;
    }
    assert(xv.take(i as int) =~= xv);
    assert(yv.take(i as int) =~= yv);
    true
}

proof fn lemma_prefix_mismatch(xs: Seq<ValModel>, ys: Seq<ValModel>, i: nat)
    requires
        xs.len() == ys.len(),
        i < xs.len(),
        !same_shape(xs[i as int], ys[i as int]),
    ensures
        !all_same_shape(xs, ys),
    decreases xs.len(),
{
    if i + 1 < xs.len() {
        assert(xs.drop_last()[i as int] == xs[i as int]);
        assert(ys.drop_last()[i as int] == ys[i as int]);
        lemma_prefix_mismatch(xs.drop_last(), ys.drop_last(), i);
    }
}


/// Every value has its own shape.
pub proof fn lemma_same_shape_refl(a: ValModel)
    ensures
        same_shape(a, a),
    decreases a,
{
    match a {
        ValModel::Array(xs) => {
            if xs.len() > 0 {
                lemma_same_shape_refl(xs[0]);
            }
        },
        ValModel::Struct(_, xs) => lemma_all_same_shape_refl(xs),
        ValModel::Ref(x) => lemma_same_shape_refl(*x),
        _ => {},
    }
}

proof fn lemma_all_same_shape_refl(xs: Seq<ValModel>)
    ensures
        all_same_shape(xs, xs),
    decreases xs,
{
    if xs.len() > 0 {
        lemma_all_same_shape_refl(xs.drop_last());
        lemma_same_shape_refl(xs.last());
    }
}

/// Having the same shape is symmetric.
pub proof fn lemma_same_shape_sym(a: ValModel, b: ValModel)
    requires
        same_shape(a, b),
    ensures
        same_shape(b, a),
    decreases a,
{
    match (a, b) {
        (ValModel::Array(xs), ValModel::Array(ys)) => {
            if xs.len() > 0 {
                lemma_same_shape_sym(xs[0], ys[0]);
            }
        },
        (ValModel::Struct(_, xs), ValModel::Struct(_, ys)) => lemma_all_same_shape_sym(xs, ys),
        (ValModel::Ref(x), ValModel::Ref(y)) => lemma_same_shape_sym(*x, *y),
        _ => {},
    }
}

proof fn lemma_all_same_shape_sym(xs: Seq<ValModel>, ys: Seq<ValModel>)
    requires
        all_same_shape(xs, ys),
    ensures
        all_same_shape(ys, xs),
    decreases xs,
{
    if xs.len() > 0 {
        lemma_all_same_shape_sym(xs.drop_last(), ys.drop_last());
        lemma_same_shape_sym(xs.last(), ys.last());
    }
}

/// The type names of fields, separated by commas.
pub open spec fn field_list(s: Seq<ValModel>) -> Seq<char>
    decreases s.len(),
{
    if s.len() == 0 {
        Seq::empty()
    } else if s.len() == 1 {
        ty_name(s[0])
    } else {
        field_list(s.drop_last()) + ", "@ + ty_name(s.last())
    }
}

/// A struct's declaration as shown in reports: `struct <name> { <fields> }`.
pub open spec fn decl(v: ValModel) -> Seq<char> {
    match v {
        ValModel::Struct(n, fs) => "struct "@ + n + " { "@ + field_list(fs) + " }"@,
        _ => ty_name(v),
    }
}

/// The declaration of a struct value as shown in reports.
pub fn render_decl(v: &Val) -> (r: String)
    ensures
        r@ == decl(v.view()),
{
    match v {
        Val::Struct(n, fs) => {
            proof {
                lemma_vals_view(fs@);
            }
            let ghost fv = vals_view(fs@);
            let mut s = String::from_str("struct ");
            s.append(n.as_str());
            s.append(" { ");
            let ghost s0 = s@;
            let mut i: usize = 0;
            while i < fs.len()
                invariant
                    fv == vals_view(fs@),
                    fv.len() == fs@.len(),
                    forall|k: int| 0 <= k < fs@.len() ==> #[trigger] fv[k] == fs@[k].view(),
                    i <= fs@.len(),
                    s@ == s0 + field_list(fv.take(i as int)),
                decreases fs@.len() - i,
            {
                assert(fv.take(i + 1).drop_last() =~= fv.take(i as int));
                if i > 0 {
                    s.append(", ");
                }
                push_ty_name(&mut s, &fs[i]);
                proof {
                    if i == 0 {
                        assert(fv.take(1)[0] == fv[0]);
                    }
                }
                assert(s@ =~= s0 + field_list(fv.take(i + 1)));
                i = i + 1;
            }
            assert(fv.take(i as int) =~= fv);
            s.append(" }");
            assert(s@ =~= decl(v.view()));
            s
        },
        _ => {
            let mut s = String::new();
            push_ty_name(&mut s, v);
            assert(s@ =~= decl(v.view()));
            s
        },
    }
}


spec fn is_digit(c: char) -> bool {
    '0' <= c && c <= '9'
}

proof fn lemma_decimal_digits(n: nat)
    ensures
        decimal(n).len() >= 1,
        forall|k: int| 0 <= k < decimal(n).len() ==> is_digit(#[trigger] decimal(n)[k]),
    decreases n,
{
    if n >= 10 {
        lemma_decimal_digits(n / 10);
    }
}

proof fn lemma_digit_char_injective(a: nat, b: nat)
    requires
        a < 10,
        b < 10,
        digit_char(a) == digit_char(b),
    ensures
        a == b,
{
}

proof fn lemma_decimal_injective(n: nat, m: nat)
    requires
        decimal(n) == decimal(m),
    ensures
        n == m,
    decreases n,
{
    if n < 10 && m < 10 {
        assert(decimal(n) == seq![digit_char(n)]);
        assert(decimal(m) == seq![digit_char(m)]);
        assert(seq![digit_char(n)][0] == digit_char(n));
        assert(seq![digit_char(m)][0] == digit_char(m));
        assert(decimal(n)[0] == decimal(m)[0]);
        lemma_digit_char_injective(n, m);
    } else if n < 10 {
        lemma_decimal_digits(m / 10);
        assert(decimal(m).len() >= 2);
    } else if m < 10 {
        lemma_decimal_digits(n / 10);
        assert(decimal(n).len() >= 2);
    } else {
        let dn = decimal(n);
        let dm = decimal(m);
        assert(dn.last() == dm.last());
        lemma_digit_char_injective(n % 10, m % 10);
        assert(dn.drop_last() =~= decimal(n / 10));
        assert(dm.drop_last() =~= decimal(m / 10));
        lemma_decimal_injective(n / 10, m / 10);
        assert(n == 10 * (n / 10) + n % 10) by (nonlinear_arith);
        assert(m == 10 * (m / 10) + m % 10) by (nonlinear_arith);
    }
}

/// Splits `p + d + "_" + x` where `d` is made of digits.
proof fn lemma_split_after_digits(
    p: Seq<char>,
    d1: Seq<char>,
    x1: Seq<char>,
    d2: Seq<char>,
    x2: Seq<char>,
)
    requires
        forall|k: int| 0 <= k < d1.len() ==> is_digit(#[trigger] d1[k]),
        forall|k: int| 0 <= k < d2.len() ==> is_digit(#[trigger] d2[k]),
        p + d1 + seq!['_'] + x1 == p + d2 + seq!['_'] + x2,
    ensures
        d1 == d2,
        x1 == x2,
{
    let s1 = p + d1 + seq!['_'] + x1;
    let s2 = p + d2 + seq!['_'] + x2;
    let l1: int = (p.len() + d1.len()) as int;
    let l2: int = (p.len() + d2.len()) as int;
    if d1.len() < d2.len() {
        assert(s1[l1] == '_');
        assert(s2[l1] == d2[d1.len() as int]);
    } else if d2.len() < d1.len() {
        assert(s2[l2] == '_');
        assert(s1[l2] == d1[d2.len() as int]);
    }
    assert(d1 =~= s1.subrange(p.len() as int, l1));
    assert(d2 =~= s2.subrange(p.len() as int, l2));
    assert(x1 =~= s1.subrange(l1 + 1, s1.len() as int));
    assert(x2 =~= s2.subrange(l2 + 1, s2.len() as int));
}

proof fn lemma_drop_prefix(p: Seq<char>, x: Seq<char>, y: Seq<char>)
    requires
        p + x == p + y,
    ensures
        x == y,
{
    assert(x =~= (p + x).subrange(p.len() as int, (p + x).len() as int));
    assert(y =~= (p + y).subrange(p.len() as int, (p + y).len() as int));
}

proof fn lemma_structs_in_all_contains(xs: Seq<ValModel>, k: int)
    requires
        0 <= k < xs.len(),
    ensures
        forall|e: ValModel| structs_in(xs[k]).contains(e) ==> #[trigger] structs_in_all(xs).contains(e),
    decreases xs.len(),
{
    let d = xs.drop_last();
    assert forall|e: ValModel| structs_in(xs[k]).contains(e) implies #[trigger] structs_in_all(xs).contains(e) by {
        let a = structs_in_all(d);
        let b = structs_in(xs.last());
        if k < d.len() {
            lemma_structs_in_all_contains(d, k);
            assert(d[k] == xs[k]);
            assert(structs_in(d[k]).contains(e));
            assert(a.contains(e));
            let t = choose|t: int| 0 <= t < a.len() && a[t] == e;
            assert((a + b)[t] == e);
        } else {
            let t = choose|t: int| 0 <= t < b.len() && b[t] == e;
            assert((a + b)[a.len() + t] == e);
        }
    }
}

proof fn lemma_coherent_sub(s: Seq<ValModel>, t: Seq<ValModel>)
    requires
        coherent(s),
        forall|e: ValModel| t.contains(e) ==> #[trigger] s.contains(e),
    ensures
        coherent(t),
{
    assert forall|i: int, j: int|
        0 <= i < t.len() && 0 <= j < t.len() && same_struct_name(t[i], t[j]) implies same_shape(
        #[trigger] t[i],
        #[trigger] t[j],
    ) by {
        assert(t.contains(t[i]));
        assert(t.contains(t[j]));
        assert(s.contains(t[i]));
        assert(s.contains(t[j]));
        let a = choose|a: int| 0 <= a < s.len() && s[a] == t[i];
        let b = choose|b: int| 0 <= b < s.len() && s[b] == t[j];
        assert(same_shape(s[a], s[b]));
    }
}

/// Type names are unique: two values whose structs agree in shape name by
/// name (as they do in any test that passes the struct coherence check),
/// and whose arrays are non-empty, have the same type name only if they have
/// the same type shape.
pub proof fn lemma_type_name_determines_shape(a: ValModel, b: ValModel)
    requires
        arrays_nonempty(a),
        arrays_nonempty(b),
        coherent(structs_in(a) + structs_in(b)),
        ty_name(a) == ty_name(b),
    ensures
        same_shape(a, b),
    decreases a,
{
    let na = ty_name(a);
    let nb = ty_name(b);
    assert(na[0] == nb[0]);
    match (a, b) {
        (ValModel::Ref(x), ValModel::Ref(y)) => {
            lemma_drop_prefix(seq!['r', 'e', 'f', '_'], ty_name(*x), ty_name(*y));
            lemma_type_name_determines_shape(*x, *y);
        },
        (ValModel::Array(xs), ValModel::Array(ys)) => {
            let p = seq!['a', 'r', 'r', '_'];
            lemma_decimal_digits(xs.len());
            lemma_decimal_digits(ys.len());
            assert(na == p + decimal(xs.len()) + seq!['_'] + ty_name(xs[0]));
            assert(nb == p + decimal(ys.len()) + seq!['_'] + ty_name(ys[0]));
            lemma_split_after_digits(p, decimal(xs.len()), ty_name(xs[0]), decimal(ys.len()), ty_name(ys[0]));
            lemma_decimal_injective(xs.len(), ys.len());
            lemma_all_arrays_nonempty(xs);
            lemma_all_arrays_nonempty(ys);
            lemma_structs_in_all_contains(xs, 0);
            lemma_structs_in_all_contains(ys, 0);
            let s = structs_in(a) + structs_in(b);
            let t = structs_in(xs[0]) + structs_in(ys[0]);
            assert forall|e: ValModel| t.contains(e) implies #[trigger] s.contains(e) by {
                assert(structs_in(a) == structs_in_all(xs));
                assert(structs_in(b) == structs_in_all(ys));
                if structs_in(xs[0]).contains(e) {
                    assert(structs_in_all(xs).contains(e));
                    let k = choose|k: int| 0 <= k < structs_in(a).len() && structs_in(a)[k] == e;
                    assert(s[k] == e);
                } else {
                    let k0 = choose|k: int| 0 <= k < t.len() && t[k] == e;
                    assert(structs_in(ys[0])[k0 - structs_in(xs[0]).len()] == e);
                    assert(structs_in(ys[0]).contains(e));
                    assert(structs_in_all(ys).contains(e));
                    let k = choose|k: int| 0 <= k < structs_in(b).len() && structs_in(b)[k] == e;
                    assert(s[structs_in(a).len() + k] == e);
                }
            }
            lemma_coherent_sub(s, t);
            lemma_type_name_determines_shape(xs[0], ys[0]);
        },
        (ValModel::Struct(n, _), ValModel::Struct(m, _)) => {
            lemma_drop_prefix(seq!['s', 't', 'r', 'u', 'c', 't', '_'], n, m);
            let s = structs_in(a) + structs_in(b);
            assert(s[0] == a);
            assert(s[structs_in(a).len() as int] == b);
        },
        (ValModel::Float(FloatVal::Double(_)), ValModel::Float(FloatVal::Single(_))) => {
            assert(na[1] != nb[1]);
        },
        (ValModel::Float(FloatVal::Single(_)), ValModel::Float(FloatVal::Double(_))) => {
            assert(na[1] != nb[1]);
        },
        (ValModel::Int(i), ValModel::Int(j)) => {},
        _ => {
            lemma_first_char(a);
            lemma_first_char(b);
        },
    }
}

/// The letter that opens the type name of each kind of value.
spec fn kind_letter(v: ValModel) -> char {
    match v {
        ValModel::Ref(_) => 'r',
        ValModel::Ptr(_) => 'p',
        ValModel::Bool(_) => 'b',
        ValModel::Array(_) => 'a',
        ValModel::Struct(_, _) => 's',
        ValModel::Float(_) => 'f',
        ValModel::Int(i) => int_ty_name(i)[0],
    }
}

proof fn lemma_first_char(v: ValModel)
    ensures
        ty_name(v).len() >= 2,
        ty_name(v)[0] == kind_letter(v),
        v is Int ==> (kind_letter(v) == 'i' || kind_letter(v) == 'u'),
{
    match v {
        ValModel::Int(i) => reveal_int_first(i),
        _ => {},
    }
}

proof fn reveal_int_first(i: IntVal)
    ensures
        int_ty_name(i)[0] == 'i' || int_ty_name(i)[0] == 'u',
        int_ty_name(i).len() >= 2,
{
}


/// The values that a subtest passes and returns.
pub open spec fn func_values(f: FuncModel) -> Seq<ValModel> {
    f.inputs + match f.output {
        Some(o) => seq![o],
        None => Seq::empty(),
    }
}

/// The values that a test's subtests pass and return, in order.
pub open spec fn test_values(fs: Seq<FuncModel>) -> Seq<ValModel>
    decreases fs.len(),
{
    if fs.len() == 0 {
        Seq::empty()
    } else {
        test_values(fs.drop_last()) + func_values(fs.last())
    }
}

proof fn lemma_concat_contains<A>(a: Seq<A>, b: Seq<A>, e: A)
    ensures
        (a + b).contains(e) <==> (a.contains(e) || b.contains(e)),
{
    if a.contains(e) {
        let k = choose|k: int| 0 <= k < a.len() && a[k] == e;
        assert((a + b)[k] == e);
    }
    if b.contains(e) {
        let k = choose|k: int| 0 <= k < b.len() && b[k] == e;
        assert((a + b)[a.len() + k] == e);
    }
    if (a + b).contains(e) {
        let k = choose|k: int| 0 <= k < (a + b).len() && (a + b)[k] == e;
        if k < a.len() {
            assert(a[k] == e);
        } else {
            assert(b[k - a.len()] == e);
        }
    }
}

proof fn lemma_value_structs_in_test(fs: Seq<FuncModel>, v: ValModel)
    requires
        test_values(fs).contains(v),
    ensures
        forall|e: ValModel| structs_in(v).contains(e) ==> #[trigger] test_structs(fs).contains(e),
    decreases fs.len(),
{
    let d = fs.drop_last();
    let f = fs.last();
    lemma_concat_contains(test_values(d), func_values(f), v);
    assert forall|e: ValModel| structs_in(v).contains(e) implies #[trigger] test_structs(fs).contains(e) by {
        lemma_concat_contains(test_structs(d), func_structs(f), e);
        if test_values(d).contains(v) {
            lemma_value_structs_in_test(d, v);
            assert(test_structs(d).contains(e));
        } else {
            let out = match f.output {
                Some(o) => seq![o],
                None => Seq::<ValModel>::empty(),
            };
            let tail = match f.output {
                Some(o) => structs_in(o),
                None => Seq::<ValModel>::empty(),
            };
            lemma_concat_contains(f.inputs, out, v);
            lemma_concat_contains(structs_in_all(f.inputs), tail, e);
            if f.inputs.contains(v) {
                let k = choose|k: int| 0 <= k < f.inputs.len() && f.inputs[k] == v;
                lemma_structs_in_all_contains(f.inputs, k);
                assert(structs_in_all(f.inputs).contains(e));
            } else {
                assert(out.contains(v));
                assert(out[0] == v);
            }
            assert(func_structs(f).contains(e));
        }
    }
}

/// Type names are unique within a test: in a test whose structs of one name
/// share a shape (as the struct coherence check establishes), two values
/// passed or returned by its subtests, with non-empty arrays, that have the
/// same type name have the same type shape.
pub proof fn lemma_arg_names_unique_in_test(fs: Seq<FuncModel>, a: ValModel, b: ValModel)
    requires
        coherent(test_structs(fs)),
        test_values(fs).contains(a),
        test_values(fs).contains(b),
        arrays_nonempty(a),
        arrays_nonempty(b),
        ty_name(a) == ty_name(b),
    ensures
        same_shape(a, b),
{
    lemma_value_structs_in_test(fs, a);
    lemma_value_structs_in_test(fs, b);
    let t = structs_in(a) + structs_in(b);
    assert forall|e: ValModel| t.contains(e) implies #[trigger] test_structs(fs).contains(e) by {
        lemma_concat_contains(structs_in(a), structs_in(b), e);
    }
    lemma_coherent_sub(test_structs(fs), t);
    lemma_type_name_determines_shape(a, b);
}

} // verus!
