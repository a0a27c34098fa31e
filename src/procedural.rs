use vstd::prelude::*;
use crate::model::{
    CallingConvention, FloatVal, Func, FuncModel, IntVal, Test, TestModel, Val, ValModel, copy_val,
    funcs_view, lemma_vals_view_map, opt_val_view, vals_view,
};
use crate::naming::{
    arg_ty, arrays_nonempty, decimal, push_decimal, ty_name,
};

verus! {

/// How a stress subtest hands over its generated values: as separate
/// arguments, as the fields of one struct, or as a struct by reference.
#[derive(Clone, Copy, Debug, PartialEq, Eq, Structural)]
pub enum Form {
    Values,
    Struct,
    RefStruct,
}

/// The part of a subtest's name that tells its form.
pub open spec fn form_word(form: Form) -> Seq<char> {
    match form {
        Form::Values => "_val_in_"@,
        Form::Struct => "_struct_in_"@,
        Form::RefStruct => "_ref_struct_in_"@,
    }
}

fn form_str(form: Form) -> (r: &'static str)
    ensures
        r@ == form_word(form),
{
    match form {
        Form::Values => "_val_in_",
        Form::Struct => "_struct_in_",
        Form::RefStruct => "_ref_struct_in_",
    }
}

/// The byte that perturbed argument lists carry besides the tested values.
pub open spec fn marker_byte() -> ValModel {
    ValModel::Int(IntVal::c_uint8_t(0xeb))
}

/// The single-precision number (1234.456, by its bits) that perturbed
/// argument lists carry besides the tested values.
pub open spec fn marker_single() -> ValModel {
    ValModel::Float(FloatVal::Single(0x449a4e98))
}

/// A generated subtest, which asks for every convention.
pub open spec fn subtest(name: Seq<char>, inputs: Seq<ValModel>, output: Option<ValModel>) -> FuncModel {
    FuncModel { name, conventions: seq![CallingConvention::All], inputs, output }
}

/// `n` copies of one value.
pub open spec fn copies(v: ValModel, n: nat) -> Seq<ValModel> {
    Seq::new(n, |_i: int| v)
}

/// `n` copies of a value with the marker byte inserted at `idx`, then the
/// marker number inserted at `n + 1 - idx`.
pub open spec fn perturbed(v: ValModel, n: nat, idx: nat) -> Seq<ValModel> {
    copies(v, n).insert(idx as int, marker_byte()).insert(n + 1 - idx, marker_single())
}

/// The inputs of a stress subtest that hands over `vals` in the given form;
/// `sname` names the struct.
pub open spec fn shaped(form: Form, sname: Seq<char>, vals: Seq<ValModel>) -> Seq<ValModel> {
    match form {
        Form::Values => vals,
        Form::Struct => seq![ValModel::Struct(sname, vals)],
        Form::RefStruct => seq![ValModel::Ref(Box::new(ValModel::Struct(sname, vals)))],
    }
}

/// The stress subtest with `len` copies of `v`.
pub open spec fn stress_subtest(v: ValModel, form: Form, len: nat) -> FuncModel {
    let tn = ty_name(v);
    subtest(
        tn + form_word(form) + decimal(len),
        shaped(form, tn + "_"@ + decimal(len), copies(v, len)),
        None,
    )
}

/// The stress subtests with `lo` to `hi` copies of `v`, in that order.
pub open spec fn stress_subtests(v: ValModel, form: Form, lo: nat, hi: nat) -> Seq<FuncModel> {
    Seq::new((hi + 1 - lo) as nat, |i: int| stress_subtest(v, form, (lo + i) as nat))
}

/// The suffix that tells perturbed subtests apart.
pub open spec fn perturbed_tag(idx: nat, size: Seq<char>) -> Seq<char> {
    decimal(idx) + "_perturbed_"@ + size
}

/// The perturbed subtest with the marker byte at `idx`.
pub open spec fn perturbed_subtest(v: ValModel, form: Form, n: nat, size: Seq<char>, idx: nat) -> FuncModel {
    let tn = ty_name(v);
    let tag = perturbed_tag(idx, size);
    subtest(tn + form_word(form) + tag, shaped(form, tn + "_"@ + tag, perturbed(v, n, idx)), None)
}

/// The perturbed subtests of `n` copies of `v`, the marker byte at each
/// position from 0 to `n`.
pub open spec fn perturbed_subtests(v: ValModel, form: Form, n: nat, size: Seq<char>) -> Seq<FuncModel> {
    Seq::new(n + 1, |i: int| perturbed_subtest(v, form, n, size, i as nat))
}

/// One value in, out, and both, by value and by reference.
pub open spec fn basic_subtests(v: ValModel) -> Seq<FuncModel> {
    let tn = ty_name(v);
    let r = ValModel::Ref(Box::new(v));
    seq![
        subtest(tn + "_val_in"@, seq![v], None),
        subtest(tn + "_val_out"@, Seq::empty(), Some(v)),
        subtest(tn + "_val_in_out"@, seq![v], Some(v)),
        subtest(tn + "_ref_in"@, seq![r], None),
        subtest(tn + "_ref_out"@, Seq::empty(), Some(r)),
        subtest(tn + "_ref_in_out"@, seq![r], Some(r)),
    ]
}

/// Every subtest generated for one value: the basic ones; 2 to 16 arguments;
/// structs of 1 to 16 fields, by value and by reference; and each of these
/// three forms perturbed with 4 and with 16 copies.
pub open spec fn catalog(v: ValModel) -> Seq<FuncModel> {
    basic_subtests(v) + stress_subtests(v, Form::Values, 2, 16) + stress_subtests(v, Form::Struct, 1, 16)
        + stress_subtests(v, Form::RefStruct, 1, 16) + perturbed_subtests(v, Form::Values, 4, "small"@)
        + perturbed_subtests(v, Form::Values, 16, "big"@) + perturbed_subtests(v, Form::Struct, 4, "small"@)
        + perturbed_subtests(v, Form::Struct, 16, "big"@) + perturbed_subtests(v, Form::RefStruct, 4, "small"@)
        + perturbed_subtests(v, Form::RefStruct, 16, "big"@)
}

/// The catalogs of several values, one after the other.
pub open spec fn catalogs(vals: Seq<ValModel>) -> Seq<FuncModel>
    decreases vals.len(),
{
    if vals.len() == 0 {
        Seq::empty()
    } else {
        catalogs(vals.drop_last()) + catalog(vals.last())
    }
}

fn push_subtest(funcs: &mut Vec<Func>, name: String, inputs: Vec<Val>, output: Option<Val>)
    ensures
        funcs_view(final(funcs)@) == funcs_view(old(funcs)@).push(
            subtest(name@, vals_view(inputs@), opt_val_view(output)),
        ),
{
    let mut conventions: Vec<CallingConvention> = Vec::new();
    conventions.push(CallingConvention::All);
    assert(conventions@ =~= seq![CallingConvention::All]);
    let ghost f0 = funcs@;
    funcs.push(Func { name, conventions, inputs, output });
    assert(funcs_view(funcs@) =~= funcs_view(f0).push(
        subtest(name@, vals_view(inputs@), opt_val_view(output)),
    ));
}

fn make_copies(v: &Val, n: usize) -> (r: Vec<Val>)
    ensures
        r@.len() == n,
        vals_view(r@) == copies(v.view(), n as nat),
{
    let mut r: Vec<Val> = Vec::new();
    let mut i: usize = 0;
    while i < n
        invariant
            i <= n,
            r@.len() == i,
            forall|j: int| 0 <= j < i ==> #[trigger] r@[j].view() == v.view(),
        decreases n - i,
    {
        r.push(copy_val(v));
        i = i + 1;
    }
    proof {
        lemma_vals_view_map(r@);
        assert(r@.map_values(|x: Val| x.view()) =~= copies(v.view(), n as nat));
    }
    r
}

fn make_perturbed(v: &Val, n: usize, idx: usize) -> (r: Vec<Val>)
    requires
        idx <= n < usize::MAX,
    ensures
        vals_view(r@) == perturbed(v.view(), n as nat, idx as nat),
{
    let mut r = make_copies(v, n);
    let ghost r0 = r@;
    proof {
        lemma_vals_view_map(r0);
    }
    r.insert(idx, Val::Int(IntVal::c_uint8_t(0xeb)));
    let ghost r1 = r@;
    r.insert(n - idx + 1, Val::Float(FloatVal::Single(0x449a4e98)));
    proof {
        lemma_vals_view_map(r@);
        let c = copies(v.view(), n as nat);
        assert(r0.map_values(|x: Val| x.view()) == c);
        assert(r1.map_values(|x: Val| x.view()) =~= c.insert(idx as int, marker_byte()));
        assert(r@.map_values(|x: Val| x.view()) =~= perturbed(v.view(), n as nat, idx as nat));
    }
    r
}

fn one_val(v: Val) -> (r: Vec<Val>)
    ensures
        vals_view(r@) == seq![v.view()],
{
    let mut r: Vec<Val> = Vec::new();
    r.push(v);
    proof {
        lemma_vals_view_map(r@);
        assert(r@.map_values(|x: Val| x.view()) =~= seq![v.view()]);
    }
    r
}

fn shaped_inputs(form: Form, sname: String, vals: Vec<Val>) -> (r: Vec<Val>)
    ensures
        vals_view(r@) == shaped(form, sname@, vals_view(vals@)),
{
    match form {
        Form::Values => vals,
        Form::Struct => one_val(Val::Struct(sname, vals)),
        Form::RefStruct => one_val(Val::Ref(Box::new(Val::Struct(sname, vals)))),
    }
}


fn push_stress(funcs: &mut Vec<Func>, v: &Val, tn: &String, form: Form, lo: usize, hi: usize)
    requires
        tn@ == ty_name(v.view()),
        lo <= hi < usize::MAX,
    ensures
        funcs_view(final(funcs)@) == funcs_view(old(funcs)@) + stress_subtests(
            v.view(),
            form,
            lo as nat,
            hi as nat,
        ),
{
    let ghost f0 = funcs_view(funcs@);
    let ghost all = stress_subtests(v.view(), form, lo as nat, hi as nat);
    let mut len: usize = lo;
    while len <= hi
        invariant
            lo <= len <= hi + 1,
            hi < usize::MAX,
            tn@ == ty_name(v.view()),
            all == stress_subtests(v.view(), form, lo as nat, hi as nat),
            funcs_view(funcs@) == f0 + all.take(len - lo),
        decreases hi + 1 - len,
    {
        let mut name = tn.clone();
        name.append(form_str(form));
        push_decimal(&mut name, len);
        let mut sname = tn.clone();
        sname.append("_");
        push_decimal(&mut sname, len);
        let inputs = shaped_inputs(form, sname, make_copies(v, len));
        push_subtest(funcs, name, inputs, None);
        assert(all[len - lo] == stress_subtest(v.view(), form, len as nat));
        assert(all.take(len + 1 - lo) =~= all.take(len - lo).push(all[len - lo]));
        len = len + 1;
    }
    assert(all.take(len - lo) =~= all);
}

fn push_perturbed(funcs: &mut Vec<Func>, v: &Val, tn: &String, form: Form, n: usize, size: &str)
    requires
        tn@ == ty_name(v.view()),
        n < usize::MAX - 1,
    ensures
        funcs_view(final(funcs)@) == funcs_view(old(funcs)@) + perturbed_subtests(
            v.view(),
            form,
            n as nat,
            size@,
        ),
{
    let ghost f0 = funcs_view(funcs@);
    let ghost all = perturbed_subtests(v.view(), form, n as nat, size@);
    let mut idx: usize = 0;
    while idx <= n
        invariant
            idx <= n + 1,
            n < usize::MAX - 1,
            tn@ == ty_name(v.view()),
            all == perturbed_subtests(v.view(), form, n as nat, size@),
            funcs_view(funcs@) == f0 + all.take(idx as int),
        decreases n + 1 - idx,
    {
        let mut tag = String::new();
        push_decimal(&mut tag, idx);
        tag.append("_perturbed_");
        tag.append(size);
        let mut name = tn.clone();
        name.append(form_str(form));
        name.append(tag.as_str());
        let mut sname = tn.clone();
        sname.append("_");
        sname.append(tag.as_str());
        assert(tag@ =~= perturbed_tag(idx as nat, size@));
        assert(name@ =~= ty_name(v.view()) + form_word(form) + perturbed_tag(idx as nat, size@));
        assert(sname@ =~= ty_name(v.view()) + "_"@ + perturbed_tag(idx as nat, size@));
        let inputs = shaped_inputs(form, sname, make_perturbed(v, n, idx));
        push_subtest(funcs, name, inputs, None);
        assert(all[idx as int] == perturbed_subtest(v.view(), form, n as nat, size@, idx as nat));
        assert(all.take(idx + 1) =~= all.take(idx as int).push(all[idx as int]));
        idx = idx + 1;
    }
    assert(all.take(idx as int) =~= all);
}

fn push_basics(funcs: &mut Vec<Func>, v: &Val, tn: &String)
    requires
        tn@ == ty_name(v.view()),
    ensures
        funcs_view(final(funcs)@) == funcs_view(old(funcs)@) + basic_subtests(v.view()),
{
    let ghost f0 = funcs_view(funcs@);
    let ghost r = ValModel::Ref(Box::new(v.view()));
    let mut name = tn.clone();
    name.append("_val_in");
    push_subtest(funcs, name, one_val(copy_val(v)), None);
    let mut name = tn.clone();
    name.append("_val_out");
    let none: Vec<Val> = Vec::new();
    assert(vals_view(none@) =~= Seq::<ValModel>::empty());
    push_subtest(funcs, name, none, Some(copy_val(v)));
    let mut name = tn.clone();
    name.append("_val_in_out");
    push_subtest(funcs, name, one_val(copy_val(v)), Some(copy_val(v)));
    let mut name = tn.clone();
    name.append("_ref_in");
    push_subtest(funcs, name, one_val(Val::Ref(Box::new(copy_val(v)))), None);
    let mut name = tn.clone();
    name.append("_ref_out");
    let none: Vec<Val> = Vec::new();
    assert(vals_view(none@) =~= Seq::<ValModel>::empty());
    push_subtest(funcs, name, none, Some(Val::Ref(Box::new(copy_val(v)))));
    let mut name = tn.clone();
    name.append("_ref_in_out");
    push_subtest(
        funcs,
        name,
        one_val(Val::Ref(Box::new(copy_val(v)))),
        Some(Val::Ref(Box::new(copy_val(v)))),
    );
    assert(funcs_view(funcs@) =~= f0 + basic_subtests(v.view()));
}

fn push_catalog(funcs: &mut Vec<Func>, v: &Val, tn: &String)
    requires
        tn@ == ty_name(v.view()),
    ensures
        funcs_view(final(funcs)@) == funcs_view(old(funcs)@) + catalog(v.view()),
{
    let ghost f0 = funcs_view(funcs@);
    push_basics(funcs, v, tn);
    push_stress(funcs, v, tn, Form::Values, 2, 16);
    push_stress(funcs, v, tn, Form::Struct, 1, 16);
    push_stress(funcs, v, tn, Form::RefStruct, 1, 16);
    push_perturbed(funcs, v, tn, Form::Values, 4, "small");
    push_perturbed(funcs, v, tn, Form::Values, 16, "big");
    push_perturbed(funcs, v, tn, Form::Struct, 4, "small");
    push_perturbed(funcs, v, tn, Form::Struct, 16, "big");
    push_perturbed(funcs, v, tn, Form::RefStruct, 4, "small");
    push_perturbed(funcs, v, tn, Form::RefStruct, 16, "big");
    assert(funcs_view(funcs@) =~= f0 + catalog(v.view()));
}

/// Builds the test named `name` that runs the full catalog of generated
/// subtests for each of `vals`, in order.
pub fn procedural_test(name: &str, vals: &Vec<Val>) -> (r: Test)
    requires
        forall|i: int| 0 <= i < vals@.len() ==> #[trigger] arrays_nonempty(vals@[i].view()),
    ensures
        r.view() == (TestModel { name: name@, funcs: catalogs(vals_view(vals@)) }),
{
    let mut funcs: Vec<Func> = Vec::new();
    let mut i: usize = 0;
    assert(funcs_view(funcs@) =~= catalogs(vals_view(vals@.take(0))));
    while i < vals.len()
        invariant
            i <= vals@.len(),
            forall|j: int| 0 <= j < vals@.len() ==> #[trigger] arrays_nonempty(vals@[j].view()),
            funcs_view(funcs@) == catalogs(vals_view(vals@.take(i as int))),
        decreases vals@.len() - i,
    {
        let tn = arg_ty(&vals[i]);
        push_catalog(&mut funcs, &vals[i], &tn);
        assert(vals@.take(i + 1).drop_last() =~= vals@.take(i as int));
        assert(vals@.take(i + 1).last() == vals@[i as int]);
        let ghost pre = vals_view(vals@.take(i as int));
        let ghost now = vals_view(vals@.take(i + 1));
        assert(now == pre.push(vals@[i as int].view()));
        assert(now.drop_last() =~= pre);
        assert(catalogs(now) == catalogs(pre) + catalog(vals@[i as int].view()));
        i = i + 1;
    }
    assert(vals@.take(i as int) =~= vals@);
    Test { name: String::from_str(name), funcs }
}

} // verus!
