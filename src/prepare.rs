use vstd::prelude::*;
use crate::error::BuildError;
use crate::model::{CallingConvention, Func, FuncModel, Test, Val, ValModel, funcs_view, lemma_vals_view, vals_view};
use crate::shape::{decl, lemma_same_shape_refl, lemma_same_shape_sym, render_decl, same_shape, shapes_match};

verus! {


/// Whether a subtest asks for the handwritten sources.
pub open spec fn uses_handwritten(f: FuncModel) -> bool {
    f.conventions.contains(CallingConvention::Handwritten)
}

/// Whether some subtest of a test asks for the handwritten sources.
pub open spec fn some_handwritten(fs: Seq<FuncModel>) -> bool {
    exists|i: int| 0 <= i < fs.len() && #[trigger] uses_handwritten(fs[i])
}

/// Whether every subtest of a test asks for the handwritten sources.
pub open spec fn all_handwritten(fs: Seq<FuncModel>) -> bool {
    forall|i: int| 0 <= i < fs.len() ==> #[trigger] uses_handwritten(fs[i])
}

fn func_uses_handwritten(f: &Func) -> (r: bool)
    ensures
        r == uses_handwritten(f.view()),
{
    let mut i: usize = 0;
    while i < f.conventions.len()
        invariant
            i <= f.conventions@.len(),
            forall|j: int| 0 <= j < i ==> f.conventions@[j] != CallingConvention::Handwritten,
        decreases f.conventions@.len() - i,
    {
        if f.conventions[i] == CallingConvention::Handwritten {
            assert(f.conventions@[i as int] == CallingConvention::Handwritten);
            return true;
        }
        i = i + 1;
    }
    false
}

/// Decides whether a test runs on handwritten sources (`Ok(true)`) or on
/// generated ones (`Ok(false)`). A test in which the handwritten convention
/// is present in some subtests but not in all is refused.
pub fn handwritten_mode(test: &Test) -> (r: Result<bool, BuildError>)
    ensures
        r is Err <==> (some_handwritten(test.view().funcs) && !all_handwritten(test.view().funcs)),
        r is Err ==> r == Err::<bool, BuildError>(BuildError::HandwrittenMixing),
        r is Ok ==> r == Ok::<bool, BuildError>(some_handwritten(test.view().funcs)),
{
    let ghost fs = test.view().funcs;
    let mut any = false;
    let mut all = true;
    let mut i: usize = 0;
    while i < test.funcs.len()
        invariant
            fs == funcs_view(test.funcs@),
            i <= test.funcs@.len(),
            any == (exists|j: int| 0 <= j < i && #[trigger] uses_handwritten(fs[j])),
            all == (forall|j: int| 0 <= j < i ==> #[trigger] uses_handwritten(fs[j])),
        decreases test.funcs@.len() - i,
    {
        let u = func_uses_handwritten(&test.funcs[i]);
        assert(fs[i as int] == test.funcs@[i as int].view());
        if u {
            any = true;
        } else {
            all = false;
        }
        i = i + 1;
    }
    if any && !all {
        Err(BuildError::HandwrittenMixing)
    } else {
        Ok(any)
    }
}


/// Every struct value inside a value, itself included, in pre-order.
pub open spec fn structs_in(v: ValModel) -> Seq<ValModel>
    decreases v,
{
    match v {
        ValModel::Struct(_, fs) => seq![v] + structs_in_all(fs),
        ValModel::Array(vs) => structs_in_all(vs),
        ValModel::Ref(x) => structs_in(*x),
        _ => Seq::empty(),
    }
}

/// Every struct value inside a sequence of values, in order.
pub open spec fn structs_in_all(s: Seq<ValModel>) -> Seq<ValModel>
    decreases s,
{
    if s.len() == 0 {
        Seq::empty()
    } else {
        structs_in_all(s.drop_last()) + structs_in(s.last())
    }
}

/// Every struct value in a subtest: in its inputs, then in its output.
pub open spec fn func_structs(f: FuncModel) -> Seq<ValModel> {
    structs_in_all(f.inputs) + match f.output {
        Some(o) => structs_in(o),
        None => Seq::empty(),
    }
}

/// Every struct value in a test's subtests, in order.
pub open spec fn test_structs(fs: Seq<FuncModel>) -> Seq<ValModel>
    decreases fs.len(),
{
    if fs.len() == 0 {
        Seq::empty()
    } else {
        test_structs(fs.drop_last()) + func_structs(fs.last())
    }
}

/// The name of a struct value; `None` for any other value.
pub open spec fn struct_name(v: ValModel) -> Option<Seq<char>> {
    match v {
        ValModel::Struct(n, _) => Some(n),
        _ => None,
    }
}

/// Whether two values are structs of one name.
pub open spec fn same_struct_name(a: ValModel, b: ValModel) -> bool {
    struct_name(a) is Some && struct_name(a) == struct_name(b)
}

/// Whether all structs of one name have the same shape.
pub open spec fn coherent(s: Seq<ValModel>) -> bool {
    forall|i: int, j: int|
        0 <= i < s.len() && 0 <= j < s.len() && same_struct_name(s[i], s[j]) ==> same_shape(
            #[trigger] s[i],
            #[trigger] s[j],
        )
}

/// The models of a sequence of borrowed values.
pub open spec fn refs_view(s: Seq<&Val>) -> Seq<ValModel> {
    s.map_values(|r: &Val| r.view())
}

fn collect_structs<'a>(v: &'a Val, out: &mut Vec<&'a Val>)
    ensures
        refs_view(final(out)@) == refs_view(old(out)@) + structs_in(v.view()),
    decreases v,
{
    let ghost o0 = refs_view(out@);
    match v {
        Val::Struct(_, fs) => {
            out.push(v);
            assert(refs_view(out@) =~= o0 + seq![v.view()]);
            collect_all_structs(fs, out);
            assert(refs_view(out@) =~= o0 + structs_in(v.view()));
        },
        Val::Array(vs) => {
            collect_all_structs(vs, out);
        },
        Val::Ref(x) => {
            collect_structs(x, out);
        },
        _ => {
            assert(refs_view(out@) =~= o0 + structs_in(v.view()));
        },
    }
}

fn collect_all_structs<'a>(vs: &'a Vec<Val>, out: &mut Vec<&'a Val>)
    ensures
        refs_view(final(out)@) == refs_view(old(out)@) + structs_in_all(vals_view(vs@)),
    decreases vs,
{
    proof {
        lemma_vals_view(vs@);
    }
    let ghost o0 = refs_view(out@);
    let ghost vv = vals_view(vs@);
    let mut i: usize = 0;
    assert(refs_view(out@) =~= o0 + structs_in_all(vv.take(0)));
    while i < vs.len()
        invariant
            vv == vals_view(vs@),
            vv.len() == vs@.len(),
            forall|k: int| 0 <= k < vs@.len() ==> #[trigger] vv[k] == vs@[k].view(),
            i <= vs@.len(),
            refs_view(out@) == o0 + structs_in_all(vv.take(i as int)),
        decreases vs@.len() - i,
    {
        collect_structs(&vs[i], out);
        assert(vv.take(i + 1).drop_last() =~= vv.take(i as int));
        assert(refs_view(out@) =~= o0 + structs_in_all(vv.take(i + 1)));
        i = i + 1;
    }
    assert(vv.take(i as int) =~= vv);
}

fn collect_test_structs<'a>(test: &'a Test) -> (r: Vec<&'a Val>)
    ensures
        refs_view(r@) == test_structs(test.view().funcs),
{
    let ghost fs = test.view().funcs;
    let mut out: Vec<&'a Val> = Vec::new();
    let mut i: usize = 0;
    assert(refs_view(out@) =~= test_structs(fs.take(0)));
    while i < test.funcs.len()
        invariant
            fs == funcs_view(test.funcs@),
            i <= test.funcs@.len(),
            refs_view(out@) == test_structs(fs.take(i as int)),
        decreases test.funcs@.len() - i,
    {
        let f = &test.funcs[i];
        let ghost o0 = refs_view(out@);
        collect_all_structs(&f.inputs, &mut out);
        match &f.output {
            Some(o) => collect_structs(o, &mut out),
            None => {},
        }
        assert(fs[i as int] == f.view());
        assert(fs.take(i + 1).drop_last() =~= fs.take(i as int));
        assert(refs_view(out@) =~= o0 + func_structs(f.view()));
        i = i + 1;
    }
    assert(fs.take(i as int) =~= fs);
    out
}

/// Checks that all structs of one name in a test, at any depth, have the same
/// shape. On the first struct whose shape differs from an earlier one of its
/// name, reports the name and both declarations.
pub fn check_struct_coherence(test: &Test) -> (r: Result<(), BuildError>)
    ensures
        r is Ok <==> coherent(test_structs(test.view().funcs)),
        match r {
            Ok(_) => true,
            Err(BuildError::InconsistentStructDefinition { name, old_decl, new_decl }) => {
                let s = test_structs(test.view().funcs);
                exists|i: int, j: int|
                    0 <= j < i < s.len() && same_struct_name(#[trigger] s[i], #[trigger] s[j])
                        && !same_shape(s[j], s[i]) && struct_name(s[i]) == Some(name@) && old_decl@
                        == decl(s[j]) && new_decl@ == decl(s[i])
            },
            Err(_) => false,
        },
{
    let structs = collect_test_structs(test);
    let ghost s = refs_view(structs@);
    let mut i: usize = 0;
    while i < structs.len()
        invariant
            s == refs_view(structs@),
            s == test_structs(test.view().funcs),
            i <= structs@.len(),
            forall|a: int, b: int|
                0 <= b < a < i && same_struct_name(#[trigger] s[a], #[trigger] s[b])
                    ==> same_shape(s[b], s[a]),
        decreases structs@.len() - i,
    {
        let mut j: usize = 0;
        while j < i
            invariant
                s == refs_view(structs@),
                s == test_structs(test.view().funcs),
                i < structs@.len(),
                j <= i,
                forall|a: int, b: int|
                    0 <= b < a < i && same_struct_name(#[trigger] s[a], #[trigger] s[b])
                        ==> same_shape(s[b], s[a]),
                forall|b: int|
                    0 <= b < j && same_struct_name(s[i as int], #[trigger] s[b])
                        ==> same_shape(s[b], s[i as int]),
            decreases i - j,
        {
            let a = structs[i];
            let b = structs[j];
            assert(s[i as int] == a.view());
            assert(s[j as int] == b.view());
            let same_name = match (a, b) {
                (Val::Struct(n, _), Val::Struct(m, _)) => n.eq(m),
                _ => false,
            };
            if same_name && !shapes_match(b, a) {
                let name = match a {
                    Val::Struct(n, _) => n.clone(),
                    _ => String::new(),
                };
                let old_decl = render_decl(b);
                let new_decl = render_decl(a);
                proof {
                    if same_shape(s[i as int], s[j as int]) {
                        lemma_same_shape_sym(s[i as int], s[j as int]);
                    }
                    assert(!same_shape(s[i as int], s[j as int]));
                    assert(!coherent(s));
                    assert(struct_name(s[i as int]) == Some(name@));
                    assert(old_decl@ == decl(s[j as int]));
                }
                return Err(BuildError::InconsistentStructDefinition { name, old_decl, new_decl });
            }
            j = j + 1;
        }
        i = i + 1;
    }
    assert forall|a: int, b: int|
        0 <= a < s.len() && 0 <= b < s.len() && same_struct_name(s[a], s[b]) implies same_shape(
        #[trigger] s[a],
        #[trigger] s[b],
    ) by {
        if a == b {
            lemma_same_shape_refl(s[a]);
        } else if a < b {
            assert(same_shape(s[a], s[b]));
        } else {
            assert(same_shape(s[b], s[a]));
            lemma_same_shape_sym(s[b], s[a]);
        }
    }
    Ok(())
}


} // verus!
