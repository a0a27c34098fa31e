use vstd::prelude::*;

verus! {

/// An integer literal, tagged with its C type.
#[allow(non_camel_case_types)]
#[derive(Clone, Copy, Debug, PartialEq, Eq, Structural)]
pub enum IntVal {
    c__int128(i128),
    c_int64_t(i64),
    c_int32_t(i32),
    c_int16_t(i16),
    c_int8_t(i8),
    c__uint128(u128),
    c_uint64_t(u64),
    c_uint32_t(u32),
    c_uint16_t(u16),
    c_uint8_t(u8),
}

/// A floating-point literal, tagged with its C type and held as its IEEE-754
/// bit pattern: the sides are compared bit for bit.
#[derive(Clone, Copy, Debug, PartialEq, Eq, Structural)]
pub enum FloatVal {
    Double(u64),
    Single(u32),
}

/// A named variant of an ABI. `All` stands for every convention a backend
/// supports; `Handwritten` asks for no generation at all.
#[derive(Clone, Copy, Debug, PartialEq, Eq, Structural)]
pub enum CallingConvention {
    C,
    Rust,
    Fastcall,
    Stdcall,
    Vectorcall,
    Handwritten,
    All,
}

/// A typed value literal that crosses a function boundary.
#[derive(Debug)]
pub enum Val {
    Int(IntVal),
    Float(FloatVal),
    Bool(bool),
    /// An opaque pointer-sized integer, passed as a pointer.
    Ptr(u64),
    /// A non-empty sequence of values of one shape.
    Array(Vec<Val>),
    /// A named aggregate and its fields, in order.
    Struct(String, Vec<Val>),
    /// The inner value, passed by reference.
    Ref(Box<Val>),
}

/// A value literal as a mathematical value.
pub enum ValModel {
    Int(IntVal),
    Float(FloatVal),
    Bool(bool),
    Ptr(u64),
    Array(Seq<ValModel>),
    Struct(Seq<char>, Seq<ValModel>),
    Ref(Box<ValModel>),
}

/// One subtest: a function, the conventions to call it with, its arguments
/// and its return value.
#[derive(Debug)]
pub struct Func {
    pub name: String,
    pub conventions: Vec<CallingConvention>,
    pub inputs: Vec<Val>,
    pub output: Option<Val>,
}

/// A subtest as a mathematical value.
pub struct FuncModel {
    pub name: Seq<char>,
    pub conventions: Seq<CallingConvention>,
    pub inputs: Seq<ValModel>,
    pub output: Option<ValModel>,
}

/// A test: a name and its subtests.
#[derive(Debug)]
pub struct Test {
    pub name: String,
    pub funcs: Vec<Func>,
}

/// A test as a mathematical value.
pub struct TestModel {
    pub name: Seq<char>,
    pub funcs: Seq<FuncModel>,
}

/// The models of a sequence of values, one for one.
pub open spec fn vals_view(s: Seq<Val>) -> Seq<ValModel>
    decreases s,
{
    if s.len() == 0 {
        Seq::empty()
    } else {
        vals_view(s.drop_last()).push(s.last().view())
    }
}

impl Val {
    /// The value as a mathematical value.
    pub open spec fn view(&self) -> ValModel
        decreases self,
    {
        match self {
            Val::Int(i) => ValModel::Int(*i),
            Val::Float(f) => ValModel::Float(*f),
            Val::Bool(b) => ValModel::Bool(*b),
            Val::Ptr(p) => ValModel::Ptr(*p),
            Val::Array(v) => ValModel::Array(vals_view(v@)),
            Val::Struct(n, v) => ValModel::Struct(n@, vals_view(v@)),
            Val::Ref(b) => ValModel::Ref(Box::new((**b).view())),
        }
    }
}

/// The models of a sequence of values have its length, and each is the model
/// of the value at its position.
pub proof fn lemma_vals_view(s: Seq<Val>)
    ensures
        vals_view(s).len() == s.len(),
        forall|i: int| 0 <= i < s.len() ==> #[trigger] vals_view(s)[i] == s[i].view(),
    decreases s.len(),
{
    if s.len() > 0 {
        lemma_vals_view(s.drop_last());
    }
}

/// The model of an optional value.
pub open spec fn opt_val_view(o: Option<Val>) -> Option<ValModel> {
    match o {
        Some(v) => Some(v.view()),
        None => None,
    }
}

impl Func {
    /// The subtest as a mathematical value.
    pub open spec fn view(&self) -> FuncModel {
        FuncModel {
            name: self.name@,
            conventions: self.conventions@,
            inputs: vals_view(self.inputs@),
            output: opt_val_view(self.output),
        }
    }
}

/// The models of a sequence of subtests, one for one.
pub open spec fn funcs_view(fs: Seq<Func>) -> Seq<FuncModel> {
    fs.map_values(|f: Func| f.view())
}

impl Test {
    /// The test as a mathematical value.
    pub open spec fn view(&self) -> TestModel {
        TestModel { name: self.name@, funcs: funcs_view(self.funcs@) }
    }
}


/// The models of a sequence of values are the values' models, one for one.
pub proof fn lemma_vals_view_map(s: Seq<Val>)
    ensures
        vals_view(s) == s.map_values(|x: Val| x.view()),
{
    lemma_vals_view(s);
    assert(vals_view(s) =~= s.map_values(|x: Val| x.view()));
}

/// A copy of a value, field by field.
pub fn copy_val(v: &Val) -> (r: Val)
    ensures
        r.view() == v.view(),
    decreases v,
{
    match v {
        Val::Int(i) => Val::Int(*i),
        Val::Float(f) => Val::Float(*f),
        Val::Bool(b) => Val::Bool(*b),
        Val::Ptr(p) => Val::Ptr(*p),
        Val::Array(vs) => Val::Array(copy_vals(vs)),
        Val::Struct(n, vs) => Val::Struct(n.clone(), copy_vals(vs)),
        Val::Ref(x) => Val::Ref(Box::new(copy_val(x))),
    }
}

/// A copy of a sequence of values, element by element.
pub fn copy_vals(vs: &Vec<Val>) -> (r: Vec<Val>)
    ensures
        vals_view(r@) == vals_view(vs@),
    decreases vs,
{
    let mut r: Vec<Val> = Vec::new();
    let mut i: usize = 0;
    while i < vs.len()
        invariant
            i <= vs@.len(),
            r@.len() == i,
            r@.map_values(|x: Val| x.view()) == vs@.take(i as int).map_values(|x: Val| x.view()),
        decreases vs@.len() - i,
    {
        let ghost r0 = r@;
        let c = copy_val(&vs[i]);
        r.push(c);
        i = i + 1;
        assert forall|j: int| 0 <= j < i implies #[trigger] r@[j].view() == vs@[j].view() by {
            if j < i - 1 {
                assert(r0.map_values(|x: Val| x.view())[j] == vs@.take(i - 1).map_values(
                    |x: Val| x.view(),
                )[j]);
            }
        }
        assert(r@.map_values(|x: Val| x.view()) =~= vs@.take(i as int).map_values(|x: Val| x.view()));
    }
    proof {
        lemma_vals_view_map(r@);
        lemma_vals_view_map(vs@);
        assert(vs@.take(i as int) =~= vs@);
    }
    r
}

} // verus!
