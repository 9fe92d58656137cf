use vstd::prelude::*;

use crate::span::Span;

verus! {

broadcast use vstd::std_specs::vec::group_vec_axioms;

/// A handle into the type context: the index of one type variable.
#[derive(Debug, Clone, Copy, PartialEq, Eq, Structural, Hash)]
pub struct Ty(pub usize);

impl Default for Ty {
    /// The handle that no context ever issues.
    fn default() -> (r: Ty)
        ensures
            r.0 == usize::MAX,
    {
        Ty(usize::MAX)
    }
}

impl Ty {
    /// The handle that no context ever issues.
    pub fn unknown() -> (r: Ty)
        ensures
            r.0 == usize::MAX,
    {
        Ty(usize::MAX)
    }

    /// The type that stands for this variable.
    pub fn kind(&self) -> (r: TyKind)
        ensures
            r@ == Shape::Var(self.0),
    {
        TyKind::Var(*self)
    }
}

#[derive(Debug, Clone, Copy, PartialEq, Eq, Structural)]
pub enum IntTy {
    I8,
    I16,
    I32,
    I64,
    Int,
}

#[derive(Debug, Clone, Copy, PartialEq, Eq, Structural)]
pub enum UIntTy {
    U8,
    U16,
    U32,
    U64,
    UInt,
}

#[derive(Debug, Clone, Copy, PartialEq, Eq, Structural)]
pub enum FloatTy {
    F16,
    F32,
    F64,
    Float,
}

#[derive(Debug, Clone, Copy, PartialEq, Eq, Structural)]
pub enum StructTyKind {
    Struct,
    PackedStruct,
    Union,
}

#[derive(Debug)]
pub struct FnTy {
    pub params: Vec<TyKind>,
    pub ret: Box<TyKind>,
    pub variadic: bool,
}

#[derive(Debug)]
pub struct StructTyField {
    pub symbol: String,
    pub ty: TyKind,
    pub span: Span,
}

#[derive(Debug)]
pub struct StructTy {
    pub name: String,
    pub binding_info_id: usize,
    pub fields: Vec<StructTyField>,
    pub kind: StructTyKind,
}

/// The fields known so far of a struct whose full type is not yet known.
#[derive(Debug)]
pub struct PartialStructTy(pub Vec<(String, TyKind)>);

#[derive(Debug)]
pub enum InferTy {
    AnyInt,
    AnyFloat,
    PartialStruct(PartialStructTy),
    PartialTuple(Vec<TyKind>),
}

#[derive(Debug)]
pub enum TyKind {
    Never,
    Unit,
    Bool,
    Int(IntTy),
    UInt(UIntTy),
    Float(FloatTy),
    Pointer(Box<TyKind>, bool),
    MultiPointer(Box<TyKind>, bool),
    Fn(FnTy),
    Array(Box<TyKind>, usize),
    Slice(Box<TyKind>, bool),
    Tuple(Vec<TyKind>),
    Struct(StructTy),
    Module(usize),
    Type(Box<TyKind>),
    Var(Ty),
    Infer(Ty, InferTy),
    Unknown,
}

/// The mathematical shape of a type: what a `TyKind` means, with names as
/// character sequences and element lists as sequences.
pub enum Shape {
    Never,
    Unit,
    Bool,
    Int(IntTy),
    UInt(UIntTy),
    Float(FloatTy),
    Pointer(Box<Shape>, bool),
    MultiPointer(Box<Shape>, bool),
    Fn(Seq<Shape>, Box<Shape>, bool),
    Array(Box<Shape>, usize),
    Slice(Box<Shape>, bool),
    Tuple(Seq<Shape>),
    Struct(Seq<char>, StructTyKind, Seq<(Seq<char>, Shape)>),
    Module(usize),
    Type(Box<Shape>),
    Var(usize),
    AnyInt(usize),
    AnyFloat(usize),
    PartialStruct(usize, Seq<(Seq<char>, Shape)>),
    PartialTuple(usize, Seq<Shape>),
    Unknown,
}

pub open spec fn shape_of(t: TyKind) -> Shape
    decreases t, 0nat,
{
    match t {
        TyKind::Never => Shape::Never,
        TyKind::Unit => Shape::Unit,
        TyKind::Bool => Shape::Bool,
        TyKind::Int(w) => Shape::Int(w),
        TyKind::UInt(w) => Shape::UInt(w),
        TyKind::Float(w) => Shape::Float(w),
        TyKind::Pointer(inner, m) => Shape::Pointer(Box::new(shape_of(*inner)), m),
        TyKind::MultiPointer(inner, m) => Shape::MultiPointer(Box::new(shape_of(*inner)), m),
        TyKind::Fn(f) => Shape::Fn(shapes_of(f.params@), Box::new(shape_of(*f.ret)), f.variadic),
        TyKind::Array(inner, n) => Shape::Array(Box::new(shape_of(*inner)), n),
        TyKind::Slice(inner, m) => Shape::Slice(Box::new(shape_of(*inner)), m),
        TyKind::Tuple(elems) => Shape::Tuple(shapes_of(elems@)),
        TyKind::Struct(st) => Shape::Struct(st.name@, st.kind, fields_of(st.fields@)),
        TyKind::Module(id) => Shape::Module(id),
        TyKind::Type(inner) => Shape::Type(Box::new(shape_of(*inner))),
        TyKind::Var(v) => Shape::Var(v.0),
        TyKind::Infer(v, InferTy::AnyInt) => Shape::AnyInt(v.0),
        TyKind::Infer(v, InferTy::AnyFloat) => Shape::AnyFloat(v.0),
        TyKind::Infer(v, InferTy::PartialStruct(p)) => Shape::PartialStruct(v.0, named_of(p.0@)),
        TyKind::Infer(v, InferTy::PartialTuple(elems)) => Shape::PartialTuple(v.0, shapes_of(elems@)),
        TyKind::Unknown => Shape::Unknown,
    }
}

pub open spec fn shapes_of(s: Seq<TyKind>) -> Seq<Shape>
    decreases s, 1nat,
{
    if s.len() == 0 {
        Seq::empty()
    } else {
        shapes_of(s.drop_last()).push(shape_of(s.last()))
    }
}

pub open spec fn fields_of(s: Seq<StructTyField>) -> Seq<(Seq<char>, Shape)>
    decreases s, 1nat,
{
    if s.len() == 0 {
        Seq::empty()
    } else {
        fields_of(s.drop_last()).push((s.last().symbol@, shape_of(s.last().ty)))
    }
}

pub open spec fn named_of(s: Seq<(String, TyKind)>) -> Seq<(Seq<char>, Shape)>
    decreases s, 1nat,
{
    if s.len() == 0 {
        Seq::empty()
    } else {
        named_of(s.drop_last()).push((s.last().0@, shape_of(s.last().1)))
    }
}

/// Whether `t` holds no type variable of any kind.
pub open spec fn var_free(t: Shape) -> bool
    decreases t,
{
    match t {
        Shape::Var(_) => false,
        Shape::AnyInt(_) => false,
        Shape::AnyFloat(_) => false,
        Shape::PartialStruct(..) => false,
        Shape::PartialTuple(..) => false,
        Shape::Pointer(inner, _) => var_free(*inner),
        Shape::MultiPointer(inner, _) => var_free(*inner),
        Shape::Array(inner, _) => var_free(*inner),
        Shape::Slice(inner, _) => var_free(*inner),
        Shape::Type(inner) => var_free(*inner),
        Shape::Fn(params, ret, _) => (forall|i: int|
            0 <= i < params.len() ==> var_free(#[trigger] params[i])) && var_free(*ret),
        Shape::Tuple(elems) => forall|i: int| 0 <= i < elems.len() ==> var_free(#[trigger] elems[i]),
        Shape::Struct(_, _, fields) => forall|i: int|
            0 <= i < fields.len() ==> var_free(#[trigger] fields[i].1),
        _ => true,
    }
}

impl View for TyKind {
    type V = Shape;

    open spec fn view(&self) -> Shape {
        shape_of(*self)
    }
}

pub proof fn lemma_shapes_of_prefix(s: Seq<TyKind>, i: int)
    requires
        0 <= i < s.len(),
    ensures
        shapes_of(s.subrange(0, i + 1)) == shapes_of(s.subrange(0, i)).push(shape_of(s[i])),
{
    assert(s.subrange(0, i + 1).drop_last() =~= s.subrange(0, i));
}

pub proof fn lemma_shapes_of_len(s: Seq<TyKind>)
    ensures
        shapes_of(s).len() == s.len(),
    decreases s.len(),
{
    if s.len() > 0 {
        lemma_shapes_of_len(s.drop_last());
    }
}

pub proof fn lemma_shapes_of_index(s: Seq<TyKind>, i: int)
    requires
        0 <= i < s.len(),
    ensures
        shapes_of(s)[i] == shape_of(s[i]),
    decreases s.len(),
{
    lemma_shapes_of_len(s.drop_last());
    if i < s.len() - 1 {
        lemma_shapes_of_index(s.drop_last(), i);
    }
}

pub proof fn lemma_fields_of_prefix(s: Seq<StructTyField>, i: int)
    requires
        0 <= i < s.len(),
    ensures
        fields_of(s.subrange(0, i + 1)) == fields_of(s.subrange(0, i)).push(
            (s[i].symbol@, shape_of(s[i].ty)),
        ),
{
    assert(s.subrange(0, i + 1).drop_last() =~= s.subrange(0, i));
}

pub proof fn lemma_fields_of_len(s: Seq<StructTyField>)
    ensures
        fields_of(s).len() == s.len(),
    decreases s.len(),
{
    if s.len() > 0 {
        lemma_fields_of_len(s.drop_last());
    }
}

pub proof fn lemma_fields_of_index(s: Seq<StructTyField>, i: int)
    requires
        0 <= i < s.len(),
    ensures
        fields_of(s)[i] == (s[i].symbol@, shape_of(s[i].ty)),
    decreases s.len(),
{
    lemma_fields_of_len(s.drop_last());
    if i < s.len() - 1 {
        lemma_fields_of_index(s.drop_last(), i);
    }
}

pub proof fn lemma_named_of_prefix(s: Seq<(String, TyKind)>, i: int)
    requires
        0 <= i < s.len(),
    ensures
        named_of(s.subrange(0, i + 1)) == named_of(s.subrange(0, i)).push(
            (s[i].0@, shape_of(s[i].1)),
        ),
{
    assert(s.subrange(0, i + 1).drop_last() =~= s.subrange(0, i));
}

pub proof fn lemma_named_of_len(s: Seq<(String, TyKind)>)
    ensures
        named_of(s).len() == s.len(),
    decreases s.len(),
{
    if s.len() > 0 {
        lemma_named_of_len(s.drop_last());
    }
}

pub proof fn lemma_named_of_index(s: Seq<(String, TyKind)>, i: int)
    requires
        0 <= i < s.len(),
    ensures
        named_of(s)[i] == (s[i].0@, shape_of(s[i].1)),
    decreases s.len(),
{
    lemma_named_of_len(s.drop_last());
    if i < s.len() - 1 {
        lemma_named_of_index(s.drop_last(), i);
    }
}

/// Copies a list of types element by element.
pub fn clone_tys(v: &Vec<TyKind>) -> (r: Vec<TyKind>)
    ensures
        shapes_of(r@) == shapes_of(v@),
        r@.len() == v@.len(),
    decreases v, 0nat,
{
    let mut out: Vec<TyKind> = Vec::new();
    let mut i: usize = 0;
    while i < v.len()
        invariant
            i <= v@.len(),
            out@.len() == i,
            shapes_of(out@) == shapes_of(v@.subrange(0, i as int)),
        decreases v@.len() - i,
    {
        let c = v[i].clone_ty();
        proof {
            lemma_shapes_of_prefix(v@, i as int);
            assert(out@.push(c).drop_last() =~= out@);
        }
        out.push(c);
        i += 1;
    }
    assert(v@.subrange(0, v@.len() as int) =~= v@);
    out
}

pub fn clone_fields(v: &Vec<StructTyField>) -> (r: Vec<StructTyField>)
    ensures
        fields_of(r@) == fields_of(v@),
        r@.len() == v@.len(),
    decreases v, 0nat,
{
    let mut out: Vec<StructTyField> = Vec::new();
    let mut i: usize = 0;
    while i < v.len()
        invariant
            i <= v@.len(),
            out@.len() == i,
            fields_of(out@) == fields_of(v@.subrange(0, i as int)),
        decreases v@.len() - i,
    {
        let f = &v[i];
        let c = StructTyField { symbol: f.symbol.clone(), ty: f.ty.clone_ty(), span: f.span };
        proof {
            lemma_fields_of_prefix(v@, i as int);
            assert(out@.push(c).drop_last() =~= out@);
        }
        out.push(c);
        i += 1;
    }
    assert(v@.subrange(0, v@.len() as int) =~= v@);
    out
}

pub fn clone_named(v: &Vec<(String, TyKind)>) -> (r: Vec<(String, TyKind)>)
    ensures
        named_of(r@) == named_of(v@),
        r@.len() == v@.len(),
    decreases v, 0nat,
{
    let mut out: Vec<(String, TyKind)> = Vec::new();
    let mut i: usize = 0;
    while i < v.len()
        invariant
            i <= v@.len(),
            out@.len() == i,
            named_of(out@) == named_of(v@.subrange(0, i as int)),
        decreases v@.len() - i,
    {
        let c = (v[i].0.clone(), v[i].1.clone_ty());
        proof {
            lemma_named_of_prefix(v@, i as int);
            assert(out@.push(c).drop_last() =~= out@);
        }
        out.push(c);
        i += 1;
    }
    assert(v@.subrange(0, v@.len() as int) =~= v@);
    out
}

impl TyKind {
    /// A copy with the same shape.
    pub fn clone_ty(&self) -> (r: TyKind)
        ensures
            r@ == self@,
        decreases self, 1nat,
    {
        match self {
            TyKind::Never => TyKind::Never,
            TyKind::Unit => TyKind::Unit,
            TyKind::Bool => TyKind::Bool,
            TyKind::Int(w) => TyKind::Int(*w),
            TyKind::UInt(w) => TyKind::UInt(*w),
            TyKind::Float(w) => TyKind::Float(*w),
            TyKind::Pointer(inner, m) => TyKind::Pointer(Box::new(inner.clone_ty()), *m),
            TyKind::MultiPointer(inner, m) => TyKind::MultiPointer(Box::new(inner.clone_ty()), *m),
            TyKind::Fn(f) => TyKind::Fn(
                FnTy { params: clone_tys(&f.params), ret: Box::new(f.ret.clone_ty()), variadic: f.variadic },
            ),
            TyKind::Array(inner, n) => TyKind::Array(Box::new(inner.clone_ty()), *n),
            TyKind::Slice(inner, m) => TyKind::Slice(Box::new(inner.clone_ty()), *m),
            TyKind::Tuple(elems) => TyKind::Tuple(clone_tys(elems)),
            TyKind::Struct(st) => TyKind::Struct(
                StructTy {
                    name: st.name.clone(),
                    binding_info_id: st.binding_info_id,
                    fields: clone_fields(&st.fields),
                    kind: st.kind,
                },
            ),
            TyKind::Module(id) => TyKind::Module(*id),
            TyKind::Type(inner) => TyKind::Type(Box::new(inner.clone_ty())),
            TyKind::Var(v) => TyKind::Var(*v),
            TyKind::Infer(v, InferTy::AnyInt) => TyKind::Infer(*v, InferTy::AnyInt),
            TyKind::Infer(v, InferTy::AnyFloat) => TyKind::Infer(*v, InferTy::AnyFloat),
            TyKind::Infer(v, InferTy::PartialStruct(p)) => TyKind::Infer(
                *v,
                InferTy::PartialStruct(PartialStructTy(clone_named(&p.0))),
            ),
            TyKind::Infer(v, InferTy::PartialTuple(elems)) => TyKind::Infer(
                *v,
                InferTy::PartialTuple(clone_tys(elems)),
            ),
            TyKind::Unknown => TyKind::Unknown,
        }
    }
}


/// Whether two lists of types have equal shapes.
pub fn same_shapes(xs: &Vec<TyKind>, ys: &Vec<TyKind>) -> (r: bool)
    ensures
        r == (shapes_of(xs@) == shapes_of(ys@)),
    decreases xs, 1nat,
{
    proof {
        lemma_shapes_of_len(xs@);
        lemma_shapes_of_len(ys@);
    }
    if xs.len() != ys.len() {
        return false;
    }
    let mut i: usize = 0;
    while i < xs.len()
        invariant
            i <= xs@.len(),
            xs@.len() == ys@.len(),
            shapes_of(xs@).len() == xs@.len(),
            shapes_of(ys@).len() == ys@.len(),
            forall|j: int| 0 <= j < i ==> shapes_of(xs@)[j] == shapes_of(ys@)[j],
        decreases xs@.len() - i,
    {
        proof {
            lemma_shapes_of_index(xs@, i as int);
            lemma_shapes_of_index(ys@, i as int);
        }
        if !xs[i].same_shape(&ys[i]) {
            return false;
        }
        i += 1;
    }
    assert(shapes_of(xs@) =~= shapes_of(ys@));
    true
}

/// Whether two field lists have equal names and shapes.
pub fn same_fields(xs: &Vec<StructTyField>, ys: &Vec<StructTyField>) -> (r: bool)
    ensures
        r == (fields_of(xs@) == fields_of(ys@)),
    decreases xs, 1nat,
{
    proof {
        lemma_fields_of_len(xs@);
        lemma_fields_of_len(ys@);
    }
    if xs.len() != ys.len() {
        return false;
    }
    let mut i: usize = 0;
    while i < xs.len()
        invariant
            i <= xs@.len(),
            xs@.len() == ys@.len(),
            fields_of(xs@).len() == xs@.len(),
            fields_of(ys@).len() == ys@.len(),
            forall|j: int| 0 <= j < i ==> fields_of(xs@)[j] == fields_of(ys@)[j],
        decreases xs@.len() - i,
    {
        proof {
            lemma_fields_of_index(xs@, i as int);
            lemma_fields_of_index(ys@, i as int);
        }
        if xs[i].symbol != ys[i].symbol || !xs[i].ty.same_shape(&ys[i].ty) {
            return false;
        }
        i += 1;
    }
    assert(fields_of(xs@) =~= fields_of(ys@));
    true
}

/// Whether two lists of named types have equal names and shapes.
pub fn same_named(xs: &Vec<(String, TyKind)>, ys: &Vec<(String, TyKind)>) -> (r: bool)
    ensures
        r == (named_of(xs@) == named_of(ys@)),
    decreases xs, 1nat,
{
    proof {
        lemma_named_of_len(xs@);
        lemma_named_of_len(ys@);
    }
    if xs.len() != ys.len() {
        return false;
    }
    let mut i: usize = 0;
    while i < xs.len()
        invariant
            i <= xs@.len(),
            xs@.len() == ys@.len(),
            named_of(xs@).len() == xs@.len(),
            named_of(ys@).len() == ys@.len(),
            forall|j: int| 0 <= j < i ==> named_of(xs@)[j] == named_of(ys@)[j],
        decreases xs@.len() - i,
    {
        proof {
            lemma_named_of_index(xs@, i as int);
            lemma_named_of_index(ys@, i as int);
        }
        if xs[i].0 != ys[i].0 || !xs[i].1.same_shape(&ys[i].1) {
            return false;
        }
        i += 1;
    }
    assert(named_of(xs@) =~= named_of(ys@));
    true
}

impl TyKind {
    /// Structural equality: same shape, wherever the two values live.
    pub fn same_shape(&self, other: &TyKind) -> (r: bool)
        ensures
            r == (self@ == other@),
        decreases self, 0nat,
    {
        match (self, other) {
            (TyKind::Never, TyKind::Never) => true,
            (TyKind::Unit, TyKind::Unit) => true,
            (TyKind::Bool, TyKind::Bool) => true,
            (TyKind::Int(x), TyKind::Int(y)) => *x == *y,
            (TyKind::UInt(x), TyKind::UInt(y)) => *x == *y,
            (TyKind::Float(x), TyKind::Float(y)) => *x == *y,
            (TyKind::Pointer(x, m), TyKind::Pointer(y, n)) => *m == *n && x.same_shape(y),
            (TyKind::MultiPointer(x, m), TyKind::MultiPointer(y, n)) => *m == *n && x.same_shape(y),
            (TyKind::Fn(f), TyKind::Fn(g)) => f.variadic == g.variadic && same_shapes(
                &f.params,
                &g.params,
            ) && f.ret.same_shape(&g.ret),
            (TyKind::Array(x, m), TyKind::Array(y, n)) => *m == *n && x.same_shape(y),
            (TyKind::Slice(x, m), TyKind::Slice(y, n)) => *m == *n && x.same_shape(y),
            (TyKind::Tuple(xs), TyKind::Tuple(ys)) => same_shapes(xs, ys),
            (TyKind::Struct(s1), TyKind::Struct(s2)) => s1.name == s2.name && s1.kind == s2.kind
                && same_fields(&s1.fields, &s2.fields),
            (TyKind::Module(x), TyKind::Module(y)) => *x == *y,
            (TyKind::Type(x), TyKind::Type(y)) => x.same_shape(y),
            (TyKind::Var(x), TyKind::Var(y)) => x.0 == y.0,
            (TyKind::Infer(v, InferTy::AnyInt), TyKind::Infer(w, InferTy::AnyInt)) => v.0 == w.0,
            (TyKind::Infer(v, InferTy::AnyFloat), TyKind::Infer(w, InferTy::AnyFloat)) => v.0 == w.0,
            (
                TyKind::Infer(v, InferTy::PartialStruct(p)),
                TyKind::Infer(w, InferTy::PartialStruct(q)),
            ) => v.0 == w.0 && same_named(&p.0, &q.0),
            (
                TyKind::Infer(v, InferTy::PartialTuple(xs)),
                TyKind::Infer(w, InferTy::PartialTuple(ys)),
            ) => v.0 == w.0 && same_shapes(xs, ys),
            (TyKind::Unknown, TyKind::Unknown) => true,
            _ => false,
        }
    }
}


impl StructTy {
    pub fn is_struct(&self) -> (r: bool)
        ensures
            r == (self.kind is Struct),
    {
        matches!(self.kind, StructTyKind::Struct)
    }

    pub fn is_packed_struct(&self) -> (r: bool)
        ensures
            r == (self.kind is PackedStruct),
    {
        matches!(self.kind, StructTyKind::PackedStruct)
    }

    pub fn is_union(&self) -> (r: bool)
        ensures
            r == (self.kind is Union),
    {
        matches!(self.kind, StructTyKind::Union)
    }

    /// A struct type whose fields are not known yet.
    pub fn opaque(name: String, binding_info_id: usize, kind: StructTyKind) -> (r: StructTy)
        ensures
            r.name == name,
            r.binding_info_id == binding_info_id,
            r.fields@.len() == 0,
            r.kind == kind,
    {
        StructTy { name, binding_info_id, fields: Vec::new(), kind }
    }

    /// An anonymous struct type with `fields`.
    pub fn temp(fields: Vec<StructTyField>, kind: StructTyKind) -> (r: StructTy)
        ensures
            r.name@.len() == 0,
            r.fields == fields,
            r.kind == kind,
    {
        StructTy { name: String::new(), binding_info_id: usize::MAX, fields, kind }
    }

    pub fn is_anonymous(&self) -> (r: bool)
        ensures
            r == (self.name@.len() == 0),
    {
        self.name.as_str().is_empty()
    }
}

impl TyKind {
    pub fn is_type(&self) -> (r: bool)
        ensures
            r == (*self is Type),
    {
        matches!(self, TyKind::Type(_))
    }

    pub fn is_module(&self) -> (r: bool)
        ensures
            r == (*self is Module),
    {
        matches!(self, TyKind::Module(_))
    }

    pub fn is_anyint(&self) -> (r: bool)
        ensures
            r == (self@ is AnyInt),
    {
        matches!(self, TyKind::Infer(_, InferTy::AnyInt))
    }

    pub fn is_anyfloat(&self) -> (r: bool)
        ensures
            r == (self@ is AnyFloat),
    {
        matches!(self, TyKind::Infer(_, InferTy::AnyFloat))
    }

    pub fn is_int(&self) -> (r: bool)
        ensures
            r == (*self is Int),
    {
        matches!(self, TyKind::Int(_))
    }

    pub fn is_uint(&self) -> (r: bool)
        ensures
            r == (*self is UInt),
    {
        matches!(self, TyKind::UInt(_))
    }

    pub fn is_float(&self) -> (r: bool)
        ensures
            r == (*self is Float),
    {
        matches!(self, TyKind::Float(_))
    }

    /// A signed, unsigned or not-yet-sized integer type.
    pub fn is_any_integer(&self) -> (r: bool)
        ensures
            r == (*self is Int || *self is UInt || self@ is AnyInt),
    {
        self.is_int() || self.is_uint() || self.is_anyint()
    }

    pub fn is_number(&self) -> (r: bool)
        ensures
            r == (*self is Int || *self is UInt || self@ is AnyInt || *self is Float),
    {
        self.is_any_integer() || self.is_float()
    }

    pub fn is_pointer(&self) -> (r: bool)
        ensures
            r == (*self is Pointer),
    {
        matches!(self, TyKind::Pointer(..))
    }

    pub fn is_multi_pointer(&self) -> (r: bool)
        ensures
            r == (*self is MultiPointer),
    {
        matches!(self, TyKind::MultiPointer(..))
    }

    pub fn is_bool(&self) -> (r: bool)
        ensures
            r == (*self is Bool),
    {
        matches!(self, TyKind::Bool)
    }

    pub fn is_fn(&self) -> (r: bool)
        ensures
            r == (*self is Fn),
    {
        matches!(self, TyKind::Fn(..))
    }

    pub fn is_var(&self) -> (r: bool)
        ensures
            r == (*self is Var),
    {
        matches!(self, TyKind::Var(..))
    }

    pub fn is_array(&self) -> (r: bool)
        ensures
            r == (*self is Array),
    {
        matches!(self, TyKind::Array(..))
    }

    pub fn is_slice(&self) -> (r: bool)
        ensures
            r == (*self is Slice),
    {
        matches!(self, TyKind::Slice(..))
    }

    pub fn is_unknown(&self) -> (r: bool)
        ensures
            r == (*self is Unknown),
    {
        matches!(self, TyKind::Unknown)
    }

    pub fn is_unit(&self) -> (r: bool)
        ensures
            r == (*self is Unit),
    {
        matches!(self, TyKind::Unit)
    }

    pub fn is_never(&self) -> (r: bool)
        ensures
            r == (*self is Never),
    {
        matches!(self, TyKind::Never)
    }

    pub fn is_struct(&self) -> (r: bool)
        ensures
            r == (*self is Struct),
    {
        matches!(self, TyKind::Struct(_))
    }

    /// An array or a struct: a type held in memory as a whole.
    pub fn is_aggregate(&self) -> (r: bool)
        ensures
            r == (*self is Array || *self is Struct),
    {
        self.is_array() || self.is_struct()
    }

    /// An untyped pointer: a pointer to bytes.
    pub fn raw_pointer(is_mutable: bool) -> (r: TyKind)
        ensures
            r@ == Shape::Pointer(Box::new(Shape::Int(IntTy::I8)), is_mutable),
    {
        let byte = TyKind::Int(IntTy::I8);
        assert(byte@ == Shape::Int(IntTy::I8));
        TyKind::Pointer(Box::new(byte), is_mutable)
    }

    /// The string type: an immutable slice of characters.
    pub fn str() -> (r: TyKind)
        ensures
            r@ == Shape::Slice(Box::new(Shape::UInt(UIntTy::U8)), false),
    {
        TyKind::Slice(Box::new(TyKind::char()), false)
    }

    pub fn char() -> (r: TyKind)
        ensures
            r@ == Shape::UInt(UIntTy::U8),
    {
        TyKind::UInt(UIntTy::U8)
    }

    /// The type of the type `self`.
    pub fn create_type(self) -> (r: TyKind)
        ensures
            r@ == Shape::Type(Box::new(self@)),
    {
        TyKind::Type(Box::new(self))
    }

    pub fn pointer_type(self, mutable: bool) -> (r: TyKind)
        ensures
            r@ == Shape::Pointer(Box::new(self@), mutable),
    {
        TyKind::Pointer(Box::new(self), mutable)
    }

    /// The type that a pointer, multi-pointer, array, slice or type holds.
    pub fn element_type(&self) -> (r: Option<&TyKind>)
        ensures
            r is Some <==> (*self is Pointer || *self is MultiPointer || *self is Array || *self is Slice
                || *self is Type),
            r matches Some(e) ==> match self@ {
                Shape::Pointer(inner, _) => *inner == e@,
                Shape::MultiPointer(inner, _) => *inner == e@,
                Shape::Array(inner, _) => *inner == e@,
                Shape::Slice(inner, _) => *inner == e@,
                Shape::Type(inner) => *inner == e@,
                _ => false,
            },
    {
        match self {
            TyKind::Pointer(inner, _) => Some(&**inner),
            TyKind::MultiPointer(inner, _) => Some(&**inner),
            TyKind::Array(inner, _) => Some(&**inner),
            TyKind::Slice(inner, _) => Some(&**inner),
            TyKind::Type(inner) => Some(&**inner),
            _ => None,
        }
    }

    /// The pointee of a pointer, or the type itself.
    pub fn maybe_deref_once(&self) -> (r: TyKind)
        ensures
            self@ matches Shape::Pointer(inner, _) ==> r@ == *inner,
            !(*self is Pointer) ==> r@ == self@,
    {
        match self {
            TyKind::Pointer(inner, _) => inner.clone_ty(),
            _ => self.clone_ty(),
        }
    }

    /// The struct type, for a struct.
    pub fn into_struct(&self) -> (r: &StructTy)
        requires
            *self is Struct,
        ensures
            *self == TyKind::Struct(*r),
    {
        match self {
            TyKind::Struct(st) => st,
            _ => vstd::pervasive::unreached(),
        }
    }

    /// The function type, for a function, taken out of `self`.
    pub fn into_fn(self) -> (r: FnTy)
        requires
            self is Fn,
        ensures
            self == TyKind::Fn(r),
    {
        match self {
            TyKind::Fn(f) => f,
            _ => vstd::pervasive::unreached(),
        }
    }

    /// The function type, for a function.
    pub fn as_fn(&self) -> (r: &FnTy)
        requires
            *self is Fn,
        ensures
            *self == TyKind::Fn(*r),
    {
        match self {
            TyKind::Fn(f) => f,
            _ => vstd::pervasive::unreached(),
        }
    }
}

impl StructTyField {
    /// A nameless field of type `ty`.
    pub fn temp(ty: TyKind) -> (r: StructTyField)
        ensures
            r.symbol@.len() == 0,
            r.ty == ty,
            r.span == Span::unknown_span(),
    {
        StructTyField { symbol: String::new(), ty, span: Span::unknown() }
    }
}

impl PartialStructTy {
    /// The anonymous struct with the known fields, in their order.
    pub fn into_struct(&self) -> (r: StructTy)
        ensures
            r.name@.len() == 0,
            r.kind == StructTyKind::Struct,
            fields_of(r.fields@) == named_of(self.0@),
    {
        let mut fields: Vec<StructTyField> = Vec::new();
        let mut i: usize = 0;
        proof {
            lemma_named_of_len(self.0@);
        }
        while i < self.0.len()
            invariant
                i <= self.0@.len(),
                named_of(self.0@).len() == self.0@.len(),
                fields@.len() == i,
                fields_of(fields@) == named_of(self.0@).subrange(0, i as int),
            decreases self.0@.len() - i,
        {
            let f = StructTyField { symbol: self.0[i].0.clone(), ty: self.0[i].1.clone_ty(), span: Span::unknown() };
            let ghost prev = fields@;
            fields.push(f);
            proof {
                lemma_named_of_index(self.0@, i as int);
                assert(fields@.drop_last() =~= prev);
                assert(fields_of(fields@) =~= named_of(self.0@).subrange(0, i + 1));
            }
            i += 1;
        }
        assert(named_of(self.0@).subrange(0, i as int) =~= named_of(self.0@));
        StructTy { name: String::new(), binding_info_id: usize::MAX, fields, kind: StructTyKind::Struct }
    }
}


} // verus!

