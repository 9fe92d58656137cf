use vstd::prelude::*;

use crate::diagnostic::{Diagnostic, DiagnosticKind, DiagnosticResult};
use crate::span::Span;
use crate::text::push_str;
use crate::ty::{
    fields_of, lemma_fields_of_index, lemma_fields_of_len, lemma_named_of_index, lemma_named_of_len,
    lemma_shapes_of_index, lemma_shapes_of_len, named_of, shapes_of, FnTy, InferTy, PartialStructTy,
    Shape, StructTy, StructTyField, Ty, TyKind, var_free,
};

verus! {

broadcast use vstd::std_specs::vec::group_vec_axioms;

/// What the context knows of each variable: `Some(t)` once it is bound to `t`.
pub type Bindings = Seq<Option<Shape>>;

/// The variable that a variable-like shape stands for.
pub open spec fn var_of(t: Shape) -> Option<usize> {
    match t {
        Shape::Var(v) => Some(v),
        Shape::AnyInt(v) => Some(v),
        Shape::AnyFloat(v) => Some(v),
        Shape::PartialStruct(v, _) => Some(v),
        Shape::PartialTuple(v, _) => Some(v),
        _ => None,
    }
}

/// The binding of `v`; a handle outside the context is unbound.
pub open spec fn binding(cx: Bindings, v: usize) -> Option<Shape> {
    if v < cx.len() {
        cx[v as int]
    } else {
        None
    }
}

/// `t` with every bound variable replaced by its binding, following at most
/// `fuel` bindings along any path.
pub open spec fn normalize(cx: Bindings, t: Shape, fuel: nat) -> Shape
    decreases fuel, t, 0nat,
{
    match var_of(t) {
        Some(v) if binding(cx, v) is Some && fuel > 0 => normalize(
            cx,
            binding(cx, v)->0,
            (fuel - 1) as nat,
        ),
        _ => match t {
            Shape::Pointer(inner, m) => Shape::Pointer(Box::new(normalize(cx, *inner, fuel)), m),
            Shape::MultiPointer(inner, m) => Shape::MultiPointer(
                Box::new(normalize(cx, *inner, fuel)),
                m,
            ),
            Shape::Fn(params, ret, va) => Shape::Fn(
                normalize_all(cx, params, fuel),
                Box::new(normalize(cx, *ret, fuel)),
                va,
            ),
            Shape::Array(inner, n) => Shape::Array(Box::new(normalize(cx, *inner, fuel)), n),
            Shape::Slice(inner, m) => Shape::Slice(Box::new(normalize(cx, *inner, fuel)), m),
            Shape::Tuple(elems) => Shape::Tuple(normalize_all(cx, elems, fuel)),
            Shape::Struct(name, kind, fields) => Shape::Struct(
                name,
                kind,
                normalize_named(cx, fields, fuel),
            ),
            Shape::Type(inner) => Shape::Type(Box::new(normalize(cx, *inner, fuel))),
            Shape::PartialStruct(v, fields) => Shape::PartialStruct(
                v,
                normalize_named(cx, fields, fuel),
            ),
            Shape::PartialTuple(v, elems) => Shape::PartialTuple(v, normalize_all(cx, elems, fuel)),
            _ => t,
        },
    }
}

pub open spec fn normalize_all(cx: Bindings, s: Seq<Shape>, fuel: nat) -> Seq<Shape>
    decreases fuel, s, 1nat,
{
    if s.len() == 0 {
        Seq::empty()
    } else {
        normalize_all(cx, s.drop_last(), fuel).push(normalize(cx, s.last(), fuel))
    }
}

pub open spec fn normalize_named(cx: Bindings, s: Seq<(Seq<char>, Shape)>, fuel: nat) -> Seq<
    (Seq<char>, Shape),
>
    decreases fuel, s, 1nat,
{
    if s.len() == 0 {
        Seq::empty()
    } else {
        normalize_named(cx, s.drop_last(), fuel).push(
            (s.last().0, normalize(cx, s.last().1, fuel)),
        )
    }
}

pub proof fn lemma_normalize_all_len(cx: Bindings, s: Seq<Shape>, fuel: nat)
    ensures
        normalize_all(cx, s, fuel).len() == s.len(),
    decreases s.len(),
{
    if s.len() > 0 {
        lemma_normalize_all_len(cx, s.drop_last(), fuel);
    }
}

pub proof fn lemma_normalize_all_index(cx: Bindings, s: Seq<Shape>, fuel: nat, i: int)
    requires
        0 <= i < s.len(),
    ensures
        normalize_all(cx, s, fuel).len() == s.len(),
        normalize_all(cx, s, fuel)[i] == normalize(cx, s[i], fuel),
    decreases s.len(),
{
    lemma_normalize_all_len(cx, s, fuel);
    lemma_normalize_all_len(cx, s.drop_last(), fuel);
    if i < s.len() - 1 {
        lemma_normalize_all_index(cx, s.drop_last(), fuel, i);
    }
}

pub proof fn lemma_normalize_named_len(cx: Bindings, s: Seq<(Seq<char>, Shape)>, fuel: nat)
    ensures
        normalize_named(cx, s, fuel).len() == s.len(),
    decreases s.len(),
{
    if s.len() > 0 {
        lemma_normalize_named_len(cx, s.drop_last(), fuel);
    }
}

pub proof fn lemma_normalize_named_index(
    cx: Bindings,
    s: Seq<(Seq<char>, Shape)>,
    fuel: nat,
    i: int,
)
    requires
        0 <= i < s.len(),
    ensures
        normalize_named(cx, s, fuel).len() == s.len(),
        normalize_named(cx, s, fuel)[i] == (s[i].0, normalize(cx, s[i].1, fuel)),
    decreases s.len(),
{
    lemma_normalize_named_len(cx, s, fuel);
    lemma_normalize_named_len(cx, s.drop_last(), fuel);
    if i < s.len() - 1 {
        lemma_normalize_named_index(cx, s.drop_last(), fuel, i);
    }
}

/// The shape of the `i`-th type of `s`.
pub open spec fn shape_of_at(s: Seq<TyKind>, i: int) -> Shape {
    s[i]@
}

pub proof fn lemma_normalize_var_free(cx: Bindings, t: Shape, fuel: nat)
    requires
        var_free(t),
    ensures
        normalize(cx, t, fuel) == t,
    decreases t, 0nat,
{
    match t {
        Shape::Pointer(inner, _) => lemma_normalize_var_free(cx, *inner, fuel),
        Shape::MultiPointer(inner, _) => lemma_normalize_var_free(cx, *inner, fuel),
        Shape::Array(inner, _) => lemma_normalize_var_free(cx, *inner, fuel),
        Shape::Slice(inner, _) => lemma_normalize_var_free(cx, *inner, fuel),
        Shape::Type(inner) => lemma_normalize_var_free(cx, *inner, fuel),
        Shape::Fn(params, ret, _) => {
            lemma_normalize_all_var_free(cx, params, fuel);
            lemma_normalize_var_free(cx, *ret, fuel);
        },
        Shape::Tuple(elems) => lemma_normalize_all_var_free(cx, elems, fuel),
        Shape::Struct(_, _, fields) => lemma_normalize_named_var_free(cx, fields, fuel),
        _ => {},
    }
}

pub proof fn lemma_normalize_all_var_free(cx: Bindings, s: Seq<Shape>, fuel: nat)
    requires
        forall|i: int| 0 <= i < s.len() ==> var_free(#[trigger] s[i]),
    ensures
        normalize_all(cx, s, fuel) == s,
    decreases s, 1nat,
{
    if s.len() > 0 {
        assert(var_free(s[s.len() - 1]));
        lemma_normalize_all_var_free(cx, s.drop_last(), fuel);
        lemma_normalize_var_free(cx, s.last(), fuel);
        assert(s.drop_last().push(s.last()) =~= s);
    }
}

pub proof fn lemma_normalize_named_var_free(cx: Bindings, s: Seq<(Seq<char>, Shape)>, fuel: nat)
    requires
        forall|i: int| 0 <= i < s.len() ==> var_free(#[trigger] s[i].1),
    ensures
        normalize_named(cx, s, fuel) == s,
    decreases s, 1nat,
{
    if s.len() > 0 {
        assert(var_free(s[s.len() - 1].1));
        lemma_normalize_named_var_free(cx, s.drop_last(), fuel);
        lemma_normalize_var_free(cx, s.last().1, fuel);
        assert(s.drop_last().push((s.last().0, s.last().1)) =~= s);
    }
}

/// Normalizing is idempotent on every type that has no variable left free
/// once the context's bindings are filled in: a second pass finds nothing
/// more to replace. A type that holds no variable at all is one such type,
/// and normalizing gives it back unchanged.
pub proof fn lemma_normalize_idempotent(cx: Bindings, t: Shape, fuel: nat)
    requires
        var_free(normalize(cx, t, fuel)),
    ensures
        normalize(cx, normalize(cx, t, fuel), fuel) == normalize(cx, t, fuel),
        var_free(t) ==> normalize(cx, t, fuel) == t,
{
    lemma_normalize_var_free(cx, normalize(cx, t, fuel), fuel);
    if var_free(t) {
        lemma_normalize_var_free(cx, t, fuel);
    }
}

pub enum TyBinding {
    Bound(TyKind),
    Unbound,
}

impl TyBinding {
    pub open spec fn view(&self) -> Option<Shape> {
        match self {
            TyBinding::Bound(t) => Some(t@),
            TyBinding::Unbound => None,
        }
    }
}

/// The arena of type variables of one checking session.
pub struct TyContext {
    pub bindings: Vec<TyBinding>,
    pub spans: Vec<Span>,
}

impl View for TyContext {
    type V = Bindings;

    open spec fn view(&self) -> Bindings {
        self.bindings@.map_values(|b: TyBinding| b.view())
    }
}

impl TyContext {
    /// Every variable has a span.
    pub open spec fn wf(&self) -> bool {
        self.spans@.len() == self.bindings@.len()
    }

    pub fn new() -> (r: TyContext)
        ensures
            r.wf(),
            r@ == Bindings::empty(),
    {
        let r = TyContext { bindings: Vec::new(), spans: Vec::new() };
        assert(r@ =~= Bindings::empty());
        r
    }

    pub fn len(&self) -> (r: usize)
        ensures
            r == self@.len(),
    {
        self.bindings.len()
    }

    /// A fresh variable, bound to `binding` if that is given.
    fn push_var(&mut self, binding: TyBinding, span: Span) -> (r: Ty)
        requires
            old(self).wf(),
            old(self)@.len() < usize::MAX,
        ensures
            final(self).wf(),
            r.0 == old(self)@.len(),
            final(self)@ == old(self)@.push(binding.view()),
            final(self).spans@ == old(self).spans@.push(span),
    {
        let id = self.bindings.len();
        self.bindings.push(binding);
        self.spans.push(span);
        assert(self@ =~= old(self)@.push(binding.view()));
        Ty(id)
    }

    /// A fresh unbound variable, remembered with `span` for diagnostics.
    pub fn var(&mut self, span: Span) -> (r: Ty)
        requires
            old(self).wf(),
            old(self)@.len() < usize::MAX,
        ensures
            final(self).wf(),
            r.0 == old(self)@.len(),
            final(self)@ == old(self)@.push(None),
    {
        self.push_var(TyBinding::Unbound, span)
    }

    /// A fresh variable already bound to `ty`.
    pub fn bound(&mut self, ty: TyKind, span: Span) -> (r: Ty)
        requires
            old(self).wf(),
            old(self)@.len() < usize::MAX,
        ensures
            final(self).wf(),
            r.0 == old(self)@.len(),
            final(self)@ == old(self)@.push(Some(ty@)),
    {
        self.push_var(TyBinding::Bound(ty), span)
    }

    /// A fresh variable that stands for a struct with at least `fields`.
    pub fn partial_struct(&mut self, fields: PartialStructTy, span: Span) -> (r: TyKind)
        requires
            old(self).wf(),
            old(self)@.len() < usize::MAX,
        ensures
            final(self).wf(),
            final(self)@ == old(self)@.push(None),
            r@ == Shape::PartialStruct(old(self)@.len() as usize, named_of(fields.0@)),
    {
        let v = self.var(span);
        TyKind::Infer(v, InferTy::PartialStruct(fields))
    }

    /// A fresh variable that stands for a tuple that starts with `elems`.
    pub fn partial_tuple(&mut self, elems: Vec<TyKind>, span: Span) -> (r: TyKind)
        requires
            old(self).wf(),
            old(self)@.len() < usize::MAX,
        ensures
            final(self).wf(),
            final(self)@ == old(self)@.push(None),
            r@ == Shape::PartialTuple(old(self)@.len() as usize, shapes_of(elems@)),
    {
        let v = self.var(span);
        TyKind::Infer(v, InferTy::PartialTuple(elems))
    }

    /// A fresh variable for an integer literal whose width is not yet known.
    pub fn anyint(&mut self, span: Span) -> (r: TyKind)
        requires
            old(self).wf(),
            old(self)@.len() < usize::MAX,
        ensures
            final(self).wf(),
            final(self)@ == old(self)@.push(None),
            r@ == Shape::AnyInt(old(self)@.len() as usize),
    {
        let v = self.var(span);
        TyKind::Infer(v, InferTy::AnyInt)
    }

    /// A fresh variable for a float literal whose width is not yet known.
    pub fn anyfloat(&mut self, span: Span) -> (r: TyKind)
        requires
            old(self).wf(),
            old(self)@.len() < usize::MAX,
        ensures
            final(self).wf(),
            final(self)@ == old(self)@.push(None),
            r@ == Shape::AnyFloat(old(self)@.len() as usize),
    {
        let v = self.var(span);
        TyKind::Infer(v, InferTy::AnyFloat)
    }

    /// The binding of `var`, if it has one.
    pub fn find_binding(&self, var: Ty) -> (r: Option<&TyKind>)
        ensures
            r is Some == (binding(self@, var.0) is Some),
            r is Some ==> binding(self@, var.0) == Some(r->0@),
    {
        if var.0 < self.bindings.len() {
            match &self.bindings[var.0] {
                TyBinding::Bound(t) => Some(t),
                TyBinding::Unbound => None,
            }
        } else {
            None
        }
    }

    /// The span that `var` was made for.
    pub fn span_of(&self, var: Ty) -> (r: Option<Span>)
        requires
            self.wf(),
        ensures
            r == (if var.0 < self@.len() { Some(self.spans@[var.0 as int]) } else { None }),
    {
        if var.0 < self.spans.len() {
            Some(self.spans[var.0])
        } else {
            None
        }
    }

    /// Records that `var` is `ty`.
    pub fn bind(&mut self, var: Ty, ty: TyKind)
        requires
            old(self).wf(),
            var.0 < old(self)@.len(),
        ensures
            final(self).wf(),
            final(self)@ == old(self)@.update(var.0 as int, Some(ty@)),
            final(self).spans@ == old(self).spans@,
    {
        self.bindings.set(var.0, TyBinding::Bound(ty));
        assert(self@ =~= old(self)@.update(var.0 as int, Some(ty@)));
    }

    /// The variable that `t` stands for, if `t` is variable-like.
    pub fn var_id(t: &TyKind) -> (r: Option<Ty>)
        ensures
            r is Some == (var_of(t@) is Some),
            r is Some ==> var_of(t@) == Some((r->0).0),
    {
        match t {
            TyKind::Var(v) => Some(*v),
            TyKind::Infer(v, _) => Some(*v),
            _ => None,
        }
    }

    /// `t` with bound variables replaced by their bindings, following at
    /// most `fuel` bindings along any path.
    pub fn normalize(&self, t: &TyKind, fuel: usize) -> (r: TyKind)
        ensures
            r@ == normalize(self@, t@, fuel as nat),
        decreases fuel, t, 0nat,
    {
        if let Some(v) = Self::var_id(t) {
            if fuel > 0 {
                if let Some(b) = self.find_binding(v) {
                    return self.normalize(b, fuel - 1);
                }
            }
        }
        match t {
            TyKind::Pointer(inner, m) => TyKind::Pointer(Box::new(self.normalize(inner, fuel)), *m),
            TyKind::MultiPointer(inner, m) => TyKind::MultiPointer(
                Box::new(self.normalize(inner, fuel)),
                *m,
            ),
            TyKind::Fn(f) => TyKind::Fn(
                FnTy {
                    params: self.normalize_vec(&f.params, fuel),
                    ret: Box::new(self.normalize(&f.ret, fuel)),
                    variadic: f.variadic,
                },
            ),
            TyKind::Array(inner, n) => TyKind::Array(Box::new(self.normalize(inner, fuel)), *n),
            TyKind::Slice(inner, m) => TyKind::Slice(Box::new(self.normalize(inner, fuel)), *m),
            TyKind::Tuple(elems) => TyKind::Tuple(self.normalize_vec(elems, fuel)),
            TyKind::Struct(st) => TyKind::Struct(
                StructTy {
                    name: st.name.clone(),
                    binding_info_id: st.binding_info_id,
                    fields: self.normalize_fields(&st.fields, fuel),
                    kind: st.kind,
                },
            ),
            TyKind::Type(inner) => TyKind::Type(Box::new(self.normalize(inner, fuel))),
            TyKind::Infer(v, InferTy::PartialStruct(p)) => TyKind::Infer(
                *v,
                InferTy::PartialStruct(PartialStructTy(self.normalize_named(&p.0, fuel))),
            ),
            TyKind::Infer(v, InferTy::PartialTuple(elems)) => TyKind::Infer(
                *v,
                InferTy::PartialTuple(self.normalize_vec(elems, fuel)),
            ),
            _ => t.clone_ty(),
        }
    }

    pub fn normalize_vec(&self, v: &Vec<TyKind>, fuel: usize) -> (r: Vec<TyKind>)
        ensures
            shapes_of(r@) == normalize_all(self@, shapes_of(v@), fuel as nat),
        decreases fuel, v, 1nat,
    {
        let mut out: Vec<TyKind> = Vec::new();
        let mut i: usize = 0;
        while i < v.len()
            invariant
                i <= v@.len(),
                out@.len() == i,
                forall|j: int|
                    0 <= j < i ==> #[trigger] shape_of_at(out@, j) == normalize(
                        self@,
                        v@[j]@,
                        fuel as nat,
                    ),
            decreases v@.len() - i,
        {
            let n = self.normalize(&v[i], fuel);
            let ghost prev = out@;
            out.push(n);
            assert forall|j: int| 0 <= j < i implies #[trigger] shape_of_at(out@, j) == shape_of_at(
                prev,
                j,
            ) by {
                assert(out@[j] == prev[j]);
            }
            assert(shape_of_at(out@, i as int) == n@);
            i += 1;
        }
        proof {
            lemma_shapes_of_len(out@);
            lemma_shapes_of_len(v@);
            lemma_normalize_all_len(self@, shapes_of(v@), fuel as nat);
            assert forall|j: int| 0 <= j < out@.len() implies shapes_of(out@)[j] == normalize_all(
                self@,
                shapes_of(v@),
                fuel as nat,
            )[j] by {
                lemma_shapes_of_index(out@, j);
                lemma_shapes_of_index(v@, j);
                lemma_normalize_all_index(self@, shapes_of(v@), fuel as nat, j);
                assert(shape_of_at(out@, j) == normalize(self@, v@[j]@, fuel as nat));
            }
            assert(shapes_of(out@) =~= normalize_all(self@, shapes_of(v@), fuel as nat));
        }
        out
    }

    pub fn normalize_fields(&self, v: &Vec<StructTyField>, fuel: usize) -> (r: Vec<StructTyField>)
        ensures
            fields_of(r@) == normalize_named(self@, fields_of(v@), fuel as nat),
        decreases fuel, v, 1nat,
    {
        let mut out: Vec<StructTyField> = Vec::new();
        let mut i: usize = 0;
        while i < v.len()
            invariant
                i <= v@.len(),
                out@.len() == i,
                forall|j: int|
                    0 <= j < i ==> #[trigger] out@[j].symbol@ == v@[j].symbol@ && out@[j].ty@
                        == normalize(self@, v@[j].ty@, fuel as nat),
            decreases v@.len() - i,
        {
            let f = &v[i];
            let n = StructTyField { symbol: f.symbol.clone(), ty: self.normalize(&f.ty, fuel), span: f.span };
            out.push(n);
            i += 1;
        }
        proof {
            lemma_fields_of_len(out@);
            lemma_fields_of_len(v@);
            lemma_normalize_named_len(self@, fields_of(v@), fuel as nat);
            assert forall|j: int| 0 <= j < out@.len() implies fields_of(out@)[j] == normalize_named(
                self@,
                fields_of(v@),
                fuel as nat,
            )[j] by {
                lemma_fields_of_index(out@, j);
                lemma_fields_of_index(v@, j);
                lemma_normalize_named_index(self@, fields_of(v@), fuel as nat, j);
                assert(out@[j].symbol@ == v@[j].symbol@);
            }
            assert(fields_of(out@) =~= normalize_named(self@, fields_of(v@), fuel as nat));
        }
        out
    }

    pub fn normalize_named(&self, v: &Vec<(String, TyKind)>, fuel: usize) -> (r: Vec<
        (String, TyKind),
    >)
        ensures
            named_of(r@) == normalize_named(self@, named_of(v@), fuel as nat),
        decreases fuel, v, 1nat,
    {
        let mut out: Vec<(String, TyKind)> = Vec::new();
        let mut i: usize = 0;
        while i < v.len()
            invariant
                i <= v@.len(),
                out@.len() == i,
                forall|j: int|
                    0 <= j < i ==> #[trigger] out@[j].0@ == v@[j].0@ && out@[j].1@ == normalize(
                        self@,
                        v@[j].1@,
                        fuel as nat,
                    ),
            decreases v@.len() - i,
        {
            let n = (v[i].0.clone(), self.normalize(&v[i].1, fuel));
            out.push(n);
            i += 1;
        }
        proof {
            lemma_named_of_len(out@);
            lemma_named_of_len(v@);
            lemma_normalize_named_len(self@, named_of(v@), fuel as nat);
            assert forall|j: int| 0 <= j < out@.len() implies named_of(out@)[j] == normalize_named(
                self@,
                named_of(v@),
                fuel as nat,
            )[j] by {
                lemma_named_of_index(out@, j);
                lemma_named_of_index(v@, j);
                lemma_normalize_named_index(self@, named_of(v@), fuel as nat, j);
                assert(out@[j].0@ == v@[j].0@);
            }
            assert(named_of(out@) =~= normalize_named(self@, named_of(v@), fuel as nat));
        }
        out
    }
}


impl TyContext {
    /// The type that `ty` stands for, when `ty` (with what the context
    /// knows filled in) is the type of a type; a value where a type is
    /// needed is reported at `span`.
    pub fn try_unpack_type(&self, ty: &TyKind, span: Span) -> (r: DiagnosticResult<TyKind>)
        ensures
            r is Ok <==> normalize(self@, ty@, self@.len() as nat) is Type,
            r matches Ok(t) ==> normalize(self@, ty@, self@.len() as nat) == Shape::Type(Box::new(t@)),
            r matches Err(d) ==> d.kind == DiagnosticKind::ExpectedType && d.labels@.len() == 1
                && d.labels@[0].span == span,
    {
        let n = self.normalize(ty, self.len());
        match n {
            TyKind::Type(inner) => Ok(*inner),
            _ => {
                let mut message = String::new();
                push_str(&mut message, "expected a type");
                let note = message.clone();
                Err(Diagnostic::new(DiagnosticKind::ExpectedType, message, span, note))
            },
        }
    }
}

} // verus!
