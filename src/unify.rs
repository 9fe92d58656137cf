use vstd::prelude::*;

use crate::ty::{
    fields_of, lemma_fields_of_index, lemma_fields_of_len, lemma_named_of_index, lemma_named_of_len,
    lemma_shapes_of_index, lemma_shapes_of_len, named_of, shapes_of, InferTy, Shape, StructTyField,
    Ty, TyKind, var_free,
};
use crate::tycx::{binding, normalize, var_of, Bindings, TyContext};

verus! {

broadcast use vstd::std_specs::vec::group_vec_axioms;

/// Why two types could not be made equal.
#[derive(Debug, Clone, Copy, PartialEq, Eq, Structural)]
pub enum UnifyError {
    /// The shapes can never be equal.
    Mismatch,
    /// A variable would have to contain itself.
    Occurs,
    /// A handle that the context never issued.
    Unresolved,
}

pub type UnifyResult = Result<(), UnifyError>;

/// Whether a pointer, slice or multi-pointer whose mutability is `from` may
/// stand where one whose mutability is `to` is expected: a mutable one may
/// stand for an immutable one, never the reverse.
pub open spec fn mut_compatible(from: bool, to: bool) -> bool {
    from == to || (from && !to)
}

pub open spec fn is_numeric(t: Shape) -> bool {
    t is Int || t is UInt || t is Float
}

/// Whether variable `v` occurs anywhere in `t`.
pub open spec fn mentions(v: usize, t: Shape) -> bool
    decreases t, 0nat,
{
    var_of(t) == Some(v) || match t {
        Shape::Pointer(inner, _) => mentions(v, *inner),
        Shape::MultiPointer(inner, _) => mentions(v, *inner),
        Shape::Array(inner, _) => mentions(v, *inner),
        Shape::Slice(inner, _) => mentions(v, *inner),
        Shape::Type(inner) => mentions(v, *inner),
        Shape::Fn(params, ret, _) => mentions_any(v, params) || mentions(v, *ret),
        Shape::Tuple(elems) => mentions_any(v, elems),
        Shape::Struct(_, _, fields) => mentions_named(v, fields),
        Shape::PartialStruct(_, fields) => mentions_named(v, fields),
        Shape::PartialTuple(_, elems) => mentions_any(v, elems),
        _ => false,
    }
}

pub open spec fn mentions_any(v: usize, s: Seq<Shape>) -> bool
    decreases s, 1nat,
{
    s.len() > 0 && (mentions_any(v, s.drop_last()) || mentions(v, s.last()))
}

pub open spec fn mentions_named(v: usize, s: Seq<(Seq<char>, Shape)>) -> bool
    decreases s, 1nat,
{
    s.len() > 0 && (mentions_named(v, s.drop_last()) || mentions(v, s.last().1))
}

/// Binds the unbound variable `v` to `t`: to `t` normalized, unless that is
/// `v` itself (nothing to do) or contains `v` (an infinite type).
pub open spec fn bind_var(cx: Bindings, v: usize, t: Shape, fuel: nat) -> (UnifyResult, Bindings) {
    let n = normalize(cx, t, fuel);
    if n == Shape::Var(v) {
        (Ok(()), cx)
    } else if mentions(v, n) {
        (Err(UnifyError::Occurs), cx)
    } else {
        (Ok(()), cx.update(v as int, Some(n)))
    }
}

/// After `res` succeeds, binds `v` to `t`.
pub open spec fn then_bind(res: (UnifyResult, Bindings), v: usize, t: Shape) -> (UnifyResult, Bindings) {
    if (res.0 is Ok) {
        (Ok(()), res.1.update(v as int, Some(t)))
    } else {
        res
    }
}

/// The index of the first field of `fields` named `name`.
pub open spec fn field_index(fields: Seq<(Seq<char>, Shape)>, name: Seq<char>) -> Option<int>
    decreases fields.len(),
{
    if fields.len() == 0 {
        None
    } else if fields[0].0 == name {
        Some(0)
    } else {
        match field_index(fields.drop_first(), name) {
            Some(k) => Some(k + 1),
            None => None,
        }
    }
}

pub proof fn lemma_field_index(fields: Seq<(Seq<char>, Shape)>, name: Seq<char>)
    ensures
        field_index(fields, name) is Some <==> exists|k: int| 0 <= k < fields.len() && fields[k].0 == name,
        field_index(fields, name) matches Some(k) ==> 0 <= k < fields.len() && fields[k].0 == name
            && forall|j: int| 0 <= j < k ==> fields[j].0 != name,
    decreases fields.len(),
{
    if fields.len() > 0 {
        lemma_field_index(fields.drop_first(), name);
        if fields[0].0 != name {
            if exists|k: int| 0 <= k < fields.len() && fields[k].0 == name {
                let k = choose|k: int| 0 <= k < fields.len() && fields[k].0 == name;
                assert(fields.drop_first()[k - 1].0 == name);
            }
            if let Some(k) = field_index(fields, name) {
                assert forall|j: int| 0 <= j < k implies fields[j].0 != name by {
                    if j > 0 {
                        assert(fields[j] == fields.drop_first()[j - 1]);
                    }
                }
            }
        }
    }
}

/// Whether two structs agree in name, kind and field names, in order.
pub open spec fn same_struct_head(
    n1: Seq<char>,
    k1: crate::ty::StructTyKind,
    f1: Seq<(Seq<char>, Shape)>,
    n2: Seq<char>,
    k2: crate::ty::StructTyKind,
    f2: Seq<(Seq<char>, Shape)>,
) -> bool {
    &&& n1 == n2
    &&& k1 == k2
    &&& f1.len() == f2.len()
    &&& forall|i: int| 0 <= i < f1.len() ==> f1[i].0 == f2[i].0
}

/// Unifies `a` (the type expected) with `b` (the type found), following at
/// most `fuel` bindings along any path. Returns the outcome and the bindings
/// after it; on failure the bindings made before the failure stay.
pub open spec fn unify(cx: Bindings, a: Shape, b: Shape, fuel: nat) -> (UnifyResult, Bindings)
    decreases fuel, a, b, 1nat,
{
    if (var_of(a) is Some && var_of(a)->0 >= cx.len()) || (var_of(b) is Some && var_of(b)->0
        >= cx.len()) {
        (Err(UnifyError::Unresolved), cx)
    } else if var_of(a) is Some && (binding(cx, var_of(a)->0) is Some) {
        if fuel == 0 {
            (Err(UnifyError::Occurs), cx)
        } else {
            unify(cx, binding(cx, var_of(a)->0)->0, b, (fuel - 1) as nat)
        }
    } else if var_of(b) is Some && (binding(cx, var_of(b)->0) is Some) {
        if fuel == 0 {
            (Err(UnifyError::Occurs), cx)
        } else {
            unify(cx, a, binding(cx, var_of(b)->0)->0, (fuel - 1) as nat)
        }
    } else {
        unify_heads(cx, a, b, fuel)
    }
}

/// Unification once neither side is a bound variable: decided by the two
/// outermost constructors.
pub open spec fn unify_heads(cx: Bindings, a: Shape, b: Shape, fuel: nat) -> (UnifyResult, Bindings)
    decreases fuel, a, b, 0nat,
{
    match (a, b) {
            (Shape::Var(v), Shape::Var(w)) => if v == w {
                (Ok(()), cx)
            } else {
                bind_var(cx, v, b, fuel)
            },
            (Shape::Var(v), _) => bind_var(cx, v, b, fuel),
            (_, Shape::Var(v)) => bind_var(cx, v, a, fuel),
            (Shape::AnyInt(v), _) if is_numeric(b) => (Ok(()), cx.update(v as int, Some(b))),
            (_, Shape::AnyInt(v)) if is_numeric(a) => (Ok(()), cx.update(v as int, Some(a))),
            (Shape::AnyFloat(v), Shape::Float(_)) => (Ok(()), cx.update(v as int, Some(b))),
            (Shape::Float(_), Shape::AnyFloat(v)) => (Ok(()), cx.update(v as int, Some(a))),
            (Shape::AnyInt(_), Shape::AnyInt(_)) => (Ok(()), cx),
            (Shape::AnyFloat(_), Shape::AnyFloat(_)) => (Ok(()), cx),
            (Shape::PartialStruct(v, ps), Shape::Struct(_, _, fs)) => then_bind(
                unify_partial(cx, ps, fs, fuel),
                v,
                b,
            ),
            (Shape::Struct(_, _, fs), Shape::PartialStruct(v, ps)) => then_bind(
                unify_partial_rev(cx, fs, ps, fuel),
                v,
                a,
            ),
            (Shape::PartialTuple(v, es), Shape::Tuple(ts)) => if es.len() <= ts.len() {
                then_bind(unify_all(cx, es, ts, fuel), v, b)
            } else {
                (Err(UnifyError::Mismatch), cx)
            },
            (Shape::Tuple(ts), Shape::PartialTuple(v, es)) => if es.len() <= ts.len() {
                then_bind(unify_all(cx, ts, es, fuel), v, a)
            } else {
                (Err(UnifyError::Mismatch), cx)
            },
            (Shape::Never, _) => (Ok(()), cx),
            (_, Shape::Never) => (Ok(()), cx),
            (Shape::Unit, Shape::Unit) => (Ok(()), cx),
            (Shape::Bool, Shape::Bool) => (Ok(()), cx),
            (Shape::Int(x), Shape::Int(y)) if x == y => (Ok(()), cx),
            (Shape::UInt(x), Shape::UInt(y)) if x == y => (Ok(()), cx),
            (Shape::Float(x), Shape::Float(y)) if x == y => (Ok(()), cx),
            (Shape::Pointer(x, m), Shape::Pointer(y, n)) if mut_compatible(n, m) => unify(
                cx,
                *x,
                *y,
                fuel,
            ),
            (Shape::MultiPointer(x, m), Shape::MultiPointer(y, n)) if mut_compatible(n, m) => unify(
                cx,
                *x,
                *y,
                fuel,
            ),
            (Shape::Slice(x, m), Shape::Slice(y, n)) if mut_compatible(n, m) => unify(
                cx,
                *x,
                *y,
                fuel,
            ),
            (Shape::Array(x, m), Shape::Array(y, n)) if m == n => unify(cx, *x, *y, fuel),
            (Shape::Tuple(xs), Shape::Tuple(ys)) if xs.len() == ys.len() => unify_all(
                cx,
                xs,
                ys,
                fuel,
            ),
            (Shape::Fn(ps, r, va), Shape::Fn(qs, s, vb)) if ps.len() == qs.len() && va == vb => {
                let (res, cx1) = unify_all(cx, ps, qs, fuel);
                if (res is Ok) {
                    unify(cx1, *r, *s, fuel)
                } else {
                    (res, cx1)
                }
            },
            (Shape::Struct(n1, k1, f1), Shape::Struct(n2, k2, f2)) if same_struct_head(
                n1,
                k1,
                f1,
                n2,
                k2,
                f2,
            ) => unify_fields(cx, f1, f2, fuel),
            (Shape::Type(x), Shape::Type(y)) => unify(cx, *x, *y, fuel),
            (Shape::Module(x), Shape::Module(y)) if x == y => (Ok(()), cx),
            _ => (Err(UnifyError::Mismatch), cx),
    }
}

/// Unifies two lists pairwise from the first pair on, stopping at the first
/// failure; the longer list's extra elements are not looked at.
pub open spec fn unify_all(cx: Bindings, xs: Seq<Shape>, ys: Seq<Shape>, fuel: nat) -> (
    UnifyResult,
    Bindings,
)
    decreases fuel, xs, ys, 2nat,
{
    if xs.len() == 0 || ys.len() == 0 {
        (Ok(()), cx)
    } else {
        let (res, cx1) = unify(cx, xs[0], ys[0], fuel);
        if (res is Ok) {
            unify_all(cx1, xs.drop_first(), ys.drop_first(), fuel)
        } else {
            (res, cx1)
        }
    }
}

/// Unifies the types of two field lists pairwise.
pub open spec fn unify_fields(
    cx: Bindings,
    xs: Seq<(Seq<char>, Shape)>,
    ys: Seq<(Seq<char>, Shape)>,
    fuel: nat,
) -> (UnifyResult, Bindings)
    decreases fuel, xs, ys, 2nat,
{
    if xs.len() == 0 || ys.len() == 0 {
        (Ok(()), cx)
    } else {
        let (res, cx1) = unify(cx, xs[0].1, ys[0].1, fuel);
        if (res is Ok) {
            unify_fields(cx1, xs.drop_first(), ys.drop_first(), fuel)
        } else {
            (res, cx1)
        }
    }
}

/// Unifies each known field of a partial struct (expected) with the field of
/// that name of a struct (found); a missing field is a mismatch.
pub open spec fn unify_partial(
    cx: Bindings,
    ps: Seq<(Seq<char>, Shape)>,
    fs: Seq<(Seq<char>, Shape)>,
    fuel: nat,
) -> (UnifyResult, Bindings)
    decreases fuel, ps, fs, 2nat,
{
    if ps.len() == 0 {
        (Ok(()), cx)
    } else {
        let (res, cx1) = match field_index(fs, ps[0].0) {
            Some(k) if 0 <= k < fs.len() => unify(cx, ps[0].1, fs[k].1, fuel),
            _ => (Err(UnifyError::Mismatch), cx),
        };
        if (res is Ok) {
            unify_partial(cx1, ps.drop_first(), fs, fuel)
        } else {
            (res, cx1)
        }
    }
}

/// As `unify_partial`, with the struct expected and the partial struct found.
pub open spec fn unify_partial_rev(
    cx: Bindings,
    fs: Seq<(Seq<char>, Shape)>,
    ps: Seq<(Seq<char>, Shape)>,
    fuel: nat,
) -> (UnifyResult, Bindings)
    decreases fuel, fs, ps, 2nat,
{
    if ps.len() == 0 {
        (Ok(()), cx)
    } else {
        let (res, cx1) = match field_index(fs, ps[0].0) {
            Some(k) if 0 <= k < fs.len() => unify(cx, fs[k].1, ps[0].1, fuel),
            _ => (Err(UnifyError::Mismatch), cx),
        };
        if (res is Ok) {
            unify_partial_rev(cx1, fs, ps.drop_first(), fuel)
        } else {
            (res, cx1)
        }
    }
}


/// Whether a pointer-like type of mutability `from` may stand where one of
/// mutability `to` is expected.
pub fn can_coerce_mut(from: bool, to: bool) -> (r: bool)
    ensures
        r == mut_compatible(from, to),
{
    from == to || (from && !to)
}

/// Whether variable `var` occurs anywhere in `ty`.
pub fn occurs(var: Ty, ty: &TyKind) -> (r: bool)
    ensures
        r == mentions(var.0, ty@),
    decreases ty, 0nat,
{
    if let Some(v) = TyContext::var_id(ty) {
        if v.0 == var.0 {
            return true;
        }
    }
    match ty {
        TyKind::Pointer(inner, _) => occurs(var, inner),
        TyKind::MultiPointer(inner, _) => occurs(var, inner),
        TyKind::Array(inner, _) => occurs(var, inner),
        TyKind::Slice(inner, _) => occurs(var, inner),
        TyKind::Type(inner) => occurs(var, inner),
        TyKind::Fn(f) => occurs_any(var, &f.params) || occurs(var, &f.ret),
        TyKind::Tuple(elems) => occurs_any(var, elems),
        TyKind::Struct(st) => occurs_fields(var, &st.fields),
        TyKind::Infer(_, InferTy::PartialStruct(p)) => occurs_named(var, &p.0),
        TyKind::Infer(_, InferTy::PartialTuple(elems)) => occurs_any(var, elems),
        _ => false,
    }
}

/// Whether variable `var` occurs in any of `tys`.
pub fn occurs_any(var: Ty, tys: &Vec<TyKind>) -> (r: bool)
    ensures
        r == mentions_any(var.0, shapes_of(tys@)),
    decreases tys, 1nat,
{
    let mut found = false;
    let mut i: usize = 0;
    while i < tys.len()
        invariant
            i <= tys@.len(),
            found == mentions_any(var.0, shapes_of(tys@).subrange(0, i as int)),
        decreases tys@.len() - i,
    {
        proof {
            lemma_shapes_of_len(tys@);
            lemma_shapes_of_index(tys@, i as int);
            let s = shapes_of(tys@);
            assert(s.subrange(0, i + 1).drop_last() =~= s.subrange(0, i as int));
        }
        found = found || occurs(var, &tys[i]);
        i += 1;
    }
    proof {
        lemma_shapes_of_len(tys@);
        assert(shapes_of(tys@).subrange(0, i as int) =~= shapes_of(tys@));
    }
    found
}


/// Whether variable `var` occurs in the type of any of `fields`.
pub fn occurs_fields(var: Ty, fields: &Vec<StructTyField>) -> (r: bool)
    ensures
        r == mentions_named(var.0, fields_of(fields@)),
    decreases fields, 1nat,
{
    proof {
        lemma_fields_of_len(fields@);
    }
    let mut found = false;
    let mut i: usize = 0;
    while i < fields.len()
        invariant
            i <= fields@.len(),
            fields_of(fields@).len() == fields@.len(),
            found == mentions_named(var.0, fields_of(fields@).subrange(0, i as int)),
        decreases fields@.len() - i,
    {
        proof {
            lemma_fields_of_index(fields@, i as int);
            let s = fields_of(fields@);
            assert(s.subrange(0, i + 1).drop_last() =~= s.subrange(0, i as int));
        }
        found = found || occurs(var, &fields[i].ty);
        i += 1;
    }
    assert(fields_of(fields@).subrange(0, i as int) =~= fields_of(fields@));
    found
}

/// Whether variable `var` occurs in the type of any of `named`.
pub fn occurs_named(var: Ty, named: &Vec<(String, TyKind)>) -> (r: bool)
    ensures
        r == mentions_named(var.0, named_of(named@)),
    decreases named, 1nat,
{
    proof {
        lemma_named_of_len(named@);
    }
    let mut found = false;
    let mut i: usize = 0;
    while i < named.len()
        invariant
            i <= named@.len(),
            named_of(named@).len() == named@.len(),
            found == mentions_named(var.0, named_of(named@).subrange(0, i as int)),
        decreases named@.len() - i,
    {
        proof {
            lemma_named_of_index(named@, i as int);
            let s = named_of(named@);
            assert(s.subrange(0, i + 1).drop_last() =~= s.subrange(0, i as int));
        }
        found = found || occurs(var, &named[i].1);
        i += 1;
    }
    assert(named_of(named@).subrange(0, i as int) =~= named_of(named@));
    found
}


/// Binds the unbound variable `var` to `ty` normalized, after the occurs check.
fn bind_var_exec(cx: &mut TyContext, var: Ty, ty: &TyKind, fuel: usize) -> (r: UnifyResult)
    requires
        old(cx).wf(),
        var.0 < old(cx)@.len(),
    ensures
        final(cx).wf(),
        final(cx)@.len() == old(cx)@.len(),
        (r, final(cx)@) == bind_var(old(cx)@, var.0, ty@, fuel as nat),
{
    let n = cx.normalize(ty, fuel);
    if let TyKind::Var(w) = &n {
        if w.0 == var.0 {
            return Ok(());
        }
    }
    if occurs(var, &n) {
        Err(UnifyError::Occurs)
    } else {
        cx.bind(var, n);
        Ok(())
    }
}

/// The index of the first of `fields` named `name`.
pub fn find_field(fields: &Vec<StructTyField>, name: &String) -> (r: Option<usize>)
    ensures
        r is Some == (field_index(fields_of(fields@), name@) is Some),
        r matches Some(k) ==> field_index(fields_of(fields@), name@) == Some(k as int) && k
            < fields@.len(),
{
    proof {
        lemma_fields_of_len(fields@);
        lemma_field_index(fields_of(fields@), name@);
    }
    let mut i: usize = 0;
    while i < fields.len()
        invariant
            i <= fields@.len(),
            fields_of(fields@).len() == fields@.len(),
            forall|j: int| 0 <= j < i ==> fields_of(fields@)[j].0 != name@,
        decreases fields@.len() - i,
    {
        proof {
            lemma_fields_of_index(fields@, i as int);
        }
        if fields[i].symbol == *name {
            proof {
                lemma_field_index(fields_of(fields@), name@);
                let fs = fields_of(fields@);
                assert(fs[i as int].0 == name@);
                let k = field_index(fs, name@)->0;
                if k < i {
                    assert(fs[k].0 != name@);
                } else if k > i {
                    assert(fs[i as int].0 != name@);
                }
            }
            return Some(i);
        }
        i += 1;
    }
    None
}

impl TyKind {
    /// Unifies `self` (the type expected) with `other` (the type found),
    /// binding free variables of `cx` as needed.
    pub fn unify(&self, other: &TyKind, cx: &mut TyContext) -> (r: UnifyResult)
        requires
            old(cx).wf(),
        ensures
            final(cx).wf(),
            final(cx)@.len() == old(cx)@.len(),
            (r, final(cx)@) == unify(old(cx)@, self@, other@, old(cx)@.len()),
    {
        let fuel = cx.len();
        unify_fuel(cx, self, other, fuel)
    }
}

impl Ty {
    /// Unifies the variables `self` (expected) and `other` (found).
    pub fn unify(&self, other: &Ty, cx: &mut TyContext) -> (r: UnifyResult)
        requires
            old(cx).wf(),
        ensures
            final(cx).wf(),
            final(cx)@.len() == old(cx)@.len(),
            (r, final(cx)@) == unify(old(cx)@, Shape::Var(self.0), Shape::Var(other.0), old(cx)@.len()),
    {
        self.kind().unify(&other.kind(), cx)
    }
}

/// Unifies `a` (expected) with `b` (found), following at most `fuel`
/// bindings along any path.
pub fn unify_fuel(cx: &mut TyContext, a: &TyKind, b: &TyKind, fuel: usize) -> (r: UnifyResult)
    requires
        old(cx).wf(),
    ensures
        final(cx).wf(),
        final(cx)@.len() == old(cx)@.len(),
        (r, final(cx)@) == unify(old(cx)@, a@, b@, fuel as nat),
    decreases fuel, a, b,
{
    let va = TyContext::var_id(a);
    let vb = TyContext::var_id(b);
    let n = cx.len();
    let a_out = match va {
        Some(v) => v.0 >= n,
        None => false,
    };
    let b_out = match vb {
        Some(v) => v.0 >= n,
        None => false,
    };
    if a_out || b_out {
        return Err(UnifyError::Unresolved);
    }
    if let Some(v) = va {
        if let Some(t) = cx.find_binding(v) {
            if fuel == 0 {
                return Err(UnifyError::Occurs);
            }
            let t = t.clone_ty();
            return unify_fuel(cx, &t, b, fuel - 1);
        }
    }
    if let Some(v) = vb {
        if let Some(t) = cx.find_binding(v) {
            if fuel == 0 {
                return Err(UnifyError::Occurs);
            }
            let t = t.clone_ty();
            return unify_fuel(cx, a, &t, fuel - 1);
        }
    }
    // Neither side is a bound variable: the heads decide.
    assert(unify(old(cx)@, a@, b@, fuel as nat) == unify_heads(old(cx)@, a@, b@, fuel as nat));
    match (a, b) {
        (TyKind::Var(v), TyKind::Var(w)) => if v.0 == w.0 {
            Ok(())
        } else {
            bind_var_exec(cx, *v, b, fuel)
        },
        (TyKind::Var(v), _) => bind_var_exec(cx, *v, b, fuel),
        (_, TyKind::Var(v)) => bind_var_exec(cx, *v, a, fuel),
        (TyKind::Infer(v, InferTy::AnyInt), TyKind::Int(_) | TyKind::UInt(_) | TyKind::Float(_)) => {
            cx.bind(*v, b.clone_ty());
            Ok(())
        },
        (TyKind::Int(_) | TyKind::UInt(_) | TyKind::Float(_), TyKind::Infer(v, InferTy::AnyInt)) => {
            cx.bind(*v, a.clone_ty());
            Ok(())
        },
        (TyKind::Infer(v, InferTy::AnyFloat), TyKind::Float(_)) => {
            cx.bind(*v, b.clone_ty());
            Ok(())
        },
        (TyKind::Float(_), TyKind::Infer(v, InferTy::AnyFloat)) => {
            cx.bind(*v, a.clone_ty());
            Ok(())
        },
        (TyKind::Infer(_, InferTy::AnyInt), TyKind::Infer(_, InferTy::AnyInt)) => Ok(()),
        (TyKind::Infer(_, InferTy::AnyFloat), TyKind::Infer(_, InferTy::AnyFloat)) => Ok(()),
        (TyKind::Infer(v, InferTy::PartialStruct(p)), TyKind::Struct(st)) => {
            let r = unify_partial_vec(cx, &p.0, &st.fields, fuel);
            if r.is_ok() {
                cx.bind(*v, b.clone_ty());
                Ok(())
            } else {
                r
            }
        },
        (TyKind::Struct(st), TyKind::Infer(v, InferTy::PartialStruct(p))) => {
            let r = unify_partial_vec_rev(cx, &st.fields, &p.0, fuel);
            if r.is_ok() {
                cx.bind(*v, a.clone_ty());
                Ok(())
            } else {
                r
            }
        },
        (TyKind::Infer(v, InferTy::PartialTuple(es)), TyKind::Tuple(ts)) => {
            proof {
                lemma_shapes_of_len(es@);
                lemma_shapes_of_len(ts@);
            }
            if es.len() <= ts.len() {
                let r = unify_vecs(cx, es, ts, fuel);
                if r.is_ok() {
                    cx.bind(*v, b.clone_ty());
                    Ok(())
                } else {
                    r
                }
            } else {
                Err(UnifyError::Mismatch)
            }
        },
        (TyKind::Tuple(ts), TyKind::Infer(v, InferTy::PartialTuple(es))) => {
            proof {
                lemma_shapes_of_len(es@);
                lemma_shapes_of_len(ts@);
            }
            if es.len() <= ts.len() {
                let r = unify_vecs(cx, ts, es, fuel);
                if r.is_ok() {
                    cx.bind(*v, a.clone_ty());
                    Ok(())
                } else {
                    r
                }
            } else {
                Err(UnifyError::Mismatch)
            }
        },
        (TyKind::Never, _) => Ok(()),
        (_, TyKind::Never) => Ok(()),
        (TyKind::Unit, TyKind::Unit) => Ok(()),
        (TyKind::Bool, TyKind::Bool) => Ok(()),
        (TyKind::Int(x), TyKind::Int(y)) => if *x == *y {
            Ok(())
        } else {
            Err(UnifyError::Mismatch)
        },
        (TyKind::UInt(x), TyKind::UInt(y)) => if *x == *y {
            Ok(())
        } else {
            Err(UnifyError::Mismatch)
        },
        (TyKind::Float(x), TyKind::Float(y)) => if *x == *y {
            Ok(())
        } else {
            Err(UnifyError::Mismatch)
        },
        (TyKind::Pointer(x, m), TyKind::Pointer(y, n)) => if can_coerce_mut(*n, *m) {
            unify_fuel(cx, x, y, fuel)
        } else {
            Err(UnifyError::Mismatch)
        },
        (TyKind::MultiPointer(x, m), TyKind::MultiPointer(y, n)) => if can_coerce_mut(*n, *m) {
            unify_fuel(cx, x, y, fuel)
        } else {
            Err(UnifyError::Mismatch)
        },
        (TyKind::Slice(x, m), TyKind::Slice(y, n)) => if can_coerce_mut(*n, *m) {
            unify_fuel(cx, x, y, fuel)
        } else {
            Err(UnifyError::Mismatch)
        },
        (TyKind::Array(x, m), TyKind::Array(y, n)) => if *m == *n {
            unify_fuel(cx, x, y, fuel)
        } else {
            Err(UnifyError::Mismatch)
        },
        (TyKind::Tuple(xs), TyKind::Tuple(ys)) => {
            proof {
                lemma_shapes_of_len(xs@);
                lemma_shapes_of_len(ys@);
            }
            if xs.len() == ys.len() {
                unify_vecs(cx, xs, ys, fuel)
            } else {
                Err(UnifyError::Mismatch)
            }
        },
        (TyKind::Fn(f), TyKind::Fn(g)) => {
            proof {
                lemma_shapes_of_len(f.params@);
                lemma_shapes_of_len(g.params@);
            }
            if f.params.len() == g.params.len() && f.variadic == g.variadic {
                let r = unify_vecs(cx, &f.params, &g.params, fuel);
                if r.is_ok() {
                    unify_fuel(cx, &f.ret, &g.ret, fuel)
                } else {
                    r
                }
            } else {
                Err(UnifyError::Mismatch)
            }
        },
        (TyKind::Struct(s1), TyKind::Struct(s2)) => {
            if same_struct_head_exec(s1, s2) {
                unify_field_vecs(cx, &s1.fields, &s2.fields, fuel)
            } else {
                Err(UnifyError::Mismatch)
            }
        },
        (TyKind::Type(x), TyKind::Type(y)) => unify_fuel(cx, x, y, fuel),
        (TyKind::Module(x), TyKind::Module(y)) => if *x == *y {
            Ok(())
        } else {
            Err(UnifyError::Mismatch)
        },
        _ => Err(UnifyError::Mismatch),
    }
}

/// Whether two structs agree in name, kind and field names, in order.
fn same_struct_head_exec(s1: &crate::ty::StructTy, s2: &crate::ty::StructTy) -> (r: bool)
    ensures
        r == same_struct_head(
            s1.name@,
            s1.kind,
            fields_of(s1.fields@),
            s2.name@,
            s2.kind,
            fields_of(s2.fields@),
        ),
{
    proof {
        lemma_fields_of_len(s1.fields@);
        lemma_fields_of_len(s2.fields@);
    }
    if s1.name != s2.name || s1.kind != s2.kind || s1.fields.len() != s2.fields.len() {
        return false;
    }
    let mut i: usize = 0;
    while i < s1.fields.len()
        invariant
            i <= s1.fields@.len(),
            s1.fields@.len() == s2.fields@.len(),
            fields_of(s1.fields@).len() == s1.fields@.len(),
            fields_of(s2.fields@).len() == s2.fields@.len(),
            forall|j: int| 0 <= j < i ==> fields_of(s1.fields@)[j].0 == fields_of(s2.fields@)[j].0,
        decreases s1.fields@.len() - i,
    {
        proof {
            lemma_fields_of_index(s1.fields@, i as int);
            lemma_fields_of_index(s2.fields@, i as int);
        }
        if s1.fields[i].symbol != s2.fields[i].symbol {
            return false;
        }
        i += 1;
    }
    true
}

/// Unifies `xs` (expected) with `ys` (found) pairwise, up to the shorter.
pub fn unify_vecs(cx: &mut TyContext, xs: &Vec<TyKind>, ys: &Vec<TyKind>, fuel: usize) -> (r: UnifyResult)
    requires
        old(cx).wf(),
    ensures
        final(cx).wf(),
        final(cx)@.len() == old(cx)@.len(),
        (r, final(cx)@) == unify_all(old(cx)@, shapes_of(xs@), shapes_of(ys@), fuel as nat),
    decreases fuel, xs, ys,
{
    let ghost xsv = shapes_of(xs@);
    let ghost ysv = shapes_of(ys@);
    proof {
        lemma_shapes_of_len(xs@);
        lemma_shapes_of_len(ys@);
        assert(xsv.subrange(0, xsv.len() as int) =~= xsv);
        assert(ysv.subrange(0, ysv.len() as int) =~= ysv);
    }
    let mut i: usize = 0;
    while i < xs.len() && i < ys.len()
        invariant
            cx.wf(),
            cx@.len() == old(cx)@.len(),
            i <= xs@.len(),
            i <= ys@.len(),
            xsv == shapes_of(xs@),
            ysv == shapes_of(ys@),
            xsv.len() == xs@.len(),
            ysv.len() == ys@.len(),
            unify_all(old(cx)@, xsv, ysv, fuel as nat) == unify_all(
                cx@,
                xsv.subrange(i as int, xsv.len() as int),
                ysv.subrange(i as int, ysv.len() as int),
                fuel as nat,
            ),
        decreases xs@.len() - i,
    {
        proof {
            lemma_shapes_of_index(xs@, i as int);
            lemma_shapes_of_index(ys@, i as int);
            let xr = xsv.subrange(i as int, xsv.len() as int);
            let yr = ysv.subrange(i as int, ysv.len() as int);
            assert(xr.drop_first() =~= xsv.subrange(i + 1, xsv.len() as int));
            assert(yr.drop_first() =~= ysv.subrange(i + 1, ysv.len() as int));
            assert(xsv[i as int] == xs@[i as int]@);
            assert(xr[0] == xsv[i as int]);
            assert(yr[0] == ys@[i as int]@);
        }
        let r = unify_fuel(cx, &xs[i], &ys[i], fuel);
        if r.is_err() {
            return r;
        }
        i += 1;
    }
    assert(xsv.subrange(i as int, xsv.len() as int).len() == 0 || ysv.subrange(
        i as int,
        ysv.len() as int,
    ).len() == 0);
    Ok(())
}


/// Unifies the types of `xs` (expected) and `ys` (found) pairwise.
pub fn unify_field_vecs(
    cx: &mut TyContext,
    xs: &Vec<StructTyField>,
    ys: &Vec<StructTyField>,
    fuel: usize,
) -> (r: UnifyResult)
    requires
        old(cx).wf(),
    ensures
        final(cx).wf(),
        final(cx)@.len() == old(cx)@.len(),
        (r, final(cx)@) == unify_fields(old(cx)@, fields_of(xs@), fields_of(ys@), fuel as nat),
    decreases fuel, xs, ys,
{
    let ghost xsv = fields_of(xs@);
    let ghost ysv = fields_of(ys@);
    proof {
        lemma_fields_of_len(xs@);
        lemma_fields_of_len(ys@);
        assert(xsv.subrange(0, xsv.len() as int) =~= xsv);
        assert(ysv.subrange(0, ysv.len() as int) =~= ysv);
    }
    let mut i: usize = 0;
    while i < xs.len() && i < ys.len()
        invariant
            cx.wf(),
            cx@.len() == old(cx)@.len(),
            i <= xs@.len(),
            i <= ys@.len(),
            xsv == fields_of(xs@),
            ysv == fields_of(ys@),
            xsv.len() == xs@.len(),
            ysv.len() == ys@.len(),
            unify_fields(old(cx)@, xsv, ysv, fuel as nat) == unify_fields(
                cx@,
                xsv.subrange(i as int, xsv.len() as int),
                ysv.subrange(i as int, ysv.len() as int),
                fuel as nat,
            ),
        decreases xs@.len() - i,
    {
        proof {
            lemma_fields_of_index(xs@, i as int);
            lemma_fields_of_index(ys@, i as int);
            let xr = xsv.subrange(i as int, xsv.len() as int);
            let yr = ysv.subrange(i as int, ysv.len() as int);
            assert(xr.drop_first() =~= xsv.subrange(i + 1, xsv.len() as int));
            assert(yr.drop_first() =~= ysv.subrange(i + 1, ysv.len() as int));
            assert(xr[0].1 == xs@[i as int].ty@);
            assert(yr[0].1 == ys@[i as int].ty@);
        }
        let r = unify_fuel(cx, &xs[i].ty, &ys[i].ty, fuel);
        if r.is_err() {
            return r;
        }
        i += 1;
    }
    assert(xsv.subrange(i as int, xsv.len() as int).len() == 0 || ysv.subrange(
        i as int,
        ysv.len() as int,
    ).len() == 0);
    Ok(())
}

/// Unifies each of the known fields `ps` of a partial struct (expected) with
/// the field of that name in `fs` (found).
pub fn unify_partial_vec(
    cx: &mut TyContext,
    ps: &Vec<(String, TyKind)>,
    fs: &Vec<StructTyField>,
    fuel: usize,
) -> (r: UnifyResult)
    requires
        old(cx).wf(),
    ensures
        final(cx).wf(),
        final(cx)@.len() == old(cx)@.len(),
        (r, final(cx)@) == unify_partial(old(cx)@, named_of(ps@), fields_of(fs@), fuel as nat),
    decreases fuel, ps, fs,
{
    let ghost psv = named_of(ps@);
    let ghost fsv = fields_of(fs@);
    proof {
        lemma_named_of_len(ps@);
        lemma_fields_of_len(fs@);
        assert(psv.subrange(0, psv.len() as int) =~= psv);
    }
    let mut i: usize = 0;
    while i < ps.len()
        invariant
            cx.wf(),
            cx@.len() == old(cx)@.len(),
            i <= ps@.len(),
            psv == named_of(ps@),
            fsv == fields_of(fs@),
            psv.len() == ps@.len(),
            fsv.len() == fs@.len(),
            unify_partial(old(cx)@, psv, fsv, fuel as nat) == unify_partial(
                cx@,
                psv.subrange(i as int, psv.len() as int),
                fsv,
                fuel as nat,
            ),
        decreases ps@.len() - i,
    {
        proof {
            lemma_named_of_index(ps@, i as int);
            let pr = psv.subrange(i as int, psv.len() as int);
            assert(pr.drop_first() =~= psv.subrange(i + 1, psv.len() as int));
            assert(pr[0] == (ps@[i as int].0@, ps@[i as int].1@));
        }
        let r = match find_field(fs, &ps[i].0) {
            Some(k) => {
                proof {
                    lemma_fields_of_index(fs@, k as int);
                }
                unify_fuel(cx, &ps[i].1, &fs[k].ty, fuel)
            },
            None => Err(UnifyError::Mismatch),
        };
        if r.is_err() {
            return r;
        }
        i += 1;
    }
    Ok(())
}

/// As `unify_partial_vec`, with the struct fields `fs` expected and the
/// partial struct's fields `ps` found.
pub fn unify_partial_vec_rev(
    cx: &mut TyContext,
    fs: &Vec<StructTyField>,
    ps: &Vec<(String, TyKind)>,
    fuel: usize,
) -> (r: UnifyResult)
    requires
        old(cx).wf(),
    ensures
        final(cx).wf(),
        final(cx)@.len() == old(cx)@.len(),
        (r, final(cx)@) == unify_partial_rev(old(cx)@, fields_of(fs@), named_of(ps@), fuel as nat),
    decreases fuel, fs, ps,
{
    let ghost psv = named_of(ps@);
    let ghost fsv = fields_of(fs@);
    proof {
        lemma_named_of_len(ps@);
        lemma_fields_of_len(fs@);
        assert(psv.subrange(0, psv.len() as int) =~= psv);
    }
    let mut i: usize = 0;
    while i < ps.len()
        invariant
            cx.wf(),
            cx@.len() == old(cx)@.len(),
            i <= ps@.len(),
            psv == named_of(ps@),
            fsv == fields_of(fs@),
            psv.len() == ps@.len(),
            fsv.len() == fs@.len(),
            unify_partial_rev(old(cx)@, fsv, psv, fuel as nat) == unify_partial_rev(
                cx@,
                fsv,
                psv.subrange(i as int, psv.len() as int),
                fuel as nat,
            ),
        decreases ps@.len() - i,
    {
        proof {
            lemma_named_of_index(ps@, i as int);
            let pr = psv.subrange(i as int, psv.len() as int);
            assert(pr.drop_first() =~= psv.subrange(i + 1, psv.len() as int));
            assert(pr[0] == (ps@[i as int].0@, ps@[i as int].1@));
        }
        let r = match find_field(fs, &ps[i].0) {
            Some(k) => {
                proof {
                    lemma_fields_of_index(fs@, k as int);
                }
                unify_fuel(cx, &fs[k].ty, &ps[i].1, fuel)
            },
            None => Err(UnifyError::Mismatch),
        };
        if r.is_err() {
            return r;
        }
        i += 1;
    }
    Ok(())
}


/// Whether every pointer, multi-pointer and slice of `a` has the same
/// mutability as the one at the same place in `b`.
pub open spec fn mut_agree(a: Shape, b: Shape) -> bool
    decreases a,
{
    match (a, b) {
        (Shape::Pointer(x, m), Shape::Pointer(y, n)) => m == n && mut_agree(*x, *y),
        (Shape::MultiPointer(x, m), Shape::MultiPointer(y, n)) => m == n && mut_agree(*x, *y),
        (Shape::Slice(x, m), Shape::Slice(y, n)) => m == n && mut_agree(*x, *y),
        (Shape::Array(x, _), Shape::Array(y, _)) => mut_agree(*x, *y),
        (Shape::Type(x), Shape::Type(y)) => mut_agree(*x, *y),
        (Shape::Tuple(xs), Shape::Tuple(ys)) => forall|i: int|
            0 <= i < xs.len() && i < ys.len() ==> mut_agree(#[trigger] xs[i], ys[i]),
        (Shape::Fn(ps, r, _), Shape::Fn(qs, s, _)) => (forall|i: int|
            0 <= i < ps.len() && i < qs.len() ==> mut_agree(#[trigger] ps[i], qs[i])) && mut_agree(
            *r,
            *s,
        ),
        (Shape::Struct(_, _, f), Shape::Struct(_, _, g)) => forall|i: int|
            0 <= i < f.len() && i < g.len() ==> mut_agree(#[trigger] f[i].1, g[i].1),
        _ => true,
    }
}

pub proof fn lemma_unify_var_free(cx: Bindings, a: Shape, b: Shape, fuel: nat)
    requires
        var_free(a),
        var_free(b),
    ensures
        unify(cx, a, b, fuel).1 == cx,
        unify(cx, b, a, fuel).1 == cx,
        mut_agree(a, b) ==> (unify(cx, a, b, fuel).0 is Ok <==> unify(cx, b, a, fuel).0 is Ok),
    decreases a, 0nat,
{
    assert(unify(cx, a, b, fuel) == unify_heads(cx, a, b, fuel));
    assert(unify(cx, b, a, fuel) == unify_heads(cx, b, a, fuel));
    match (a, b) {
        (Shape::Pointer(x, _), Shape::Pointer(y, _)) => lemma_unify_var_free(cx, *x, *y, fuel),
        (Shape::MultiPointer(x, _), Shape::MultiPointer(y, _)) => lemma_unify_var_free(
            cx,
            *x,
            *y,
            fuel,
        ),
        (Shape::Slice(x, _), Shape::Slice(y, _)) => lemma_unify_var_free(cx, *x, *y, fuel),
        (Shape::Array(x, _), Shape::Array(y, _)) => lemma_unify_var_free(cx, *x, *y, fuel),
        (Shape::Type(x), Shape::Type(y)) => lemma_unify_var_free(cx, *x, *y, fuel),
        (Shape::Tuple(xs), Shape::Tuple(ys)) => lemma_unify_all_var_free(cx, xs, ys, fuel),
        (Shape::Fn(ps, r, _), Shape::Fn(qs, s, _)) => {
            lemma_unify_all_var_free(cx, ps, qs, fuel);
            lemma_unify_var_free(cx, *r, *s, fuel);
        },
        (Shape::Struct(n1, k1, f1), Shape::Struct(n2, k2, f2)) => {
            lemma_unify_fields_var_free(cx, f1, f2, fuel);
            if same_struct_head(n1, k1, f1, n2, k2, f2) {
                assert(same_struct_head(n2, k2, f2, n1, k1, f1));
            } else {
                assert(!same_struct_head(n2, k2, f2, n1, k1, f1));
            }
        },
        _ => {},
    }
}

pub proof fn lemma_unify_all_var_free(cx: Bindings, xs: Seq<Shape>, ys: Seq<Shape>, fuel: nat)
    requires
        forall|i: int| 0 <= i < xs.len() ==> var_free(#[trigger] xs[i]),
        forall|i: int| 0 <= i < ys.len() ==> var_free(#[trigger] ys[i]),
    ensures
        unify_all(cx, xs, ys, fuel).1 == cx,
        unify_all(cx, ys, xs, fuel).1 == cx,
        (forall|i: int| 0 <= i < xs.len() && i < ys.len() ==> mut_agree(#[trigger] xs[i], ys[i]))
            ==> (unify_all(cx, xs, ys, fuel).0 is Ok <==> unify_all(cx, ys, xs, fuel).0 is Ok),
    decreases xs, 1nat,
{
    if xs.len() > 0 && ys.len() > 0 {
        assert(var_free(xs[0]) && var_free(ys[0]));
        lemma_unify_var_free(cx, xs[0], ys[0], fuel);
        let xt = xs.drop_first();
        let yt = ys.drop_first();
        assert forall|i: int| 0 <= i < xt.len() implies var_free(#[trigger] xt[i]) by {
            assert(xt[i] == xs[i + 1]);
        }
        assert forall|i: int| 0 <= i < yt.len() implies var_free(#[trigger] yt[i]) by {
            assert(yt[i] == ys[i + 1]);
        }
        lemma_unify_all_var_free(cx, xt, yt, fuel);
        if forall|i: int| 0 <= i < xs.len() && i < ys.len() ==> mut_agree(#[trigger] xs[i], ys[i]) {
            assert(mut_agree(xs[0], ys[0]));
            assert forall|i: int| 0 <= i < xt.len() && i < yt.len() implies mut_agree(
                #[trigger] xt[i],
                yt[i],
            ) by {
                assert(xt[i] == xs[i + 1]);
                assert(yt[i] == ys[i + 1]);
            }
        }
    }
}

pub proof fn lemma_unify_fields_var_free(
    cx: Bindings,
    xs: Seq<(Seq<char>, Shape)>,
    ys: Seq<(Seq<char>, Shape)>,
    fuel: nat,
)
    requires
        forall|i: int| 0 <= i < xs.len() ==> var_free(#[trigger] xs[i].1),
        forall|i: int| 0 <= i < ys.len() ==> var_free(#[trigger] ys[i].1),
    ensures
        unify_fields(cx, xs, ys, fuel).1 == cx,
        unify_fields(cx, ys, xs, fuel).1 == cx,
        (forall|i: int| 0 <= i < xs.len() && i < ys.len() ==> mut_agree(#[trigger] xs[i].1, ys[i].1))
            ==> (unify_fields(cx, xs, ys, fuel).0 is Ok <==> unify_fields(cx, ys, xs, fuel).0 is Ok),
    decreases xs, 1nat,
{
    if xs.len() > 0 && ys.len() > 0 {
        assert(var_free(xs[0].1) && var_free(ys[0].1));
        lemma_unify_var_free(cx, xs[0].1, ys[0].1, fuel);
        let xt = xs.drop_first();
        let yt = ys.drop_first();
        assert forall|i: int| 0 <= i < xt.len() implies var_free(#[trigger] xt[i].1) by {
            assert(xt[i] == xs[i + 1]);
        }
        assert forall|i: int| 0 <= i < yt.len() implies var_free(#[trigger] yt[i].1) by {
            assert(yt[i] == ys[i + 1]);
        }
        lemma_unify_fields_var_free(cx, xt, yt, fuel);
        if forall|i: int| 0 <= i < xs.len() && i < ys.len() ==> mut_agree(#[trigger] xs[i].1, ys[i].1) {
            assert(mut_agree(xs[0].1, ys[0].1));
            assert forall|i: int| 0 <= i < xt.len() && i < yt.len() implies mut_agree(
                #[trigger] xt[i].1,
                yt[i].1,
            ) by {
                assert(xt[i] == xs[i + 1]);
                assert(yt[i] == ys[i + 1]);
            }
        }
    }
}

/// For two types without variables, unification binds nothing, and it
/// succeeds in one order exactly when it succeeds in the other, provided
/// their pointers agree in mutability (a mutable pointer may stand for an
/// immutable one, not the reverse).
pub proof fn lemma_unify_symmetric(cx: Bindings, a: Shape, b: Shape, fuel: nat)
    requires
        var_free(a),
        var_free(b),
        mut_agree(a, b),
    ensures
        unify(cx, a, b, fuel).0 is Ok <==> unify(cx, b, a, fuel).0 is Ok,
        unify(cx, a, b, fuel).1 == cx,
        unify(cx, b, a, fuel).1 == cx,
{
    lemma_unify_var_free(cx, a, b, fuel);
}


/// Unifying an unbound variable `v` with a type that is not itself a
/// variable and that, once normalized, contains `v` fails with an occurs
/// error, in either order, and binds nothing.
pub proof fn lemma_occurs_check(cx: Bindings, v: usize, t: Shape, fuel: nat)
    requires
        v < cx.len(),
        cx[v as int] is None,
        var_of(t) is None,
        mentions(v, normalize(cx, t, fuel)),
    ensures
        unify(cx, Shape::Var(v), t, fuel) == (Err::<(), UnifyError>(UnifyError::Occurs), cx),
        unify(cx, t, Shape::Var(v), fuel) == (Err::<(), UnifyError>(UnifyError::Occurs), cx),
{
    assert(normalize(cx, t, fuel) != Shape::Var(v));
    assert(unify(cx, Shape::Var(v), t, fuel) == unify_heads(cx, Shape::Var(v), t, fuel));
    assert(unify(cx, t, Shape::Var(v), fuel) == unify_heads(cx, t, Shape::Var(v), fuel));
}

/// The occurs check also sees through a bound variable: unifying an
/// unbound `v` with a variable `w` bound to a type that is not itself a
/// variable and that, once normalized, contains `v` fails with an occurs
/// error, in either order, and binds nothing.
pub proof fn lemma_occurs_check_bound(cx: Bindings, v: usize, w: usize, fuel: nat)
    requires
        v < cx.len(),
        w < cx.len(),
        cx[v as int] is None,
        cx[w as int] is Some,
        var_of(cx[w as int]->0) is None,
        fuel >= 1,
        mentions(v, normalize(cx, cx[w as int]->0, (fuel - 1) as nat)),
    ensures
        unify(cx, Shape::Var(v), Shape::Var(w), fuel) == (Err::<(), UnifyError>(UnifyError::Occurs), cx),
        unify(cx, Shape::Var(w), Shape::Var(v), fuel) == (Err::<(), UnifyError>(UnifyError::Occurs), cx),
{
    let t = cx[w as int]->0;
    lemma_occurs_check(cx, v, t, (fuel - 1) as nat);
}

/// An unbound integer-literal variable unified with a concrete integer or
/// float type, in either order, is bound to that type; two unbound
/// integer-literal variables unify without binding either.
pub proof fn lemma_anyint_defaulting(cx: Bindings, v: usize, w: usize, t: Shape, fuel: nat)
    requires
        v < cx.len(),
        w < cx.len(),
        cx[v as int] is None,
        cx[w as int] is None,
        is_numeric(t),
    ensures
        unify(cx, Shape::AnyInt(v), t, fuel) == (Ok::<(), UnifyError>(()), cx.update(v as int, Some(t))),
        unify(cx, t, Shape::AnyInt(v), fuel) == (Ok::<(), UnifyError>(()), cx.update(v as int, Some(t))),
        unify(cx, Shape::AnyInt(v), Shape::AnyInt(w), fuel) == (Ok::<(), UnifyError>(()), cx),
{
    assert(unify(cx, Shape::AnyInt(v), t, fuel) == unify_heads(cx, Shape::AnyInt(v), t, fuel));
    assert(unify(cx, t, Shape::AnyInt(v), fuel) == unify_heads(cx, t, Shape::AnyInt(v), fuel));
    assert(unify(cx, Shape::AnyInt(v), Shape::AnyInt(w), fuel) == unify_heads(
        cx,
        Shape::AnyInt(v),
        Shape::AnyInt(w),
        fuel,
    ));
}

pub proof fn lemma_partial_missing_field(
    cx: Bindings,
    ps: Seq<(Seq<char>, Shape)>,
    fs: Seq<(Seq<char>, Shape)>,
    fuel: nat,
    i: int,
)
    requires
        0 <= i < ps.len(),
        field_index(fs, ps[i].0) is None,
    ensures
        unify_partial(cx, ps, fs, fuel).0 is Err,
    decreases ps.len(),
{
    if i > 0 {
        let (res, cx1) = match field_index(fs, ps[0].0) {
            Some(k) if 0 <= k < fs.len() => unify(cx, ps[0].1, fs[k].1, fuel),
            _ => (Err(UnifyError::Mismatch), cx),
        };
        if (res is Ok) {
            assert(ps.drop_first()[i - 1] == ps[i]);
            lemma_partial_missing_field(cx1, ps.drop_first(), fs, fuel, i - 1);
        }
    }
}

/// A partial struct whose one known field `name` is an unbound integer
/// literal unifies with a struct that has a field `name` of a numeric type:
/// the literal takes that field's type and the partial struct becomes the
/// struct. A partial struct with a field that the struct lacks does not
/// unify with it.
pub proof fn lemma_partial_struct_subset(
    cx: Bindings,
    v: usize,
    w: usize,
    name: Seq<char>,
    sname: Seq<char>,
    kind: crate::ty::StructTyKind,
    fs: Seq<(Seq<char>, Shape)>,
    fuel: nat,
)
    requires
        v < cx.len(),
        w < cx.len(),
        v != w,
        cx[v as int] is None,
        cx[w as int] is None,
    ensures
        field_index(fs, name) is Some && is_numeric(fs[field_index(fs, name)->0].1) ==> unify(
            cx,
            Shape::PartialStruct(v, seq![(name, Shape::AnyInt(w))]),
            Shape::Struct(sname, kind, fs),
            fuel,
        ) == (
            Ok::<(), UnifyError>(()),
            cx.update(w as int, Some(fs[field_index(fs, name)->0].1)).update(
                v as int,
                Some(Shape::Struct(sname, kind, fs)),
            ),
        ),
        field_index(fs, name) is None ==> unify(
            cx,
            Shape::PartialStruct(v, seq![(name, Shape::AnyInt(w))]),
            Shape::Struct(sname, kind, fs),
            fuel,
        ).0 is Err,
{
    let a = Shape::PartialStruct(v, seq![(name, Shape::AnyInt(w))]);
    let b = Shape::Struct(sname, kind, fs);
    let ps = seq![(name, Shape::AnyInt(w))];
    assert(unify(cx, a, b, fuel) == unify_heads(cx, a, b, fuel));
    lemma_field_index(fs, name);
    if let Some(k) = field_index(fs, name) {
        if is_numeric(fs[k].1) {
            assert(unify(cx, Shape::AnyInt(w), fs[k].1, fuel) == unify_heads(
                cx,
                Shape::AnyInt(w),
                fs[k].1,
                fuel,
            ));
            let cx1 = cx.update(w as int, Some(fs[k].1));
            assert(ps.drop_first().len() == 0);
            assert(unify_partial(cx1, ps.drop_first(), fs, fuel) == (Ok::<(), UnifyError>(()), cx1));
        }
    } else {
        lemma_partial_missing_field(cx, ps, fs, fuel, 0);
    }
}

} // verus!
