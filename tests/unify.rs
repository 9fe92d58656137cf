use chili::check::check_return_type;
use chili::coerce::CoercionResult;
use chili::diagnostic::DiagnosticKind;
use chili::display::DisplayTy;
use chili::span::Span;
use chili::ty::{
    FloatTy, FnTy, InferTy, IntTy, PartialStructTy, StructTy, StructTyField, StructTyKind, Ty,
    TyKind, UIntTy,
};
use chili::tycx::TyContext;
use chili::unify::{can_coerce_mut, occurs, UnifyError};

fn field(name: &str, ty: TyKind) -> StructTyField {
    StructTyField { symbol: name.to_string(), ty, span: Span::unknown() }
}

fn point(fields: Vec<StructTyField>) -> TyKind {
    TyKind::Struct(StructTy {
        name: "Point".to_string(),
        binding_info_id: 0,
        fields,
        kind: StructTyKind::Struct,
    })
}

fn bound_to(cx: &TyContext, v: usize) -> Option<String> {
    cx.find_binding(Ty(v)).map(|t| t.display(cx))
}

#[test]
fn anyint_binds_to_i64() {
    let mut cx = TyContext::new();
    let lit = cx.anyint(Span::unknown());
    assert!(lit.unify(&TyKind::Int(IntTy::I64), &mut cx).is_ok());
    assert_eq!(bound_to(&cx, 0), Some("i64".to_string()));
}

#[test]
fn anyint_binds_to_u8_in_another_session() {
    let mut cx = TyContext::new();
    let lit = cx.anyint(Span::unknown());
    assert!(TyKind::UInt(UIntTy::U8).unify(&lit, &mut cx).is_ok());
    assert_eq!(bound_to(&cx, 0), Some("u8".to_string()));
}

#[test]
fn two_anyints_stay_unbound() {
    let mut cx = TyContext::new();
    let a = cx.anyint(Span::unknown());
    let b = cx.anyint(Span::unknown());
    assert!(a.unify(&b, &mut cx).is_ok());
    assert!(cx.find_binding(Ty(0)).is_none());
    assert!(cx.find_binding(Ty(1)).is_none());
}

#[test]
fn anyint_rejects_bool() {
    let mut cx = TyContext::new();
    let lit = cx.anyint(Span::unknown());
    assert_eq!(lit.unify(&TyKind::Bool, &mut cx), Err(UnifyError::Mismatch));
    assert!(cx.find_binding(Ty(0)).is_none());
}

#[test]
fn anyfloat_binds_only_to_floats() {
    let mut cx = TyContext::new();
    let lit = cx.anyfloat(Span::unknown());
    assert_eq!(lit.unify(&TyKind::Int(IntTy::I32), &mut cx), Err(UnifyError::Mismatch));
    assert!(lit.unify(&TyKind::Float(FloatTy::F64), &mut cx).is_ok());
    assert_eq!(bound_to(&cx, 0), Some("f64".to_string()));
}

#[test]
fn occurs_check_on_pointer_to_self() {
    let mut cx = TyContext::new();
    let v = cx.var(Span::unknown());
    let ptr = TyKind::Pointer(Box::new(TyKind::Var(v)), false);
    assert_eq!(TyKind::Var(v).unify(&ptr, &mut cx), Err(UnifyError::Occurs));
    assert_eq!(ptr.unify(&TyKind::Var(v), &mut cx), Err(UnifyError::Occurs));
    assert!(cx.find_binding(v).is_none());
    assert!(occurs(v, &ptr));
    assert!(!occurs(Ty(7), &ptr));
}

#[test]
fn occurs_check_through_a_tuple() {
    let mut cx = TyContext::new();
    let v = cx.var(Span::unknown());
    let tuple = TyKind::Tuple(vec![TyKind::Bool, TyKind::Var(v)]);
    assert_eq!(TyKind::Var(v).unify(&tuple, &mut cx), Err(UnifyError::Occurs));
}

#[test]
fn variable_binds_to_normalized_type() {
    let mut cx = TyContext::new();
    let a = cx.var(Span::unknown());
    let b = cx.var(Span::unknown());
    assert!(TyKind::Var(b).unify(&TyKind::Bool, &mut cx).is_ok());
    let ptr = TyKind::Pointer(Box::new(TyKind::Var(b)), true);
    assert!(TyKind::Var(a).unify(&ptr, &mut cx).is_ok());
    assert_eq!(bound_to(&cx, 0), Some("*mut bool".to_string()));
    assert_eq!(a.display(&cx), "*mut bool");
}

#[test]
fn a_variable_unifies_with_itself() {
    let mut cx = TyContext::new();
    let v = cx.var(Span::unknown());
    assert!(v.unify(&v, &mut cx).is_ok());
    assert!(cx.find_binding(v).is_none());
}

#[test]
fn unknown_handle_is_unresolved() {
    let mut cx = TyContext::new();
    assert_eq!(Ty::unknown().unify(&Ty(0), &mut cx), Err(UnifyError::Unresolved));
    assert_eq!(Ty::unknown().0, usize::MAX);
}

#[test]
fn concrete_types_unify_symmetrically_without_binding() {
    let pairs: Vec<(TyKind, TyKind)> = vec![
        (TyKind::Int(IntTy::I32), TyKind::Int(IntTy::I32)),
        (TyKind::Int(IntTy::I32), TyKind::Int(IntTy::I64)),
        (TyKind::Bool, TyKind::Unit),
        (
            TyKind::Tuple(vec![TyKind::Bool, TyKind::Int(IntTy::I8)]),
            TyKind::Tuple(vec![TyKind::Bool, TyKind::Int(IntTy::I8)]),
        ),
        (
            TyKind::Tuple(vec![TyKind::Bool]),
            TyKind::Tuple(vec![TyKind::Bool, TyKind::Bool]),
        ),
        (
            TyKind::Array(Box::new(TyKind::Bool), 3),
            TyKind::Array(Box::new(TyKind::Bool), 4),
        ),
        (TyKind::Never, TyKind::Bool),
    ];
    for (a, b) in pairs.iter() {
        let mut cx = TyContext::new();
        let ab = a.unify(b, &mut cx).is_ok();
        let ba = b.unify(a, &mut cx).is_ok();
        assert_eq!(ab, ba);
        assert_eq!(cx.len(), 0);
    }
    let mut cx = TyContext::new();
    assert!(TyKind::Int(IntTy::I32).unify(&TyKind::Int(IntTy::I32), &mut cx).is_ok());
    assert!(TyKind::Never.unify(&TyKind::Bool, &mut cx).is_ok());
    assert_eq!(
        TyKind::Int(IntTy::I32).unify(&TyKind::Int(IntTy::I64), &mut cx),
        Err(UnifyError::Mismatch)
    );
}

#[test]
fn mutable_pointer_may_stand_for_immutable_one() {
    let mut cx = TyContext::new();
    let imm = TyKind::Pointer(Box::new(TyKind::Bool), false);
    let mutable = TyKind::Pointer(Box::new(TyKind::Bool), true);
    assert!(imm.unify(&mutable, &mut cx).is_ok());
    assert_eq!(mutable.unify(&imm, &mut cx), Err(UnifyError::Mismatch));
    assert!(can_coerce_mut(true, false));
    assert!(can_coerce_mut(false, false));
    assert!(can_coerce_mut(true, true));
    assert!(!can_coerce_mut(false, true));
}

#[test]
fn function_types_unify_by_params_and_return() {
    let mut cx = TyContext::new();
    let v = cx.var(Span::unknown());
    let f = TyKind::Fn(FnTy {
        params: vec![TyKind::Int(IntTy::I32)],
        ret: Box::new(TyKind::Var(v)),
        variadic: false,
    });
    let g = TyKind::Fn(FnTy {
        params: vec![TyKind::Int(IntTy::I32)],
        ret: Box::new(TyKind::Bool),
        variadic: false,
    });
    assert!(f.unify(&g, &mut cx).is_ok());
    assert_eq!(bound_to(&cx, 0), Some("bool".to_string()));
    let h = TyKind::Fn(FnTy { params: vec![], ret: Box::new(TyKind::Bool), variadic: false });
    assert_eq!(g.unify(&h, &mut cx), Err(UnifyError::Mismatch));
}

#[test]
fn partial_struct_matches_a_subset_of_fields() {
    let mut cx = TyContext::new();
    let w = cx.anyint(Span::unknown());
    let partial = cx.partial_struct(PartialStructTy(vec![("x".to_string(), w)]), Span::unknown());
    let full = point(vec![
        field("x", TyKind::Int(IntTy::I32)),
        field("y", TyKind::Bool),
    ]);
    assert!(partial.unify(&full, &mut cx).is_ok());
    assert_eq!(bound_to(&cx, 0), Some("i32".to_string()));
    assert_eq!(bound_to(&cx, 1), Some("Point".to_string()));
}

#[test]
fn partial_struct_fails_without_the_field() {
    let mut cx = TyContext::new();
    let w = cx.anyint(Span::unknown());
    let partial = cx.partial_struct(PartialStructTy(vec![("x".to_string(), w)]), Span::unknown());
    let other = point(vec![field("y", TyKind::Bool)]);
    assert_eq!(partial.unify(&other, &mut cx), Err(UnifyError::Mismatch));
    assert_eq!(other.unify(&partial, &mut cx), Err(UnifyError::Mismatch));
}

#[test]
fn partial_tuple_matches_a_prefix() {
    let mut cx = TyContext::new();
    let a = cx.var(Span::unknown());
    let partial = cx.partial_tuple(vec![TyKind::Var(a)], Span::unknown());
    let tuple = TyKind::Tuple(vec![TyKind::Bool, TyKind::Unit]);
    assert!(tuple.unify(&partial, &mut cx).is_ok());
    assert_eq!(bound_to(&cx, 0), Some("bool".to_string()));
    let short = TyKind::Tuple(vec![]);
    let b = cx.var(Span::unknown());
    let partial2 = cx.partial_tuple(vec![TyKind::Var(b)], Span::unknown());
    assert_eq!(partial2.unify(&short, &mut cx), Err(UnifyError::Mismatch));
}

#[test]
fn structs_unify_field_by_field() {
    let mut cx = TyContext::new();
    let v = cx.var(Span::unknown());
    let a = point(vec![field("x", TyKind::Var(v))]);
    let b = point(vec![field("x", TyKind::UInt(UIntTy::U16))]);
    assert!(a.unify(&b, &mut cx).is_ok());
    assert_eq!(bound_to(&cx, 0), Some("u16".to_string()));
    let c = point(vec![field("z", TyKind::UInt(UIntTy::U16))]);
    assert_eq!(b.unify(&c, &mut cx), Err(UnifyError::Mismatch));
}

#[test]
fn normalize_is_idempotent_on_concrete_types() {
    let cx = TyContext::new();
    let t = TyKind::Tuple(vec![
        TyKind::Bool,
        TyKind::Slice(Box::new(TyKind::UInt(UIntTy::U8)), false),
    ]);
    let once = cx.normalize(&t, 0);
    let twice = cx.normalize(&once, 0);
    assert!(once.same_shape(&t));
    assert!(twice.same_shape(&once));
}

#[test]
fn normalize_resolves_bound_variables() {
    let mut cx = TyContext::new();
    let v = cx.var(Span::unknown());
    cx.bind(v, TyKind::Int(IntTy::I16));
    let t = TyKind::Array(Box::new(TyKind::Var(v)), 3);
    let n = cx.normalize(&t, cx.len());
    assert_eq!(t.display(&cx), "[3]i16");
    assert!(n.same_shape(&TyKind::Array(Box::new(TyKind::Int(IntTy::I16)), 3)));
    let stuck = cx.normalize(&t, 0);
    assert!(!stuck.same_shape(&TyKind::Array(Box::new(TyKind::Int(IntTy::I16)), 3)));
}

#[test]
fn display_writes_source_syntax() {
    let cx = TyContext::new();
    let t = TyKind::Fn(FnTy {
        params: vec![TyKind::Bool, TyKind::Int(IntTy::I32)],
        ret: Box::new(TyKind::Tuple(vec![])),
        variadic: true,
    });
    assert_eq!(t.display(&cx), "fn(bool, i32, ..) -> ()");
    let s = TyKind::Slice(Box::new(TyKind::UInt(UIntTy::U8)), true);
    assert_eq!(s.display(&cx), "[]mut u8");
    assert_eq!(TyKind::str().display(&cx), "[]u8");
    assert_eq!(TyKind::Array(Box::new(TyKind::Bool), 120).display(&cx), "[120]bool");
    let anon = TyKind::Struct(StructTy::temp(vec![field("a", TyKind::Bool)], StructTyKind::Union));
    assert_eq!(anon.display(&cx), "union { a: bool }");
    assert_eq!(Ty(4).display(&cx), "?4");
}

#[test]
fn mismatched_return_type_is_reported_once() {
    let mut cx = TyContext::new();
    let body_span = Span::new(0, 40, 42);
    let ret_span = Span::new(0, 12, 16);
    let r = check_return_type(&mut cx, &TyKind::Bool, &TyKind::Int(IntTy::I32), body_span, Some(ret_span));
    let d = r.unwrap_err();
    assert_eq!(d.kind, DiagnosticKind::Mismatch);
    assert_eq!(d.message, "mismatched types - expected bool, but found i32");
    assert_eq!(d.labels.len(), 2);
    assert_eq!(d.labels[0].span, body_span);
    assert_eq!(d.labels[0].message, "expected bool");
    assert_eq!(d.labels[1].span, ret_span);
    let plain = check_return_type(&mut cx, &TyKind::Bool, &TyKind::Int(IntTy::I32), body_span, None);
    assert_eq!(plain.unwrap_err().labels.len(), 1);
    assert!(check_return_type(&mut cx, &TyKind::Bool, &TyKind::Never, body_span, None).is_ok());
}

#[test]
fn coercion_widens_integers_and_floats() {
    let w = 8;
    assert_eq!(
        TyKind::Int(IntTy::I8).try_coerce(&TyKind::Int(IntTy::I32), w),
        CoercionResult::CoerceToRight
    );
    assert_eq!(
        TyKind::Int(IntTy::I64).try_coerce(&TyKind::Int(IntTy::I16), w),
        CoercionResult::CoerceToLeft
    );
    assert_eq!(
        TyKind::UInt(UIntTy::UInt).try_coerce(&TyKind::UInt(UIntTy::U32), 4),
        CoercionResult::CoerceToRight
    );
    assert_eq!(
        TyKind::Float(FloatTy::F64).try_coerce(&TyKind::Float(FloatTy::F32), w),
        CoercionResult::CoerceToLeft
    );
    assert_eq!(
        TyKind::Int(IntTy::I8).try_coerce(&TyKind::UInt(UIntTy::U8), w),
        CoercionResult::NoCoercion
    );
}

#[test]
fn coercion_of_array_pointers() {
    let arr = |m: bool| {
        TyKind::Pointer(Box::new(TyKind::Array(Box::new(TyKind::UInt(UIntTy::U8)), 4)), m)
    };
    let slice = TyKind::Slice(Box::new(TyKind::UInt(UIntTy::U8)), false);
    assert_eq!(arr(false).try_coerce(&slice, 8), CoercionResult::CoerceToRight);
    assert_eq!(arr(true).try_coerce(&slice, 8), CoercionResult::CoerceToRight);
    assert_eq!(slice.try_coerce(&arr(false), 8), CoercionResult::CoerceToLeft);
    let mut_slice = TyKind::Slice(Box::new(TyKind::UInt(UIntTy::U8)), true);
    assert_eq!(arr(false).try_coerce(&mut_slice, 8), CoercionResult::NoCoercion);
    let multi = TyKind::MultiPointer(Box::new(TyKind::UInt(UIntTy::U8)), false);
    assert_eq!(arr(false).try_coerce(&multi, 8), CoercionResult::CoerceToRight);
    assert_eq!(multi.try_coerce(&arr(true), 8), CoercionResult::CoerceToLeft);
    let other = TyKind::Slice(Box::new(TyKind::Bool), false);
    assert_eq!(arr(false).try_coerce(&other, 8), CoercionResult::NoCoercion);
}

#[test]
fn type_predicates() {
    let mut cx = TyContext::new();
    let lit = cx.anyint(Span::unknown());
    assert!(lit.is_anyint() && lit.is_any_integer() && lit.is_number());
    assert!(TyKind::Float(FloatTy::F32).is_number());
    assert!(!TyKind::Bool.is_number());
    assert!(TyKind::raw_pointer(true).is_pointer());
    assert!(TyKind::Array(Box::new(TyKind::Bool), 1).is_aggregate());
    assert!(TyKind::char().is_uint());
    let p = TyKind::Bool.pointer_type(false);
    assert!(p.maybe_deref_once().is_bool());
    assert!(p.element_type().unwrap().is_bool());
    assert!(TyKind::Bool.element_type().is_none());
    assert!(TyKind::Unit.create_type().is_type());
    let st = point(vec![field("x", TyKind::Bool)]);
    assert!(st.into_struct().is_struct());
    assert!(!st.into_struct().is_anonymous());
    let anon = PartialStructTy(vec![("a".to_string(), TyKind::Bool)]).into_struct();
    assert!(anon.is_anonymous() && anon.fields.len() == 1);
}
