use chili::access::{check_assign_lvalue_id_access, check_id_access, InitScopes, InitState};
use chili::bind::{CheckSess, ConstValue, Env};
use chili::check::check_module;
use chili::diagnostic::DiagnosticKind;
use chili::display::DisplayTy;
use chili::parse::Parser;
use chili::pattern::{BindingKind, Pattern, SymbolPattern, UnpackPattern, Visibility};
use chili::span::Span;
use chili::token::{Token, TokenKind};
use chili::ty::{IntTy, StructTy, StructTyField, StructTyKind, Ty, TyKind};

fn tok(kind: TokenKind, text: &str, start: usize) -> Token {
    Token::new(kind, text.to_string(), Span::new(0, start, start + text.len()))
}

fn sym(name: &str, is_mutable: bool, start: usize) -> SymbolPattern {
    SymbolPattern::new(name.to_string(), is_mutable, Span::new(0, start, start + name.len()))
}

#[test]
fn duplicate_global_binding_is_reported_once() {
    // let x = 1; let x = 2;
    let tokens = vec![
        tok(TokenKind::Let, "let", 0),
        tok(TokenKind::Ident("x".to_string()), "x", 4),
        tok(TokenKind::Eq, "=", 6),
        tok(TokenKind::Int(1), "1", 8),
        tok(TokenKind::Semicolon, ";", 9),
        tok(TokenKind::Let, "let", 11),
        tok(TokenKind::Ident("x".to_string()), "x", 15),
        tok(TokenKind::Eq, "=", 17),
        tok(TokenKind::Int(2), "2", 19),
        tok(TokenKind::Semicolon, ";", 20),
        tok(TokenKind::Eof, "", 21),
    ];
    let mut parser = Parser::new(tokens, 0);
    let mut ast = parser.parse();
    assert!(parser.diagnostics.is_empty());
    assert_eq!(ast.bindings.len(), 2);
    let mut sess = CheckSess::new();
    let diagnostics = check_module(&mut sess, &mut ast);
    assert_eq!(diagnostics.len(), 1);
    let d = &diagnostics[0];
    assert_eq!(d.kind, DiagnosticKind::DuplicateSymbol);
    assert_eq!(d.message, "duplicate symbol `x`");
    assert_eq!(d.labels.len(), 2);
    assert_eq!(d.labels[0].span, Span::new(0, 15, 16));
    assert_eq!(d.labels[1].span, Span::new(0, 4, 5));
    assert_eq!(ast.bindings.len(), 2);
    assert_eq!(sess.bindings.len(), 1);
}

#[test]
fn immutable_binding_keeps_its_constant() {
    let mut sess = CheckSess::new();
    let mut env = Env::new(0);
    let mut p = sym("k", false, 0);
    let ty = sess.tycx.var(Span::unknown());
    sess.bind_symbol_pattern(&mut env, &mut p, Visibility::Public, ty, Some(ConstValue::Int(5)), BindingKind::Value)
        .unwrap();
    assert_eq!(p.binding_info_id, 0);
    assert!(matches!(sess.bindings[0].const_value, Some(ConstValue::Int(5))));
    assert_eq!(sess.get_global_symbol(0, &"k".to_string()), Some(0));
}

#[test]
fn mutable_binding_drops_its_constant() {
    let mut sess = CheckSess::new();
    let mut env = Env::new(0);
    let mut p = sym("m", true, 0);
    let ty = sess.tycx.var(Span::unknown());
    sess.bind_symbol_pattern(&mut env, &mut p, Visibility::Private, ty, Some(ConstValue::Int(5)), BindingKind::Value)
        .unwrap();
    assert!(sess.bindings[0].const_value.is_none());
    assert!(sess.bindings[0].is_mutable);
}

#[test]
fn local_binding_shadows() {
    let mut sess = CheckSess::new();
    let mut env = Env::new(0);
    env.push_scope("f".to_string());
    let ty = sess.tycx.var(Span::unknown());
    let a = sess
        .bind_symbol(&mut env, "v".to_string(), Visibility::Private, ty, None, false, BindingKind::Value, Span::unknown())
        .unwrap();
    let b = sess
        .bind_symbol(&mut env, "v".to_string(), Visibility::Private, ty, None, false, BindingKind::Value, Span::unknown())
        .unwrap();
    assert_ne!(a, b);
    assert_eq!(env.find_symbol(&"v".to_string()), Some(b));
    assert_eq!(sess.get_symbol(&env, &"v".to_string()), Some(b));
    assert_eq!(sess.bindings[b].scope_level, 1);
    env.pop_scope();
    assert_eq!(env.find_symbol(&"v".to_string()), None);
    assert_eq!(sess.get_symbol(&env, &"v".to_string()), None);
}

#[test]
fn tuple_unpack_binds_each_element() {
    let mut sess = CheckSess::new();
    let mut env = Env::new(0);
    env.push_scope("block".to_string());
    let tuple = TyKind::Tuple(vec![TyKind::Int(IntTy::I32), TyKind::Bool]);
    let ty = sess.tycx.bound(tuple, Span::unknown());
    let mut pattern = UnpackPattern { symbols: vec![sym("a", false, 1), sym("b", true, 4)], span: Span::new(0, 0, 6) };
    let value = ConstValue::Tuple(vec![ConstValue::Int(7), ConstValue::Bool(true)]);
    sess.bind_tuple_unpack_pattern(&mut env, &mut pattern, Visibility::Private, ty, Some(value), BindingKind::Value)
        .unwrap();
    let a = pattern.symbols[0].binding_info_id;
    let b = pattern.symbols[1].binding_info_id;
    assert_eq!(sess.bindings[a].symbol, "a");
    assert_eq!(sess.bindings[a].ty.display(&sess.tycx), "i32");
    assert_eq!(sess.bindings[b].ty.display(&sess.tycx), "bool");
    assert!(matches!(sess.bindings[a].const_value, Some(ConstValue::Int(7))));
    assert!(sess.bindings[b].const_value.is_none());
}

#[test]
fn tuple_unpack_of_a_non_tuple_fails() {
    let mut sess = CheckSess::new();
    let mut env = Env::new(0);
    env.push_scope("block".to_string());
    let ty = sess.tycx.bound(TyKind::Bool, Span::unknown());
    let mut pattern = UnpackPattern { symbols: vec![sym("a", false, 1)], span: Span::new(0, 0, 3) };
    let d = sess
        .bind_tuple_unpack_pattern(&mut env, &mut pattern, Visibility::Private, ty, None, BindingKind::Value)
        .unwrap_err();
    assert_eq!(d.kind, DiagnosticKind::Mismatch);
    assert_eq!(d.labels[0].span, Span::new(0, 0, 3));
    assert!(sess.bindings.is_empty());
}

#[test]
fn struct_unpack_binds_named_fields() {
    let mut sess = CheckSess::new();
    let mut env = Env::new(0);
    env.push_scope("block".to_string());
    let st = TyKind::Struct(StructTy {
        name: "P".to_string(),
        binding_info_id: 0,
        fields: vec![
            StructTyField { symbol: "x".to_string(), ty: TyKind::Int(IntTy::I32), span: Span::unknown() },
            StructTyField { symbol: "y".to_string(), ty: TyKind::Bool, span: Span::unknown() },
        ],
        kind: StructTyKind::Struct,
    });
    let ty = sess.tycx.bound(st, Span::unknown());
    let mut pattern = UnpackPattern { symbols: vec![sym("y", false, 1)], span: Span::new(0, 0, 3) };
    let value = ConstValue::Struct(vec![
        ("x".to_string(), ConstValue::Int(1)),
        ("y".to_string(), ConstValue::Bool(false)),
    ]);
    sess.bind_struct_unpack_pattern(&mut env, &mut pattern, Visibility::Private, ty, Some(value), BindingKind::Value)
        .unwrap();
    let y = pattern.symbols[0].binding_info_id;
    assert_eq!(sess.bindings[y].ty.display(&sess.tycx), "bool");
    assert!(matches!(sess.bindings[y].const_value, Some(ConstValue::Bool(false))));
    let mut missing = UnpackPattern { symbols: vec![sym("z", false, 1)], span: Span::new(0, 0, 3) };
    let d = sess
        .bind_struct_unpack_pattern(&mut env, &mut missing, Visibility::Private, ty, None, BindingKind::Value)
        .unwrap_err();
    assert_eq!(d.kind, DiagnosticKind::Mismatch);
}

#[test]
fn struct_unpack_of_a_module_reexports_its_names() {
    let mut sess = CheckSess::new();
    let mut lib_env = Env::new(1);
    let int_ty = sess.tycx.bound(TyKind::Int(IntTy::I64), Span::unknown());
    let exported = sess
        .bind_symbol(&mut lib_env, "answer".to_string(), Visibility::Public, int_ty, Some(ConstValue::Int(42)), false, BindingKind::Value, Span::unknown())
        .unwrap();
    let module_ty = sess.tycx.bound(TyKind::Module(1), Span::unknown());
    let mut env = Env::new(0);
    let mut pattern = UnpackPattern { symbols: vec![sym("answer", false, 1)], span: Span::new(0, 0, 8) };
    sess.bind_struct_unpack_pattern(&mut env, &mut pattern, Visibility::Private, module_ty, None, BindingKind::Import)
        .unwrap();
    let id = pattern.symbols[0].binding_info_id;
    assert_eq!(sess.bindings[id].redirect, Some(exported));
    assert_eq!(sess.bindings[id].ty, int_ty);
    assert!(matches!(sess.bindings[id].const_value, Some(ConstValue::Int(42))));
    let mut unknown = UnpackPattern { symbols: vec![sym("nope", false, 1)], span: Span::new(0, 0, 6) };
    let d = sess
        .bind_struct_unpack_pattern(&mut env, &mut unknown, Visibility::Private, module_ty, None, BindingKind::Import)
        .unwrap_err();
    assert_eq!(d.kind, DiagnosticKind::UnknownSymbol);
}

#[test]
fn bind_pattern_dispatches_on_the_pattern() {
    let mut sess = CheckSess::new();
    let mut env = Env::new(0);
    let ty = sess.tycx.var(Span::unknown());
    let mut p = Pattern::Symbol(sym("s", false, 0));
    sess.bind_pattern(&mut env, &mut p, Visibility::Private, ty, None, BindingKind::Value).unwrap();
    let mut again = Pattern::Symbol(sym("s", false, 9));
    let d = sess.bind_pattern(&mut env, &mut again, Visibility::Private, ty, None, BindingKind::Value).unwrap_err();
    assert_eq!(d.kind, DiagnosticKind::DuplicateSymbol);
    assert_eq!(sess.bindings.len(), 1);
    assert_eq!(Ty(0), ty);
}

#[test]
fn use_before_initialization_is_reported() {
    let mut sess = CheckSess::new();
    let mut env = Env::new(0);
    env.push_scope("f".to_string());
    let ty = sess.tycx.var(Span::unknown());
    let def = Span::new(0, 4, 5);
    let id = sess
        .bind_symbol(&mut env, "u".to_string(), Visibility::Private, ty, None, false, BindingKind::Value, def)
        .unwrap();
    let init = InitScopes { states: vec![InitState::NotInit] };
    let use_span = Span::new(0, 20, 21);
    let d = check_id_access(&sess, &init, id, use_span).unwrap_err();
    assert_eq!(d.kind, DiagnosticKind::UseBeforeInit);
    assert_eq!(d.message, "use of possibly uninitialized value `u`");
    assert_eq!(d.labels[0].span, use_span);
    assert_eq!(d.labels[1].span, def);
    let ready = InitScopes { states: vec![InitState::Init] };
    assert!(check_id_access(&sess, &ready, id, use_span).is_ok());
}

#[test]
fn second_assignment_to_immutable_is_reported() {
    let mut sess = CheckSess::new();
    let mut env = Env::new(0);
    env.push_scope("f".to_string());
    let ty = sess.tycx.var(Span::unknown());
    let id = sess
        .bind_symbol(&mut env, "k".to_string(), Visibility::Private, ty, None, false, BindingKind::Value, Span::new(0, 1, 2))
        .unwrap();
    let mut init = InitScopes { states: vec![InitState::NotInit] };
    assert!(check_assign_lvalue_id_access(&sess, &mut init, id, Span::new(0, 10, 11)).is_ok());
    assert_eq!(init.states[0], InitState::Init);
    let d = check_assign_lvalue_id_access(&sess, &mut init, id, Span::new(0, 20, 21)).unwrap_err();
    assert_eq!(d.kind, DiagnosticKind::AssignToImmutable);
    assert_eq!(d.message, "cannot assign twice to immutable variable `k`");
    let m = sess
        .bind_symbol(&mut env, "m".to_string(), Visibility::Private, ty, None, true, BindingKind::Value, Span::unknown())
        .unwrap();
    assert!(check_assign_lvalue_id_access(&sess, &mut init, m, Span::unknown()).is_ok());
    assert!(check_assign_lvalue_id_access(&sess, &mut init, m, Span::unknown()).is_ok());
}

#[test]
fn unpacking_a_type_value() {
    let mut sess = CheckSess::new();
    let v = sess.tycx.bound(TyKind::Bool.create_type(), Span::unknown());
    let t = sess.tycx.try_unpack_type(&TyKind::Var(v), Span::unknown()).unwrap();
    assert!(t.is_bool());
    let d = sess.tycx.try_unpack_type(&TyKind::Bool, Span::new(0, 1, 2)).unwrap_err();
    assert_eq!(d.kind, DiagnosticKind::ExpectedType);
}

#[test]
fn repeated_struct_field_names_share_the_constant() {
    let mut sess = CheckSess::new();
    let mut env = Env::new(0);
    env.push_scope("block".to_string());
    let st = TyKind::Struct(StructTy {
        name: "P".to_string(),
        binding_info_id: 0,
        fields: vec![StructTyField { symbol: "x".to_string(), ty: TyKind::Int(IntTy::I32), span: Span::unknown() }],
        kind: StructTyKind::Struct,
    });
    let ty = sess.tycx.bound(st, Span::unknown());
    let mut a = sym("x", false, 1);
    a.alias = Some("first".to_string());
    let mut b = sym("x", false, 4);
    b.alias = Some("second".to_string());
    let mut pattern = UnpackPattern { symbols: vec![a, b], span: Span::new(0, 0, 6) };
    let value = ConstValue::Struct(vec![("x".to_string(), ConstValue::Int(3))]);
    sess.bind_struct_unpack_pattern(&mut env, &mut pattern, Visibility::Private, ty, Some(value), BindingKind::Value)
        .unwrap();
    for p in pattern.symbols.iter() {
        assert!(matches!(sess.bindings[p.binding_info_id].const_value, Some(ConstValue::Int(3))));
    }
}
