use chili::ast::{BinaryOp, Expr, LiteralKind, UnaryOp};
use chili::diagnostic::DiagnosticKind;
use chili::parse::{Parser, Restrictions};
use chili::pattern::Pattern;
use chili::span::Span;
use chili::token::{Token, TokenKind};

/// Lays `words` out one after another with a space between, as tokens.
fn lex(words: Vec<(TokenKind, &str)>) -> Vec<Token> {
    let mut pos = 0;
    let mut out = Vec::new();
    for (kind, text) in words {
        out.push(Token::new(kind, text.to_string(), Span::new(0, pos, pos + text.len())));
        pos += text.len() + 1;
    }
    out.push(Token::new(TokenKind::Eof, String::new(), Span::new(0, pos, pos)));
    out
}

fn id(name: &str) -> (TokenKind, &str) {
    (TokenKind::Ident(name.to_string()), name)
}

fn lit(v: u64, text: &str) -> (TokenKind, &str) {
    (TokenKind::Int(v), text)
}

fn is_ident(e: &Expr, name: &str) -> bool {
    matches!(e, Expr::Ident { symbol, .. } if symbol == name)
}

#[test]
fn if_condition_is_not_a_struct_literal() {
    let tokens = lex(vec![
        (TokenKind::If, "if"),
        id("a"),
        (TokenKind::OpenCurly, "{"),
        id("b"),
        (TokenKind::CloseCurly, "}"),
        (TokenKind::Else, "else"),
        (TokenKind::OpenCurly, "{"),
        id("c"),
        (TokenKind::CloseCurly, "}"),
    ]);
    let mut p = Parser::new(tokens, 0);
    let e = p.parse_expr().unwrap();
    match e {
        Expr::If { cond, then, otherwise, .. } => {
            assert!(is_ident(&cond, "a"));
            match *then {
                Expr::Block { exprs, yields, .. } => {
                    assert_eq!(exprs.len(), 1);
                    assert!(is_ident(&exprs[0], "b"));
                    assert!(yields);
                }
                _ => panic!("then branch is not a block"),
            }
            match otherwise.map(|o| *o) {
                Some(Expr::Block { exprs, .. }) => assert!(is_ident(&exprs[0], "c")),
                _ => panic!("else branch is not a block"),
            }
        }
        _ => panic!("not an if"),
    }
    assert!(p.is_end());
    assert_eq!(p.restrictions, Restrictions::empty());
}

#[test]
fn struct_literal_suffix_outside_a_condition() {
    // (Point{x:1}) { y: 2 }
    let tokens = lex(vec![
        (TokenKind::OpenParen, "("),
        id("Point"),
        (TokenKind::OpenCurly, "{"),
        id("x"),
        (TokenKind::Colon, ":"),
        lit(1, "1"),
        (TokenKind::CloseCurly, "}"),
        (TokenKind::CloseParen, ")"),
        (TokenKind::OpenCurly, "{"),
        id("y"),
        (TokenKind::Colon, ":"),
        lit(2, "2"),
        (TokenKind::CloseCurly, "}"),
    ]);
    let mut p = Parser::new(tokens, 0);
    let e = p.parse_expr().unwrap();
    match e {
        Expr::StructLiteral { type_expr: Some(inner), fields, .. } => {
            assert_eq!(fields.len(), 1);
            assert_eq!(fields[0].0, "y");
            match *inner {
                Expr::Paren { inner, .. } => match *inner {
                    Expr::StructLiteral { type_expr: Some(name), fields, .. } => {
                        assert!(is_ident(&name, "Point"));
                        assert_eq!(fields[0].0, "x");
                    }
                    _ => panic!("inner is not a struct literal"),
                },
                _ => panic!("inner is not parenthesized"),
            }
        }
        _ => panic!("not a struct literal"),
    }
}

#[test]
fn while_condition_is_not_a_struct_literal() {
    let tokens = lex(vec![
        (TokenKind::While, "while"),
        id("go"),
        (TokenKind::OpenCurly, "{"),
        (TokenKind::Break, "break"),
        (TokenKind::CloseCurly, "}"),
    ]);
    let mut p = Parser::new(tokens, 0);
    match p.parse_expr().unwrap() {
        Expr::While { cond, block, .. } => {
            assert!(is_ident(&cond, "go"));
            assert!(matches!(*block, Expr::Block { .. }));
        }
        _ => panic!("not a while"),
    }
}

#[test]
fn tuple_member_chain_splits_float_lexeme() {
    // t.0.1 lexes as `t`, `.`, `0.1`
    let tokens = vec![
        Token::new(TokenKind::Ident("t".to_string()), "t".to_string(), Span::new(0, 0, 1)),
        Token::new(TokenKind::Dot, ".".to_string(), Span::new(0, 1, 2)),
        Token::new(TokenKind::Float, "0.1".to_string(), Span::new(0, 2, 5)),
        Token::new(TokenKind::Eof, String::new(), Span::new(0, 5, 5)),
    ];
    let mut p = Parser::new(tokens, 0);
    match p.parse_expr().unwrap() {
        Expr::MemberAccess { expr, member, member_span, .. } => {
            assert_eq!(member, "0");
            assert_eq!(member_span, Span::new(0, 4, 5));
            match *expr {
                Expr::MemberAccess { expr, member, member_span, .. } => {
                    assert_eq!(member, "0");
                    assert_eq!(member_span, Span::new(0, 2, 3));
                    assert!(is_ident(&expr, "t"));
                }
                _ => panic!("inner is not a member access"),
            }
        }
        _ => panic!("not a member access"),
    }
}

#[test]
fn member_access_by_name_and_index() {
    let tokens = lex(vec![
        id("a"),
        (TokenKind::Dot, "."),
        id("b"),
        (TokenKind::Dot, "."),
        lit(2, "2"),
    ]);
    let mut p = Parser::new(tokens, 0);
    match p.parse_expr().unwrap() {
        Expr::MemberAccess { expr, member, .. } => {
            assert_eq!(member, "2");
            assert!(matches!(*expr, Expr::MemberAccess { ref member, .. } if member == "b"));
        }
        _ => panic!("not a member access"),
    }
}

#[test]
fn binary_precedence_and_associativity() {
    // 1 + 2 * 3 - 4
    let tokens = lex(vec![
        lit(1, "1"),
        (TokenKind::Plus, "+"),
        lit(2, "2"),
        (TokenKind::Star, "*"),
        lit(3, "3"),
        (TokenKind::Minus, "-"),
        lit(4, "4"),
    ]);
    let mut p = Parser::new(tokens, 0);
    match p.parse_expr().unwrap() {
        Expr::Binary { op: BinaryOp::Sub, lhs, rhs, .. } => {
            assert!(matches!(*rhs, Expr::Literal { kind: LiteralKind::Int(4), .. }));
            match *lhs {
                Expr::Binary { op: BinaryOp::Add, lhs, rhs, .. } => {
                    assert!(matches!(*lhs, Expr::Literal { kind: LiteralKind::Int(1), .. }));
                    assert!(matches!(*rhs, Expr::Binary { op: BinaryOp::Mul, .. }));
                }
                _ => panic!("left operand is not the sum"),
            }
        }
        _ => panic!("not a subtraction"),
    }
}

#[test]
fn comparison_binds_looser_than_shift() {
    let tokens = lex(vec![
        id("a"),
        (TokenKind::Lt, "<"),
        id("b"),
        (TokenKind::LtLt, "<<"),
        lit(1, "1"),
        (TokenKind::AmpAmp, "&&"),
        id("c"),
    ]);
    let mut p = Parser::new(tokens, 0);
    match p.parse_expr().unwrap() {
        Expr::Binary { op: BinaryOp::And, lhs, .. } => match *lhs {
            Expr::Binary { op: BinaryOp::Lt, rhs, .. } => {
                assert!(matches!(*rhs, Expr::Binary { op: BinaryOp::Shl, .. }))
            }
            _ => panic!("not a comparison"),
        },
        _ => panic!("not a conjunction"),
    }
}

#[test]
fn unary_operators_chain() {
    // & mut - x
    let tokens = lex(vec![
        (TokenKind::Amp, "&"),
        (TokenKind::Mut, "mut"),
        (TokenKind::Minus, "-"),
        id("x"),
    ]);
    let mut p = Parser::new(tokens, 0);
    match p.parse_expr().unwrap() {
        Expr::Unary { op: UnaryOp::Ref(true), value, .. } => {
            assert!(matches!(*value, Expr::Unary { op: UnaryOp::Neg, .. }))
        }
        _ => panic!("not a reference"),
    }
}

#[test]
fn call_subscript_and_cast() {
    // f(1, 2)[0] as u8
    let tokens = lex(vec![
        id("f"),
        (TokenKind::OpenParen, "("),
        lit(1, "1"),
        (TokenKind::Comma, ","),
        lit(2, "2"),
        (TokenKind::CloseParen, ")"),
        (TokenKind::OpenBracket, "["),
        lit(0, "0"),
        (TokenKind::CloseBracket, "]"),
        (TokenKind::As, "as"),
        id("u8"),
    ]);
    let mut p = Parser::new(tokens, 0);
    match p.parse_expr().unwrap() {
        Expr::Cast { expr, target, .. } => {
            assert!(is_ident(&target, "u8"));
            match *expr {
                Expr::Subscript { expr, .. } => match *expr {
                    Expr::Call { args, .. } => assert_eq!(args.len(), 2),
                    _ => panic!("not a call"),
                },
                _ => panic!("not a subscript"),
            }
        }
        _ => panic!("not a cast"),
    }
}

#[test]
fn cast_target_does_not_take_a_second_cast() {
    // a as b as c: the second cast applies to the first
    let tokens = lex(vec![
        id("a"),
        (TokenKind::As, "as"),
        id("b"),
        (TokenKind::As, "as"),
        id("c"),
    ]);
    let mut p = Parser::new(tokens, 0);
    match p.parse_expr().unwrap() {
        Expr::Cast { expr, target, .. } => {
            assert!(is_ident(&target, "c"));
            assert!(matches!(*expr, Expr::Cast { .. }));
        }
        _ => panic!("not a cast"),
    }
}

#[test]
fn assignment_and_compound_assignment() {
    let tokens = lex(vec![id("x"), (TokenKind::PlusEq, "+="), lit(1, "1")]);
    let mut p = Parser::new(tokens, 0);
    assert!(matches!(p.parse_expr().unwrap(), Expr::CompoundAssign { op: BinaryOp::Add, .. }));
    let tokens = lex(vec![id("x"), (TokenKind::Eq, "="), id("y")]);
    let mut p = Parser::new(tokens, 0);
    assert!(matches!(p.parse_expr().unwrap(), Expr::Assign { .. }));
}

#[test]
fn tuple_literals_and_parens() {
    let tokens = lex(vec![
        (TokenKind::OpenParen, "("),
        lit(1, "1"),
        (TokenKind::Comma, ","),
        (TokenKind::True, "true"),
        (TokenKind::CloseParen, ")"),
    ]);
    let mut p = Parser::new(tokens, 0);
    match p.parse_expr().unwrap() {
        Expr::TupleLiteral { elements, .. } => assert_eq!(elements.len(), 2),
        _ => panic!("not a tuple"),
    }
    let tokens = lex(vec![(TokenKind::OpenParen, "("), id("z"), (TokenKind::CloseParen, ")")]);
    let mut p = Parser::new(tokens, 0);
    match p.parse_expr().unwrap() {
        Expr::Paren { inner, .. } => assert!(is_ident(&inner, "z")),
        _ => panic!("not parenthesized"),
    }
}

#[test]
fn missing_operand_is_a_syntax_error() {
    let tokens = lex(vec![lit(1, "1"), (TokenKind::Plus, "+")]);
    let mut p = Parser::new(tokens, 0);
    let d = p.parse_expr().unwrap_err();
    assert_eq!(d.kind, DiagnosticKind::Syntax);
    assert_eq!(d.message, "expected an expression");
}

#[test]
fn let_patterns() {
    let tokens = lex(vec![
        (TokenKind::Let, "let"),
        (TokenKind::OpenParen, "("),
        (TokenKind::Mut, "mut"),
        id("a"),
        (TokenKind::Comma, ","),
        id("b"),
        (TokenKind::CloseParen, ")"),
        (TokenKind::Eq, "="),
        id("t"),
    ]);
    let mut p = Parser::new(tokens, 0);
    match p.parse_stmt().unwrap() {
        Expr::Binding { pattern: Pattern::TupleUnpack(u), value: Some(_), .. } => {
            assert_eq!(u.symbols.len(), 2);
            assert!(u.symbols[0].is_mutable);
            assert_eq!(u.symbols[1].symbol, "b");
        }
        _ => panic!("not a tuple binding"),
    }
}

#[test]
fn parsing_recovers_after_an_error() {
    // let x = ; let y = 2; z;
    let tokens = lex(vec![
        (TokenKind::Let, "let"),
        id("x"),
        (TokenKind::Eq, "="),
        (TokenKind::Semicolon, ";"),
        (TokenKind::Let, "let"),
        id("y"),
        (TokenKind::Eq, "="),
        lit(2, "2"),
        (TokenKind::Semicolon, ";"),
        id("z"),
        (TokenKind::Semicolon, ";"),
    ]);
    let mut p = Parser::new(tokens, 3);
    let ast = p.parse();
    assert_eq!(ast.module_id, 3);
    assert_eq!(ast.bindings.len(), 1);
    assert_eq!(p.diagnostics.len(), 2);
    assert!(p.diagnostics.iter().all(|d| d.kind == DiagnosticKind::Syntax));
}

#[test]
fn missing_end_token_is_added() {
    let p = Parser::new(vec![], 0);
    assert!(p.is_end());
    assert_eq!(p.tokens.len(), 1);
}

#[test]
fn use_declarations() {
    // use m.{a, b: c}; pub use n.?;
    let tokens = lex(vec![
        (TokenKind::Use, "use"),
        id("m"),
        (TokenKind::Dot, "."),
        (TokenKind::OpenCurly, "{"),
        id("a"),
        (TokenKind::Comma, ","),
        id("b"),
        (TokenKind::Colon, ":"),
        id("c"),
        (TokenKind::CloseCurly, "}"),
        (TokenKind::Semicolon, ";"),
        (TokenKind::Pub, "pub"),
        (TokenKind::Use, "use"),
        id("n"),
        (TokenKind::Dot, "."),
        (TokenKind::QuestionMark, "?"),
        (TokenKind::Semicolon, ";"),
    ]);
    let mut p = Parser::new(tokens, 0);
    let ast = p.parse();
    assert!(p.diagnostics.is_empty());
    assert_eq!(ast.uses.len(), 3);
    assert_eq!(ast.uses[0].module, "m");
    assert_eq!(ast.uses[0].alias, "a");
    assert_eq!(ast.uses[1].alias, "c");
    assert_eq!(ast.uses[1].use_path.len(), 1);
    assert_eq!(ast.uses[2].module, "n");
    assert_eq!(ast.uses[2].alias, "");
    assert!(matches!(ast.uses[2].use_path[0].0, chili::ast::UsePathNode::Wildcard));
    assert_eq!(ast.uses[2].visibility, chili::pattern::Visibility::Public);
}

#[test]
fn token_lexemes() {
    assert_eq!(TokenKind::LtLtEq.lexeme(), "<<=");
    assert_eq!(TokenKind::RightArrow.lexeme(), "->");
    assert_eq!(TokenKind::Ident("x".to_string()).lexeme(), "identifier");
    assert_eq!(TokenKind::Eof.lexeme(), "EOF");
}

#[test]
fn type_expressions() {
    // *mut [3]u8
    let tokens = lex(vec![
        (TokenKind::Star, "*"),
        (TokenKind::Mut, "mut"),
        (TokenKind::OpenBracket, "["),
        lit(3, "3"),
        (TokenKind::CloseBracket, "]"),
        id("u8"),
    ]);
    let mut p = Parser::new(tokens, 0);
    match p.parse_expr().unwrap() {
        Expr::PointerType { inner, is_mutable: true, .. } => match *inner {
            Expr::ArrayType { inner, size, .. } => {
                assert!(is_ident(&inner, "u8"));
                assert!(matches!(*size, Expr::Literal { kind: LiteralKind::Int(3), .. }));
            }
            _ => panic!("not an array type"),
        },
        _ => panic!("not a pointer type"),
    }
    // [*]u8 and []mut u8
    let tokens = lex(vec![
        (TokenKind::OpenBracket, "["),
        (TokenKind::Star, "*"),
        (TokenKind::CloseBracket, "]"),
        id("u8"),
    ]);
    let mut p = Parser::new(tokens, 0);
    assert!(matches!(p.parse_expr().unwrap(), Expr::MultiPointerType { is_mutable: false, .. }));
    let tokens = lex(vec![
        (TokenKind::OpenBracket, "["),
        (TokenKind::CloseBracket, "]"),
        (TokenKind::Mut, "mut"),
        id("u8"),
    ]);
    let mut p = Parser::new(tokens, 0);
    assert!(matches!(p.parse_expr().unwrap(), Expr::SliceType { is_mutable: true, .. }));
}

#[test]
fn struct_types() {
    // struct(packed) { a: u8, b: u16 }
    let tokens = lex(vec![
        (TokenKind::Struct, "struct"),
        (TokenKind::OpenParen, "("),
        id("packed"),
        (TokenKind::CloseParen, ")"),
        (TokenKind::OpenCurly, "{"),
        id("a"),
        (TokenKind::Colon, ":"),
        id("u8"),
        (TokenKind::Comma, ","),
        id("b"),
        (TokenKind::Colon, ":"),
        id("u16"),
        (TokenKind::CloseCurly, "}"),
    ]);
    let mut p = Parser::new(tokens, 0);
    match p.parse_expr().unwrap() {
        Expr::StructType { kind, fields, .. } => {
            assert_eq!(kind, chili::ty::StructTyKind::PackedStruct);
            assert_eq!(fields.len(), 2);
            assert_eq!(fields[1].0, "b");
        }
        _ => panic!("not a struct type"),
    }
    let tokens = lex(vec![
        (TokenKind::Struct, "struct"),
        (TokenKind::OpenParen, "("),
        id("tight"),
        (TokenKind::CloseParen, ")"),
        (TokenKind::OpenCurly, "{"),
        (TokenKind::CloseCurly, "}"),
    ]);
    let mut p = Parser::new(tokens, 0);
    assert_eq!(p.parse_expr().unwrap_err().message, "expected packed");
}

#[test]
fn double_reference() {
    let tokens = lex(vec![(TokenKind::AmpAmp, "&&"), (TokenKind::Mut, "mut"), id("x")]);
    let mut p = Parser::new(tokens, 0);
    match p.parse_expr().unwrap() {
        Expr::Unary { op: UnaryOp::Ref(false), value, .. } => {
            assert!(matches!(*value, Expr::Unary { op: UnaryOp::Ref(true), .. }))
        }
        _ => panic!("not a reference"),
    }
}

#[test]
fn deref_is_a_postfix_member() {
    let tokens = lex(vec![id("p"), (TokenKind::Dot, "."), (TokenKind::Star, "*")]);
    let mut p = Parser::new(tokens, 0);
    assert!(matches!(p.parse_expr().unwrap(), Expr::Unary { op: UnaryOp::Deref, .. }));
}

#[test]
fn for_loop_over_a_range() {
    // for x, i in 0..n { }
    let tokens = lex(vec![
        (TokenKind::For, "for"),
        id("x"),
        (TokenKind::Comma, ","),
        id("i"),
        (TokenKind::In, "in"),
        lit(0, "0"),
        (TokenKind::DotDot, ".."),
        id("n"),
        (TokenKind::OpenCurly, "{"),
        (TokenKind::CloseCurly, "}"),
    ]);
    let mut p = Parser::new(tokens, 0);
    match p.parse_expr().unwrap() {
        Expr::For { item, index, end: Some(end), .. } => {
            assert_eq!(item, "x");
            assert_eq!(index, Some("i".to_string()));
            assert!(is_ident(&end, "n"));
        }
        _ => panic!("not a for loop over a range"),
    }
}

#[test]
fn slices_and_array_literals() {
    // a[1..], .[1, 2], .[0; 4]
    let tokens = lex(vec![
        id("a"),
        (TokenKind::OpenBracket, "["),
        lit(1, "1"),
        (TokenKind::DotDot, ".."),
        (TokenKind::CloseBracket, "]"),
    ]);
    let mut p = Parser::new(tokens, 0);
    assert!(matches!(p.parse_expr().unwrap(), Expr::Slice { low: Some(_), high: None, .. }));
    let tokens = lex(vec![
        (TokenKind::Dot, "."),
        (TokenKind::OpenBracket, "["),
        lit(1, "1"),
        (TokenKind::Comma, ","),
        lit(2, "2"),
        (TokenKind::CloseBracket, "]"),
    ]);
    let mut p = Parser::new(tokens, 0);
    match p.parse_expr().unwrap() {
        Expr::ArrayLiteral { elements, fill_len: None, .. } => assert_eq!(elements.len(), 2),
        _ => panic!("not an array literal"),
    }
    let tokens = lex(vec![
        (TokenKind::Dot, "."),
        (TokenKind::OpenBracket, "["),
        lit(0, "0"),
        (TokenKind::Semicolon, ";"),
        lit(4, "4"),
        (TokenKind::CloseBracket, "]"),
    ]);
    let mut p = Parser::new(tokens, 0);
    assert!(matches!(p.parse_expr().unwrap(), Expr::ArrayLiteral { fill_len: Some(_), .. }));
}

#[test]
fn token_symbols() {
    let t = Token::new(TokenKind::Str("hi".to_string()), "\"hi\"".to_string(), Span::unknown());
    assert_eq!(t.symbol(), "hi");
    let t = Token::new(TokenKind::Ident("x".to_string()), "x".to_string(), Span::unknown());
    assert_eq!(t.into_id(), "x");
}

#[test]
fn builtin_calls() {
    let tokens = lex(vec![
        (TokenKind::At, "@"),
        id("import"),
        (TokenKind::OpenParen, "("),
        (TokenKind::Str("std/io".to_string()), "\"std/io\""),
        (TokenKind::CloseParen, ")"),
    ]);
    let mut p = Parser::new(tokens, 0);
    match p.parse_expr().unwrap() {
        Expr::Builtin { kind: chili::ast::BuiltinKind::Import(path), .. } => assert_eq!(path, "std/io"),
        _ => panic!("not an import"),
    }
    let tokens = lex(vec![
        (TokenKind::At, "@"),
        id("size_of"),
        (TokenKind::OpenParen, "("),
        id("u8"),
        (TokenKind::CloseParen, ")"),
    ]);
    let mut p = Parser::new(tokens, 0);
    assert!(matches!(
        p.parse_expr().unwrap(),
        Expr::Builtin { kind: chili::ast::BuiltinKind::SizeOf(_), .. }
    ));
    let tokens = lex(vec![
        (TokenKind::At, "@"),
        id("frobnicate"),
        (TokenKind::OpenParen, "("),
        (TokenKind::CloseParen, ")"),
    ]);
    let mut p = Parser::new(tokens, 0);
    assert_eq!(p.parse_expr().unwrap_err().kind, DiagnosticKind::UnknownSymbol);
}

#[test]
fn function_types() {
    // fn(i32, ..) -> bool
    let tokens = lex(vec![
        (TokenKind::Fn, "fn"),
        (TokenKind::OpenParen, "("),
        id("i32"),
        (TokenKind::Comma, ","),
        (TokenKind::DotDot, ".."),
        (TokenKind::CloseParen, ")"),
        (TokenKind::RightArrow, "->"),
        id("bool"),
    ]);
    let mut p = Parser::new(tokens, 0);
    match p.parse_expr().unwrap() {
        Expr::FnType { params, ret: Some(ret), variadic: true, .. } => {
            assert_eq!(params.len(), 1);
            assert!(is_ident(&ret, "bool"));
        }
        _ => panic!("not a function type"),
    }
}

#[test]
fn parenthesized_group_clears_restrictions() {
    // if (P { }) { }  : inside the parentheses a struct literal is allowed
    let tokens = lex(vec![
        (TokenKind::If, "if"),
        (TokenKind::OpenParen, "("),
        id("P"),
        (TokenKind::OpenCurly, "{"),
        (TokenKind::CloseCurly, "}"),
        (TokenKind::CloseParen, ")"),
        (TokenKind::OpenCurly, "{"),
        (TokenKind::CloseCurly, "}"),
    ]);
    let mut p = Parser::new(tokens, 0);
    match p.parse_expr().unwrap() {
        Expr::If { cond, .. } => match *cond {
            Expr::Paren { inner, .. } => assert!(matches!(*inner, Expr::StructLiteral { type_expr: Some(_), .. })),
            _ => panic!("condition is not parenthesized"),
        },
        _ => panic!("not an if"),
    }
}

#[test]
fn float_member_spans_follow_the_token() {
    // t.0.12: the inner access covers `0`, the outer one `12`
    let tokens = vec![
        Token::new(TokenKind::Ident("t".to_string()), "t".to_string(), Span::new(0, 0, 1)),
        Token::new(TokenKind::Dot, ".".to_string(), Span::new(0, 1, 2)),
        Token::new(TokenKind::Float, "0.12".to_string(), Span::new(0, 2, 6)),
        Token::new(TokenKind::Eof, String::new(), Span::new(0, 6, 6)),
    ];
    let mut p = Parser::new(tokens, 0);
    match p.parse_expr().unwrap() {
        Expr::MemberAccess { expr, member_span, .. } => {
            assert_eq!(member_span, Span::new(0, 4, 6));
            match *expr {
                Expr::MemberAccess { member_span, .. } => assert_eq!(member_span, Span::new(0, 2, 3)),
                _ => panic!("inner is not a member access"),
            }
        }
        _ => panic!("not a member access"),
    }
}

#[test]
fn named_arguments_come_last() {
    // f(1, b: 2) is accepted; f(a: 1, 2) is refused
    let tokens = lex(vec![
        id("f"),
        (TokenKind::OpenParen, "("),
        lit(1, "1"),
        (TokenKind::Comma, ","),
        id("b"),
        (TokenKind::Colon, ":"),
        lit(2, "2"),
        (TokenKind::CloseParen, ")"),
    ]);
    let mut p = Parser::new(tokens, 0);
    match p.parse_expr().unwrap() {
        Expr::Call { args, .. } => {
            assert!(args[0].name.is_none());
            assert_eq!(args[1].name, Some("b".to_string()));
        }
        _ => panic!("not a call"),
    }
    let tokens = lex(vec![
        id("f"),
        (TokenKind::OpenParen, "("),
        id("a"),
        (TokenKind::Colon, ":"),
        lit(1, "1"),
        (TokenKind::Comma, ","),
        lit(2, "2"),
        (TokenKind::CloseParen, ")"),
    ]);
    let mut p = Parser::new(tokens, 0);
    assert_eq!(p.parse_expr().unwrap_err().kind, DiagnosticKind::Syntax);
}

#[test]
fn trailing_function_literal() {
    // map(xs) fn(x: i32) { x }   and   map fn() { }
    let tokens = lex(vec![
        id("map"),
        (TokenKind::OpenParen, "("),
        id("xs"),
        (TokenKind::CloseParen, ")"),
        (TokenKind::Fn, "fn"),
        (TokenKind::OpenParen, "("),
        id("x"),
        (TokenKind::Colon, ":"),
        id("i32"),
        (TokenKind::CloseParen, ")"),
        (TokenKind::OpenCurly, "{"),
        id("x"),
        (TokenKind::CloseCurly, "}"),
    ]);
    let mut p = Parser::new(tokens, 0);
    match p.parse_expr().unwrap() {
        Expr::Call { callee, args, .. } => {
            assert!(is_ident(&callee, "map"));
            assert_eq!(args.len(), 2);
            match &args[1].value {
                Expr::Function { params, .. } => assert_eq!(params[0].0, Some("x".to_string())),
                _ => panic!("not a function literal"),
            }
        }
        _ => panic!("not a call"),
    }
    let tokens = lex(vec![
        id("map"),
        (TokenKind::Fn, "fn"),
        (TokenKind::OpenParen, "("),
        (TokenKind::CloseParen, ")"),
        (TokenKind::OpenCurly, "{"),
        (TokenKind::CloseCurly, "}"),
    ]);
    let mut p = Parser::new(tokens, 0);
    match p.parse_expr().unwrap() {
        Expr::Call { callee, args, .. } => {
            assert!(is_ident(&callee, "map"));
            assert_eq!(args.len(), 1);
        }
        _ => panic!("not a call"),
    }
}

#[test]
fn every_stray_statement_is_reported_and_later_lets_kept() {
    // a; 1; let x = 2; b;
    let tokens = lex(vec![
        id("a"),
        (TokenKind::Semicolon, ";"),
        lit(1, "1"),
        (TokenKind::Semicolon, ";"),
        (TokenKind::Let, "let"),
        id("x"),
        (TokenKind::Eq, "="),
        lit(2, "2"),
        (TokenKind::Semicolon, ";"),
        id("b"),
        (TokenKind::Semicolon, ";"),
    ]);
    let mut p = Parser::new(tokens, 0);
    let ast = p.parse();
    assert_eq!(p.diagnostics.len(), 3);
    assert_eq!(ast.bindings.len(), 1);
}

#[test]
fn operator_chain_keeps_precedence() {
    // a - b + c * d
    let tokens = lex(vec![
        id("a"),
        (TokenKind::Minus, "-"),
        id("b"),
        (TokenKind::Plus, "+"),
        id("c"),
        (TokenKind::Star, "*"),
        id("d"),
    ]);
    let mut p = Parser::new(tokens, 0);
    match p.parse_expr().unwrap() {
        Expr::Binary { op: BinaryOp::Add, lhs, rhs, .. } => {
            assert!(matches!(*lhs, Expr::Binary { op: BinaryOp::Sub, .. }));
            assert!(matches!(*rhs, Expr::Binary { op: BinaryOp::Mul, .. }));
        }
        _ => panic!("not an addition"),
    }
}
