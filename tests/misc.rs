use chili::abi::AbiTyKind;
use chili::ast::{BinaryOp, UnaryOp};
use chili::library::{ExternLibrary, ExternLibraryPath};
use chili::span::Span;
use chili::token::TokenKind;
use chili::workspace::ParserCache;

#[test]
fn abi_kinds() {
    assert!(AbiTyKind::Direct.is_direct());
    assert!(!AbiTyKind::Direct.is_indirect());
    assert!(AbiTyKind::Indirect.is_indirect());
    assert!(AbiTyKind::Ignore.is_ignore());
    assert!(!AbiTyKind::Ignore.is_direct());
}

#[test]
fn operators_from_tokens_and_text() {
    assert_eq!(BinaryOp::from(&TokenKind::PlusEq), BinaryOp::Add);
    assert_eq!(BinaryOp::from(&TokenKind::LtLt), BinaryOp::Shl);
    assert_eq!(BinaryOp::Ne.to_string(), "!=");
    assert_eq!(BinaryOp::BitXor.to_string(), "^");
    assert_eq!(UnaryOp::from(&TokenKind::Bang), UnaryOp::Not);
    assert_eq!(UnaryOp::Ref(true).to_string(), "&mut ");
    assert_eq!(UnaryOp::Ref(false).to_string(), "&");
}

#[test]
fn system_and_file_libraries() {
    let sys = ExternLibrary::try_from_str("c", None, Span::unknown()).unwrap();
    assert_eq!(sys, ExternLibrary::System("c".to_string()));
    assert_eq!(sys.path(), "c");
    let file = ExternLibrary::try_from_str("./lib/libfoo.so", Some("/p/lib/libfoo.so".to_string()), Span::unknown())
        .unwrap();
    assert_eq!(file.path(), "/p/lib/libfoo.so");
    assert!(ExternLibrary::try_from_str("./missing.so", None, Span::unknown()).is_err());
    let classified = ExternLibrary::classify("m", false, true, Some("/x/m".to_string()), Span::unknown()).unwrap();
    assert_eq!(classified, ExternLibrary::Path(ExternLibraryPath { path: "/x/m".to_string() }));
    let by_path = ExternLibrary::from_str("/usr/lib/libz.so", "/usr/lib/libz.so".to_string());
    match by_path {
        ExternLibrary::Path(p) => assert_eq!(p.lib_dir(), Some("/usr/lib".to_string())),
        _ => panic!("not a file library"),
    }
}

#[test]
fn parser_cache_claims_each_file_once() {
    let mut cache = ParserCache::new();
    assert!(cache.claim("a.chl".to_string()));
    assert!(cache.claim("b.chl".to_string()));
    assert!(!cache.claim("a.chl".to_string()));
    assert_eq!(cache.parsed_files.len(), 2);
    cache.add_lines(10);
    cache.add_lines(u32::MAX);
    assert_eq!(cache.stats().total_lines, u32::MAX);
}

#[test]
fn spans_merge() {
    let a = Span::new(1, 3, 5);
    let b = Span::new(1, 9, 12);
    assert_eq!(a.to(&b), Span::new(1, 3, 12));
    assert_eq!(a.with_end(4), Span::new(1, 3, 4));
    assert_eq!(a.with_start(4), Span::new(1, 4, 5));
}
