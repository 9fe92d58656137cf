use vstd::prelude::*;

use crate::pattern::{Pattern, Visibility};
use crate::span::Span;
use crate::text::push_str;
use crate::token::TokenKind;

verus! {

#[derive(Debug, Clone, Copy, PartialEq, Eq, Structural)]
pub enum BinaryOp {
    Add,
    Sub,
    Mul,
    Div,
    Rem,
    Eq,
    Ne,
    Lt,
    Le,
    Gt,
    Ge,
    And,
    Or,
    Shl,
    Shr,
    BitAnd,
    BitOr,
    BitXor,
}

#[derive(Debug, Clone, Copy, PartialEq, Eq, Structural)]
pub enum UnaryOp {
    Ref(bool),
    Deref,
    Neg,
    Plus,
    Not,
}

/// The binary operator a token stands for, alone or as a compound assignment.
pub open spec fn binary_op_of(kind: TokenKind) -> Option<BinaryOp> {
    match kind {
        TokenKind::Plus | TokenKind::PlusEq => Some(BinaryOp::Add),
        TokenKind::Minus | TokenKind::MinusEq => Some(BinaryOp::Sub),
        TokenKind::Star | TokenKind::StarEq => Some(BinaryOp::Mul),
        TokenKind::FwSlash | TokenKind::FwSlashEq => Some(BinaryOp::Div),
        TokenKind::Percent | TokenKind::PercentEq => Some(BinaryOp::Rem),
        TokenKind::EqEq => Some(BinaryOp::Eq),
        TokenKind::BangEq => Some(BinaryOp::Ne),
        TokenKind::Lt => Some(BinaryOp::Lt),
        TokenKind::LtEq => Some(BinaryOp::Le),
        TokenKind::Gt => Some(BinaryOp::Gt),
        TokenKind::GtEq => Some(BinaryOp::Ge),
        TokenKind::AmpAmp => Some(BinaryOp::And),
        TokenKind::BarBar => Some(BinaryOp::Or),
        TokenKind::LtLt => Some(BinaryOp::Shl),
        TokenKind::GtGt => Some(BinaryOp::Shr),
        TokenKind::Amp => Some(BinaryOp::BitAnd),
        TokenKind::Bar => Some(BinaryOp::BitOr),
        TokenKind::Caret => Some(BinaryOp::BitXor),
        _ => None,
    }
}

pub open spec fn binary_op_text(op: BinaryOp) -> Seq<char> {
    match op {
        BinaryOp::Add => "+"@,
        BinaryOp::Sub => "-"@,
        BinaryOp::Mul => "*"@,
        BinaryOp::Div => "/"@,
        BinaryOp::Rem => "%"@,
        BinaryOp::Eq => "=="@,
        BinaryOp::Ne => "!="@,
        BinaryOp::Lt => "<"@,
        BinaryOp::Le => "<="@,
        BinaryOp::Gt => ">"@,
        BinaryOp::Ge => ">="@,
        BinaryOp::And => "&&"@,
        BinaryOp::Or => "||"@,
        BinaryOp::Shl => "<<"@,
        BinaryOp::Shr => ">>"@,
        BinaryOp::BitAnd => "&"@,
        BinaryOp::BitOr => "|"@,
        BinaryOp::BitXor => "^"@,
    }
}

impl BinaryOp {
    /// The operator that `kind` stands for.
    pub fn from(kind: &TokenKind) -> (r: BinaryOp)
        requires
            binary_op_of(*kind) is Some,
        ensures
            binary_op_of(*kind) == Some(r),
    {
        match kind {
            TokenKind::Plus | TokenKind::PlusEq => BinaryOp::Add,
            TokenKind::Minus | TokenKind::MinusEq => BinaryOp::Sub,
            TokenKind::Star | TokenKind::StarEq => BinaryOp::Mul,
            TokenKind::FwSlash | TokenKind::FwSlashEq => BinaryOp::Div,
            TokenKind::Percent | TokenKind::PercentEq => BinaryOp::Rem,
            TokenKind::EqEq => BinaryOp::Eq,
            TokenKind::BangEq => BinaryOp::Ne,
            TokenKind::Lt => BinaryOp::Lt,
            TokenKind::LtEq => BinaryOp::Le,
            TokenKind::Gt => BinaryOp::Gt,
            TokenKind::GtEq => BinaryOp::Ge,
            TokenKind::AmpAmp => BinaryOp::And,
            TokenKind::BarBar => BinaryOp::Or,
            TokenKind::LtLt => BinaryOp::Shl,
            TokenKind::GtGt => BinaryOp::Shr,
            TokenKind::Amp => BinaryOp::BitAnd,
            TokenKind::Bar => BinaryOp::BitOr,
            _ => BinaryOp::BitXor,
        }
    }

    /// How the operator is written.
    pub fn to_string(&self) -> (r: String)
        ensures
            r@ == binary_op_text(*self),
    {
        let mut s = String::new();
        push_str(
            &mut s,
            match self {
                BinaryOp::Add => "+",
                BinaryOp::Sub => "-",
                BinaryOp::Mul => "*",
                BinaryOp::Div => "/",
                BinaryOp::Rem => "%",
                BinaryOp::Eq => "==",
                BinaryOp::Ne => "!=",
                BinaryOp::Lt => "<",
                BinaryOp::Le => "<=",
                BinaryOp::Gt => ">",
                BinaryOp::Ge => ">=",
                BinaryOp::And => "&&",
                BinaryOp::Or => "||",
                BinaryOp::Shl => "<<",
                BinaryOp::Shr => ">>",
                BinaryOp::BitAnd => "&",
                BinaryOp::BitOr => "|",
                BinaryOp::BitXor => "^",
            },
        );
        assert(s@ =~= binary_op_text(*self));
        s
    }
}

pub open spec fn unary_op_of(kind: TokenKind) -> Option<UnaryOp> {
    match kind {
        TokenKind::Amp => Some(UnaryOp::Ref(false)),
        TokenKind::Minus => Some(UnaryOp::Neg),
        TokenKind::Plus => Some(UnaryOp::Plus),
        TokenKind::Bang => Some(UnaryOp::Not),
        _ => None,
    }
}

pub open spec fn unary_op_text(op: UnaryOp) -> Seq<char> {
    match op {
        UnaryOp::Ref(m) => if m {
            "&mut "@
        } else {
            "&"@
        },
        UnaryOp::Deref => "*"@,
        UnaryOp::Neg => "-"@,
        UnaryOp::Plus => "+"@,
        UnaryOp::Not => "!"@,
    }
}

impl UnaryOp {
    /// The prefix operator that `kind` stands for.
    pub fn from(kind: &TokenKind) -> (r: UnaryOp)
        requires
            unary_op_of(*kind) is Some,
        ensures
            unary_op_of(*kind) == Some(r),
    {
        match kind {
            TokenKind::Amp => UnaryOp::Ref(false),
            TokenKind::Minus => UnaryOp::Neg,
            TokenKind::Plus => UnaryOp::Plus,
            _ => UnaryOp::Not,
        }
    }

    pub fn to_string(&self) -> (r: String)
        ensures
            r@ == unary_op_text(*self),
    {
        let mut s = String::new();
        push_str(
            &mut s,
            match self {
                UnaryOp::Ref(m) => if *m {
                    "&mut "
                } else {
                    "&"
                },
                UnaryOp::Deref => "*",
                UnaryOp::Neg => "-",
                UnaryOp::Plus => "+",
                UnaryOp::Not => "!",
            },
        );
        assert(s@ =~= unary_op_text(*self));
        s
    }
}

#[derive(Debug)]
pub enum LiteralKind {
    Nil,
    Bool(bool),
    Int(u64),
    /// A float literal, as written.
    Float(String),
    Str(String),
    Char(char),
}

/// One argument of a call, `value` or `name: value`.
#[derive(Debug)]
pub struct CallArg {
    pub name: Option<String>,
    pub value: Expr,
}

/// A call of a compiler built-in, written `@name(..)`.
#[derive(Debug)]
pub enum BuiltinKind {
    /// `@import("path")`: the module in the file at `path`.
    Import(String),
    /// `@lang_item("name")`.
    LangItem(String),
    SizeOf(Box<Expr>),
    AlignOf(Box<Expr>),
    Panic(Option<Box<Expr>>),
    /// `@run(expr)`: evaluated while compiling.
    Run(Box<Expr>),
}

/// An expression or statement of the language.
#[derive(Debug)]
pub enum Expr {
    Ident { symbol: String, span: Span },
    Literal { kind: LiteralKind, span: Span },
    Binary { op: BinaryOp, lhs: Box<Expr>, rhs: Box<Expr>, span: Span },
    Unary { op: UnaryOp, value: Box<Expr>, span: Span },
    MemberAccess { expr: Box<Expr>, member: String, member_span: Span, span: Span },
    Call { callee: Box<Expr>, args: Vec<CallArg>, span: Span },
    Subscript { expr: Box<Expr>, index: Box<Expr>, span: Span },
    Cast { expr: Box<Expr>, target: Box<Expr>, span: Span },
    StructLiteral { type_expr: Option<Box<Expr>>, fields: Vec<(String, Expr)>, span: Span },
    TupleLiteral { elements: Vec<Expr>, span: Span },
    Block { exprs: Vec<Expr>, yields: bool, span: Span },
    If { cond: Box<Expr>, then: Box<Expr>, otherwise: Option<Box<Expr>>, span: Span },
    While { cond: Box<Expr>, block: Box<Expr>, span: Span },
    Assign { lhs: Box<Expr>, rhs: Box<Expr>, span: Span },
    CompoundAssign { op: BinaryOp, lhs: Box<Expr>, rhs: Box<Expr>, span: Span },
    Binding { pattern: Pattern, value: Option<Box<Expr>>, span: Span },
    Return { expr: Option<Box<Expr>>, span: Span },
    Break { span: Span },
    Continue { span: Span },
    /// `*T` or `*mut T`.
    PointerType { inner: Box<Expr>, is_mutable: bool, span: Span },
    /// `[*]T` or `[*mut]T`.
    MultiPointerType { inner: Box<Expr>, is_mutable: bool, span: Span },
    /// `[]T` or `[]mut T`.
    SliceType { inner: Box<Expr>, is_mutable: bool, span: Span },
    /// `[size]T`.
    ArrayType { inner: Box<Expr>, size: Box<Expr>, span: Span },
    /// `struct { .. }`, `struct(packed) { .. }` or `union { .. }`.
    StructType { kind: crate::ty::StructTyKind, fields: Vec<(String, Expr)>, span: Span },
    /// `.[a, b]`, or `.[value; len]` for `len` copies of `value`.
    ArrayLiteral { elements: Vec<Expr>, fill_len: Option<Box<Expr>>, span: Span },
    /// `expr[low..high]`, either bound left out.
    Slice { expr: Box<Expr>, low: Option<Box<Expr>>, high: Option<Box<Expr>>, span: Span },
    /// `for item, index in iterator { .. }`; the iterator is a range
    /// `start..end` when `end` is given.
    For {
        item: String,
        index: Option<String>,
        start: Box<Expr>,
        end: Option<Box<Expr>>,
        block: Box<Expr>,
        span: Span,
    },
    Builtin { kind: BuiltinKind, span: Span },
    /// `(inner)`: a parenthesized expression.
    Paren { inner: Box<Expr>, span: Span },
    /// `fn(T, U, ..) -> R`; `variadic` when the parameters end with `..`.
    FnType { params: Vec<(Option<String>, Expr)>, ret: Option<Box<Expr>>, variadic: bool, span: Span },
    /// A function literal: a signature, its parameters named, and a body.
    Function {
        params: Vec<(Option<String>, Expr)>,
        ret: Option<Box<Expr>>,
        variadic: bool,
        body: Box<Expr>,
        span: Span,
    },
    Error { span: Span },
}

impl Expr {
    pub open spec fn span_of(&self) -> Span {
        match self {
            Expr::Ident { span, .. } => *span,
            Expr::Literal { span, .. } => *span,
            Expr::Binary { span, .. } => *span,
            Expr::Unary { span, .. } => *span,
            Expr::MemberAccess { span, .. } => *span,
            Expr::Call { span, .. } => *span,
            Expr::Subscript { span, .. } => *span,
            Expr::Cast { span, .. } => *span,
            Expr::StructLiteral { span, .. } => *span,
            Expr::TupleLiteral { span, .. } => *span,
            Expr::Block { span, .. } => *span,
            Expr::If { span, .. } => *span,
            Expr::While { span, .. } => *span,
            Expr::Assign { span, .. } => *span,
            Expr::CompoundAssign { span, .. } => *span,
            Expr::Binding { span, .. } => *span,
            Expr::Return { span, .. } => *span,
            Expr::Break { span } => *span,
            Expr::Continue { span } => *span,
            Expr::PointerType { span, .. } => *span,
            Expr::MultiPointerType { span, .. } => *span,
            Expr::SliceType { span, .. } => *span,
            Expr::ArrayType { span, .. } => *span,
            Expr::StructType { span, .. } => *span,
            Expr::ArrayLiteral { span, .. } => *span,
            Expr::Slice { span, .. } => *span,
            Expr::For { span, .. } => *span,
            Expr::Builtin { span, .. } => *span,
            Expr::Paren { span, .. } => *span,
            Expr::FnType { span, .. } => *span,
            Expr::Function { span, .. } => *span,
            Expr::Error { span } => *span,
        }
    }

    pub fn span(&self) -> (r: Span)
        ensures
            r == self.span_of(),
    {
        match self {
            Expr::Ident { span, .. } => *span,
            Expr::Literal { span, .. } => *span,
            Expr::Binary { span, .. } => *span,
            Expr::Unary { span, .. } => *span,
            Expr::MemberAccess { span, .. } => *span,
            Expr::Call { span, .. } => *span,
            Expr::Subscript { span, .. } => *span,
            Expr::Cast { span, .. } => *span,
            Expr::StructLiteral { span, .. } => *span,
            Expr::TupleLiteral { span, .. } => *span,
            Expr::Block { span, .. } => *span,
            Expr::If { span, .. } => *span,
            Expr::While { span, .. } => *span,
            Expr::Assign { span, .. } => *span,
            Expr::CompoundAssign { span, .. } => *span,
            Expr::Binding { span, .. } => *span,
            Expr::Return { span, .. } => *span,
            Expr::Break { span } => *span,
            Expr::Continue { span } => *span,
            Expr::PointerType { span, .. } => *span,
            Expr::MultiPointerType { span, .. } => *span,
            Expr::SliceType { span, .. } => *span,
            Expr::ArrayType { span, .. } => *span,
            Expr::StructType { span, .. } => *span,
            Expr::ArrayLiteral { span, .. } => *span,
            Expr::Slice { span, .. } => *span,
            Expr::For { span, .. } => *span,
            Expr::Builtin { span, .. } => *span,
            Expr::Paren { span, .. } => *span,
            Expr::FnType { span, .. } => *span,
            Expr::Function { span, .. } => *span,
            Expr::Error { span } => *span,
        }
    }

    /// Whether a statement of this kind may end without a semicolon.
    pub fn doesnt_require_semicolon(&self) -> (r: bool)
        ensures
            r == (self is While || self is If || self is Block || self is For),
    {
        match self {
            Expr::While { .. } | Expr::If { .. } | Expr::Block { .. } | Expr::For { .. } => true,
            _ => false,
        }
    }
}

/// A statement with no content.
#[derive(Debug, Clone, Copy, PartialEq, Eq, Structural)]
pub struct Empty {
    pub span: Span,
}

/// An imported module's file.
#[derive(Debug)]
pub struct Import {
    pub path: String,
    pub span: Span,
}

/// One step of a `use` path after the module's name.
#[derive(Debug, Clone)]
pub enum UsePathNode {
    Symbol(String),
    /// `?`: every public name of the module.
    Wildcard,
}

/// One name brought in by a `use` declaration: from module `module`, the
/// item that `use_path` leads to, bound as `alias`.
#[derive(Debug)]
pub struct UseDecl {
    pub module: String,
    pub alias: String,
    pub use_path: Vec<(UsePathNode, Span)>,
    pub visibility: Visibility,
    pub span: Span,
}

/// One source module's top-level statements.
#[derive(Debug)]
pub struct Ast {
    pub module_id: usize,
    pub bindings: Vec<Expr>,
    pub uses: Vec<UseDecl>,
}

} // verus!
