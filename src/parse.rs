use vstd::prelude::*;
use vstd::string::StrSliceExecFns;

use crate::ast::{binary_op_of, unary_op_of, Ast, BinaryOp, CallArg, BuiltinKind, Expr, LiteralKind, UnaryOp, UseDecl, UsePathNode};
use crate::diagnostic::{Diagnostic, DiagnosticResult};
use crate::pattern::{Pattern, SymbolPattern, Visibility};
use crate::span::Span;
use crate::token::{Token, TokenKind};

verus! {

/// Grammar productions switched off while parsing a sub-expression.
#[derive(Debug, Clone, Copy, PartialEq, Eq, Structural)]
pub struct Restrictions {
    /// `{` after an expression opens a block, not a struct literal
    /// (conditions of `if` and `while`).
    pub no_struct_literal: bool,
    /// `as` ends the expression (the target type of a cast).
    pub no_cast: bool,
}

impl Restrictions {
    pub fn empty() -> (r: Restrictions)
        ensures
            !r.no_struct_literal && !r.no_cast,
    {
        Restrictions { no_struct_literal: false, no_cast: false }
    }
}

/// A recursive-descent parser over one module's tokens.
pub struct Parser {
    pub tokens: Vec<Token>,
    pub current: usize,
    pub restrictions: Restrictions,
    pub module_id: usize,
    pub diagnostics: Vec<Diagnostic>,
}

/// The parser moved forward over the same tokens and kept its restrictions.
pub open spec fn steps(old: &Parser, new: &Parser) -> bool {
    &&& new.wf()
    &&& new.tokens == old.tokens
    &&& new.current >= old.current
    &&& new.restrictions == old.restrictions
    &&& new.module_id == old.module_id
    &&& new.diagnostics == old.diagnostics
}

impl Parser {
    /// The tokens end with the end-of-file token, and `current` is on one of them.
    pub open spec fn wf(&self) -> bool {
        &&& self.tokens@.len() > 0
        &&& self.tokens@.last().kind is Eof
        &&& self.current < self.tokens@.len()
    }

    pub open spec fn kind_at(&self) -> TokenKind {
        self.tokens@[self.current as int].kind
    }

    /// A parser at the start of `tokens`; an end-of-file token is added if
    /// they lack one.
    pub fn new(tokens: Vec<Token>, module_id: usize) -> (r: Parser)
        ensures
            r.wf(),
            r.current == 0,
            r.module_id == module_id,
            !r.restrictions.no_struct_literal && !r.restrictions.no_cast,
            r.diagnostics@.len() == 0,
            tokens@.len() > 0 && tokens@.last().kind is Eof ==> r.tokens == tokens,
    {
        let mut tokens = tokens;
        let needs_eof = if tokens.len() == 0 {
            true
        } else {
            !tokens[tokens.len() - 1].is_eof()
        };
        if needs_eof {
            let span = if tokens.len() == 0 {
                Span::unknown()
            } else {
                tokens[tokens.len() - 1].span
            };
            tokens.push(Token { kind: TokenKind::Eof, lexeme: String::new(), span });
        }
        Parser {
            tokens,
            current: 0,
            restrictions: Restrictions::empty(),
            module_id,
            diagnostics: Vec::new(),
        }
    }

    pub fn peek(&self) -> (r: &Token)
        requires
            self.wf(),
        ensures
            *r == self.tokens@[self.current as int],
    {
        &self.tokens[self.current]
    }

    pub fn is_end(&self) -> (r: bool)
        requires
            self.wf(),
        ensures
            r == (self.kind_at() is Eof),
    {
        self.tokens[self.current].is_eof()
    }

    /// Steps over the current token, unless it is the end of file.
    pub fn bump(&mut self)
        requires
            old(self).wf(),
        ensures
            steps(old(self), final(self)),
            final(self).diagnostics == old(self).diagnostics,
            old(self).kind_at() is Eof ==> final(self).current == old(self).current,
            !(old(self).kind_at() is Eof) ==> final(self).current == old(self).current + 1,
    {
        if !self.is_end() {
            let n = self.tokens.len();
            assert(self.current != n - 1);
            self.current = self.current + 1;
        }
    }

    pub fn span(&self) -> (r: Span)
        requires
            self.wf(),
        ensures
            r == self.tokens@[self.current as int].span,
    {
        self.tokens[self.current].span
    }

    /// The span of the token just stepped over (of the first token at the start).
    pub fn previous_span(&self) -> (r: Span)
        requires
            self.wf(),
        ensures
            self.current > 0 ==> r == self.tokens@[self.current - 1].span,
    {
        if self.current > 0 {
            self.tokens[self.current - 1].span
        } else {
            self.tokens[0].span
        }
    }

    /// Whether the token after the current one is `:`.
    pub fn next_is_colon(&self) -> (r: bool)
        requires
            self.wf(),
        ensures
            r == (self.current + 1 < self.tokens@.len() && self.tokens@[self.current + 1].kind is Colon),
    {
        let n = self.tokens.len();
        if self.current + 1 < n {
            matches!(self.tokens[self.current + 1].kind, TokenKind::Colon)
        } else {
            false
        }
    }

    pub fn mark(&self) -> (r: usize)
        ensures
            r == self.current,
    {
        self.current
    }

    /// Goes back to a position taken by `mark`.
    pub fn reset_to_mark(&mut self, mark: usize)
        requires
            old(self).wf(),
            mark < old(self).tokens@.len(),
        ensures
            final(self).wf(),
            final(self).current == mark,
            final(self).tokens == old(self).tokens,
            final(self).restrictions == old(self).restrictions,
    {
        self.current = mark;
    }
}


/// The operator of precedence level `level` (0 binds loosest) that `kind`
/// stands for, if any.
pub open spec fn level_op(kind: TokenKind, level: usize) -> Option<BinaryOp> {
    match (level, kind) {
        (0, TokenKind::BarBar) => Some(BinaryOp::Or),
        (1, TokenKind::AmpAmp) => Some(BinaryOp::And),
        (2, TokenKind::BangEq) => Some(BinaryOp::Ne),
        (2, TokenKind::EqEq) => Some(BinaryOp::Eq),
        (2, TokenKind::Gt) => Some(BinaryOp::Gt),
        (2, TokenKind::GtEq) => Some(BinaryOp::Ge),
        (2, TokenKind::Lt) => Some(BinaryOp::Lt),
        (2, TokenKind::LtEq) => Some(BinaryOp::Le),
        (3, TokenKind::Bar) => Some(BinaryOp::BitOr),
        (4, TokenKind::Caret) => Some(BinaryOp::BitXor),
        (5, TokenKind::Amp) => Some(BinaryOp::BitAnd),
        (6, TokenKind::LtLt) => Some(BinaryOp::Shl),
        (6, TokenKind::GtGt) => Some(BinaryOp::Shr),
        (7, TokenKind::Minus) => Some(BinaryOp::Sub),
        (7, TokenKind::Plus) => Some(BinaryOp::Add),
        (8, TokenKind::Star) => Some(BinaryOp::Mul),
        (8, TokenKind::FwSlash) => Some(BinaryOp::Div),
        (8, TokenKind::Percent) => Some(BinaryOp::Rem),
        _ => None,
    }
}

/// The number of binary precedence levels.
pub const BINARY_LEVELS: usize = 9;

fn level_op_exec(kind: &TokenKind, level: usize) -> (r: Option<BinaryOp>)
    ensures
        r == level_op(*kind, level),
{
    match (level, kind) {
        (0, TokenKind::BarBar) => Some(BinaryOp::Or),
        (1, TokenKind::AmpAmp) => Some(BinaryOp::And),
        (2, TokenKind::BangEq) => Some(BinaryOp::Ne),
        (2, TokenKind::EqEq) => Some(BinaryOp::Eq),
        (2, TokenKind::Gt) => Some(BinaryOp::Gt),
        (2, TokenKind::GtEq) => Some(BinaryOp::Ge),
        (2, TokenKind::Lt) => Some(BinaryOp::Lt),
        (2, TokenKind::LtEq) => Some(BinaryOp::Le),
        (3, TokenKind::Bar) => Some(BinaryOp::BitOr),
        (4, TokenKind::Caret) => Some(BinaryOp::BitXor),
        (5, TokenKind::Amp) => Some(BinaryOp::BitAnd),
        (6, TokenKind::LtLt) => Some(BinaryOp::Shl),
        (6, TokenKind::GtGt) => Some(BinaryOp::Shr),
        (7, TokenKind::Minus) => Some(BinaryOp::Sub),
        (7, TokenKind::Plus) => Some(BinaryOp::Add),
        (8, TokenKind::Star) => Some(BinaryOp::Mul),
        (8, TokenKind::FwSlash) => Some(BinaryOp::Div),
        (8, TokenKind::Percent) => Some(BinaryOp::Rem),
        _ => None,
    }
}


/// Whether `k`, after an operand, continues it with a postfix operator
/// under `res`.
pub open spec fn postfix_start(k: TokenKind, res: Restrictions) -> bool {
    k is Dot || k is OpenParen || k is OpenBracket || k is Fn || (k is As && !res.no_cast) || (k is OpenCurly
        && !res.no_struct_literal)
}

/// Whether `k`, after an operand, ends the expression under `res`: it is
/// no postfix operator, no binary operator and no assignment.
pub open spec fn ends_operand(k: TokenKind, res: Restrictions) -> bool {
    !postfix_start(k, res) && binary_op_of(k) is None && !(k is Eq)
}

/// The expression that a single identifier or literal token is.
pub open spec fn atom_of(t: Token) -> Option<Expr> {
    match t.kind {
        TokenKind::Ident(id) => Some(Expr::Ident { symbol: id, span: t.span }),
        TokenKind::Int(v) => Some(Expr::Literal { kind: LiteralKind::Int(v), span: t.span }),
        TokenKind::Float => Some(Expr::Literal { kind: LiteralKind::Float(t.lexeme), span: t.span }),
        TokenKind::Str(text) => Some(Expr::Literal { kind: LiteralKind::Str(text), span: t.span }),
        TokenKind::Char(c) => Some(Expr::Literal { kind: LiteralKind::Char(c), span: t.span }),
        TokenKind::True => Some(Expr::Literal { kind: LiteralKind::Bool(true), span: t.span }),
        TokenKind::False => Some(Expr::Literal { kind: LiteralKind::Bool(false), span: t.span }),
        TokenKind::Nil => Some(Expr::Literal { kind: LiteralKind::Nil, span: t.span }),
        _ => None,
    }
}

/// Token `i` is an identifier or literal that the token after it ends,
/// under `res`: parsing an expression there gives just that operand.
pub open spec fn atom_at(t: Seq<Token>, i: int, res: Restrictions) -> bool {
    0 <= i && i + 1 < t.len() && atom_of(t[i]) is Some && ends_operand(t[i + 1].kind, res)
}


/// The restrictions of a cast's target type.
pub open spec fn cast_restrictions() -> Restrictions {
    Restrictions { no_struct_literal: false, no_cast: true }
}

/// Tokens `i..` are `{ }`.
pub open spec fn empty_fields_at(t: Seq<Token>, i: int) -> bool {
    0 <= i && i + 1 < t.len() && t[i].kind is OpenCurly && t[i + 1].kind is CloseCurly
}

/// Tokens `i..` are `{ name: atom }`.
pub open spec fn one_field_at(t: Seq<Token>, i: int) -> bool {
    0 <= i && i + 4 < t.len() && t[i].kind is OpenCurly && t[i + 1].kind is Ident && t[i + 2].kind is Colon
        && atom_at(t, i + 3, no_restrictions()) && t[i + 4].kind is CloseCurly
}

/// `e` is a struct literal over `ty` with the fields written at token `i`
/// (`{ }` or `{ name: atom }`).
pub open spec fn struct_literal_of(e: Expr, ty: Option<Box<Expr>>, t: Seq<Token>, i: int) -> bool {
    e matches Expr::StructLiteral { type_expr, fields, .. } && type_expr == ty && (empty_fields_at(t, i)
        ==> fields@.len() == 0) && (one_field_at(t, i) ==> fields@.len() == 1 && fields@[0].0
        == t[i + 1].kind->Ident_0 && fields@[0].1 == atom(t, i + 3))
}

/// Tokens `i..` are `Name { }` or `Name { field: atom }` with struct
/// literals allowed under `res`, ended by the token after it.
pub open spec fn sl_at(t: Seq<Token>, i: int, res: Restrictions) -> bool {
    0 <= i && i + 1 < t.len() && !res.no_struct_literal && t[i].kind is Ident && ((empty_fields_at(t, i + 1)
        && i + 3 < t.len() && ends_operand(t[i + 3].kind, res)) || (one_field_at(t, i + 1) && i + 6
        < t.len() && ends_operand(t[i + 6].kind, res)))
}

/// The number of tokens of the struct literal at `i`.
pub open spec fn sl_len(t: Seq<Token>, i: int) -> int {
    if empty_fields_at(t, i + 1) {
        3
    } else {
        6
    }
}

/// `e` is the struct literal written at token `i`.
pub open spec fn sl_of(e: Expr, t: Seq<Token>, i: int) -> bool {
    struct_literal_of(e, Some(Box::new(Expr::Ident { symbol: t[i].kind->Ident_0, span: t[i].span })), t, i + 1)
}

/// `.name`, then a token that continues no postfix chain under `res`.
pub open spec fn member_step(t: Seq<Token>, i: int, res: Restrictions) -> bool {
    0 <= i && i + 2 < t.len() && t[i].kind is Dot && t[i + 1].kind is Ident && !postfix_start(t[i + 2].kind, res)
}

/// `[atom]`, then a token that continues no postfix chain under `res`.
pub open spec fn index_step(t: Seq<Token>, i: int, res: Restrictions) -> bool {
    0 <= i && i + 3 < t.len() && t[i].kind is OpenBracket && atom_at(t, i + 1, no_restrictions())
        && t[i + 2].kind is CloseBracket && !postfix_start(t[i + 3].kind, res)
}

/// `as atom`, then a token that continues no postfix chain under `res`.
pub open spec fn cast_step(t: Seq<Token>, i: int, res: Restrictions) -> bool {
    0 <= i && i + 2 < t.len() && !res.no_cast && t[i].kind is As && atom_at(t, i + 1, cast_restrictions())
        && !postfix_start(t[i + 2].kind, res)
}

/// `as atom as atom`, then a token that continues no postfix chain under `res`.
pub open spec fn cast_chain(t: Seq<Token>, i: int, res: Restrictions) -> bool {
    0 <= i && i + 4 < t.len() && !res.no_cast && t[i].kind is As && atom_at(t, i + 1, cast_restrictions())
        && t[i + 2].kind is As && atom_at(t, i + 3, cast_restrictions()) && !postfix_start(t[i + 4].kind, res)
}

pub open spec fn member_of(e: Expr, x: Expr, t: Seq<Token>, i: int) -> bool {
    e matches Expr::MemberAccess { expr: b, member, .. } && *b == x && member == t[i + 1].kind->Ident_0
}

pub open spec fn subscript_of(e: Expr, x: Expr, t: Seq<Token>, i: int) -> bool {
    e matches Expr::Subscript { expr: b, index, .. } && *b == x && *index == atom(t, i + 1)
}

pub open spec fn cast_of(e: Expr, x: Expr, target: Expr) -> bool {
    e matches Expr::Cast { expr: b, target: g, .. } && *b == x && *g == target
}

/// Token `i` is a stray token followed by `;`: a statement that is neither
/// a `let` nor a `use`.
pub open spec fn stray_at(t: Seq<Token>, i: int) -> bool {
    0 <= i && i + 1 < t.len() && !(t[i].kind is Let) && !(t[i].kind is Use) && !(t[i].kind is Pub)
        && !(t[i].kind is Eof) && !(t[i].kind is Semicolon) && t[i + 1].kind is Semicolon
}

/// From token `i` on, the module is a run of `let name = atom;` and stray
/// `token;` statements up to the end of file.
pub open spec fn script(t: Seq<Token>, i: int) -> bool
    decreases t.len() - i,
{
    if !(0 <= i < t.len()) {
        false
    } else if t[i].kind is Eof {
        true
    } else if first_let(t, i) {
        i + 5 < t.len() && !(t[i + 5].kind is Semicolon) && script(t, i + 5)
    } else if stray_at(t, i) {
        i + 2 < t.len() && !(t[i + 2].kind is Semicolon) && script(t, i + 2)
    } else {
        false
    }
}

/// The stray statements of the script from `i`.
pub open spec fn strays(t: Seq<Token>, i: int) -> nat
    decreases t.len() - i,
{
    if !(0 <= i < t.len()) || t[i].kind is Eof {
        0
    } else if first_let(t, i) {
        strays(t, i + 5)
    } else if i + 2 <= t.len() {
        1 + strays(t, i + 2)
    } else {
        1
    }
}

/// The positions of the `let` statements of the script from `i`.
pub open spec fn lets(t: Seq<Token>, i: int) -> Seq<int>
    decreases t.len() - i,
{
    if !(0 <= i < t.len()) || t[i].kind is Eof {
        Seq::empty()
    } else if first_let(t, i) {
        seq![i] + lets(t, i + 5)
    } else if i + 2 <= t.len() {
        lets(t, i + 2)
    } else {
        Seq::empty()
    }
}

/// Tokens `i..i+5` are `let name = atom ;`.
pub open spec fn first_let(t: Seq<Token>, i: int) -> bool {
    0 <= i && i + 4 < t.len() && t[i].kind is Let && t[i + 1].kind is Ident && t[i + 2].kind is Eq
        && atom_at(t, i + 3, no_restrictions()) && t[i + 4].kind is Semicolon
}

/// `e` is the binding that `let name = atom` at token `i` gives.
pub open spec fn let_of(e: Expr, t: Seq<Token>, i: int) -> bool {
    e matches Expr::Binding { pattern: Pattern::Symbol(p), value: Some(v), .. } && p.symbol == t[i
        + 1].kind->Ident_0 && *v == atom(t, i + 3)
}

/// Tokens `i..i+3` are `{ atom }`.
pub open spec fn simple_block(t: Seq<Token>, i: int) -> bool {
    0 <= i && i + 2 < t.len() && t[i].kind is OpenCurly && atom_at(t, i + 1, no_restrictions())
        && t[i + 2].kind is CloseCurly
}

/// `e` is a block that holds just `a` and yields it.
pub open spec fn block_holds(e: Expr, a: Expr) -> bool {
    e matches Expr::Block { exprs, yields, .. } && exprs@ == seq![a] && yields
}

/// The restrictions of an `if`, `while` or `for` head.
pub open spec fn head_restrictions() -> Restrictions {
    Restrictions { no_struct_literal: true, no_cast: false }
}

/// The expression of the atom token `i`.
pub open spec fn atom(t: Seq<Token>, i: int) -> Expr {
    atom_of(t[i])->0
}

pub open spec fn no_restrictions() -> Restrictions {
    Restrictions { no_struct_literal: false, no_cast: false }
}

pub proof fn lemma_level_op(k: TokenKind, l: usize)
    ensures
        level_op(k, l) is Some ==> binary_op_of(k) is Some && op_level(level_op(k, l)->0) == l
            && binary_op_of(k) == level_op(k, l),
{
}

/// The precedence level of the binary operator a token stands for; 9 for
/// a token that is no binary operator.
pub open spec fn tok_level(k: TokenKind) -> int {
    match k {
        TokenKind::BarBar => 0,
        TokenKind::AmpAmp => 1,
        TokenKind::BangEq | TokenKind::EqEq | TokenKind::Gt | TokenKind::GtEq | TokenKind::Lt
        | TokenKind::LtEq => 2,
        TokenKind::Bar => 3,
        TokenKind::Caret => 4,
        TokenKind::Amp => 5,
        TokenKind::LtLt | TokenKind::GtGt => 6,
        TokenKind::Minus | TokenKind::Plus => 7,
        TokenKind::Star | TokenKind::FwSlash | TokenKind::Percent => 8,
        _ => 9,
    }
}

pub proof fn lemma_tok_level(k: TokenKind, l: usize)
    requires
        l < 9,
    ensures
        tok_level(k) < 9 ==> !postfix_start(k, no_restrictions()) && !postfix_start(k, head_restrictions())
            && !postfix_start(k, cast_restrictions()),
        forall|res: Restrictions| tok_level(k) < 9 ==> !postfix_start(k, res),
        level_op(k, l) is Some <==> tok_level(k) == l,
        ends_operand(k, no_restrictions()) ==> tok_level(k) == 9,
{
}

/// Tokens `i..i+3` are `atom op atom`, ended by token `i + 3`.
pub open spec fn binary_at(t: Seq<Token>, i: int, res: Restrictions) -> bool {
    0 <= i && i + 3 < t.len() && atom_of(t[i]) is Some && !postfix_start(t[i + 1].kind, res)
        && tok_level(t[i + 1].kind) < 9 && atom_at(t, i + 2, res) && !(t[i + 3].kind is Eq)
}

/// `e` is `atom(i) op atom(i + 2)` with the operator of token `i + 1`.
pub open spec fn binary_of(e: Expr, t: Seq<Token>, i: int) -> bool {
    e matches Expr::Binary { op, lhs, rhs, .. } && op_level(op) == tok_level(t[i + 1].kind) && Some(op)
        == binary_op_of(t[i + 1].kind) && *lhs == atom(t, i) && *rhs == atom(t, i + 2)
}


/// Tokens `i..=e` alternate operands and binary operators, `atom op atom
/// ... atom`, and token `e + 1` ends the expression under `res`.
pub open spec fn chain(t: Seq<Token>, i: int, e: int, res: Restrictions) -> bool {
    &&& 0 <= i <= e
    &&& (e - i) % 2 == 0
    &&& e + 1 < t.len()
    &&& forall|j: int| 0 <= j <= (e - i) / 2 ==> #[trigger] atom_of(t[i + 2 * j]) is Some
    &&& forall|j: int| 0 <= j < (e - i) / 2 ==> #[trigger] tok_level(t[i + 2 * j + 1].kind) < 9
    &&& ends_operand(t[e + 1].kind, res)
}

/// `x` is the whole chain from `i` to `e`: its operands and operators in
/// order, with each precedence level associating to the left.
pub open spec fn chain_parsed(x: Expr, t: Seq<Token>, i: int, e: int) -> bool {
    &&& leaves(x) == chain_atoms(t, i, (e - i) / 2 + 1)
    &&& ops_in(x) == chain_ops(t, i, (e - i) / 2)
    &&& shaped(x, 0)
}

/// The operands `i`, `i + 2`, ... of a chain, `n` of them.
pub open spec fn chain_atoms(t: Seq<Token>, i: int, n: int) -> Seq<Expr> {
    Seq::new(n as nat, |j: int| atom(t, i + 2 * j))
}

/// The operators `i + 1`, `i + 3`, ... of a chain, `n` of them.
pub open spec fn chain_ops(t: Seq<Token>, i: int, n: int) -> Seq<BinaryOp> {
    Seq::new(n as nat, |j: int| binary_op_of(t[i + 2 * j + 1].kind)->0)
}

/// The operands of a tree of binary operators, left to right.
pub open spec fn leaves(e: Expr) -> Seq<Expr>
    decreases e,
{
    match e {
        Expr::Binary { lhs, rhs, .. } => leaves(*lhs) + leaves(*rhs),
        _ => seq![e],
    }
}

/// The operators of a tree of binary operators, left to right.
pub open spec fn ops_in(e: Expr) -> Seq<BinaryOp>
    decreases e,
{
    match e {
        Expr::Binary { op, lhs, rhs, .. } => ops_in(*lhs).push(op) + ops_in(*rhs),
        _ => Seq::empty(),
    }
}

/// `x`, parsed from the chain at `i` up to token `cur`, holds its operands
/// and operators in order, and stops where an operator looser than `level`
/// starts or where the chain ends.
pub open spec fn chain_result(x: Expr, t: Seq<Token>, i: int, cur: int, e: int, level: int) -> bool {
    &&& (cur - i) % 2 == 1
    &&& i < cur <= e + 1
    &&& (cur == e + 1 || tok_level(t[cur].kind) < level)
    &&& leaves(x) == chain_atoms(t, i, (cur - i + 1) / 2)
    &&& ops_in(x) == chain_ops(t, i, (cur - i - 1) / 2)
}

/// Folding `lhs op rhs`, where `lhs` parsed the chain from `i` up to the
/// operator at `cur0` and `rhs` the rest up to `cur1`, parses it up to `cur1`.
pub proof fn lemma_chain_fold(
    t: Seq<Token>,
    i: int,
    cur0: int,
    cur1: int,
    e: int,
    level: int,
    lhs: Expr,
    rhs: Expr,
    op: BinaryOp,
    x: Expr,
)
    requires
        chain_result(lhs, t, i, cur0, e, level + 1),
        tok_level(t[cur0].kind) == level,
        Some(op) == binary_op_of(t[cur0].kind),
        chain_result(rhs, t, cur0 + 1, cur1, e, level + 1),
        x matches Expr::Binary { op: o, lhs: l, rhs: r, .. } && o == op && *l == lhs && *r == rhs,
    ensures
        chain_result(x, t, i, cur1, e, level + 1),
{
    let a = (cur0 - i + 1) / 2;
    let b = (cur1 - cur0) / 2;
    assert(chain_atoms(t, i, a) + chain_atoms(t, cur0 + 1, b) =~= chain_atoms(t, i, (cur1 - i + 1) / 2));
    assert(chain_ops(t, i, a - 1).push(op) + chain_ops(t, cur0 + 1, b - 1) =~= chain_ops(t, i, (cur1 - i - 1) / 2));
}

pub proof fn lemma_chain_sub(t: Seq<Token>, i: int, e: int, res: Restrictions, p: int)
    requires
        chain(t, i, e, res),
        i <= p <= e,
        (p - i) % 2 == 0,
    ensures
        chain(t, p, e, res),
{
    let d = (p - i) / 2;
    assert forall|j: int| 0 <= j <= (e - p) / 2 implies #[trigger] atom_of(t[p + 2 * j]) is Some by {
        assert(p + 2 * j == i + 2 * (j + d));
        assert(atom_of(t[i + 2 * (j + d)]) is Some);
    }
    assert forall|j: int| 0 <= j < (e - p) / 2 implies #[trigger] tok_level(t[p + 2 * j + 1].kind) < 9 by {
        assert(p + 2 * j + 1 == i + 2 * (j + d) + 1);
        assert(tok_level(t[i + 2 * (j + d) + 1].kind) < 9);
    }
}

pub proof fn lemma_chain_head(t: Seq<Token>, i: int, e: int, res: Restrictions)
    requires
        chain(t, i, e, res),
    ensures
        atom_of(t[i]) is Some,
        i + 1 < t.len(),
        !postfix_start(t[i + 1].kind, res),
        i < e ==> tok_level(t[i + 1].kind) < 9,
        i == e ==> tok_level(t[i + 1].kind) == 9,
{
    assert(atom_of(t[i + 2 * 0]) is Some);
    if i < e {
        assert(tok_level(t[i + 2 * 0 + 1].kind) < 9);
    } else {
        lemma_tok_level(t[i + 1].kind, 0);
    }
}

/// The precedence level of a binary operator: 0 binds loosest.
pub open spec fn op_level(op: BinaryOp) -> int {
    match op {
        BinaryOp::Or => 0,
        BinaryOp::And => 1,
        BinaryOp::Eq | BinaryOp::Ne | BinaryOp::Lt | BinaryOp::Le | BinaryOp::Gt | BinaryOp::Ge => 2,
        BinaryOp::BitOr => 3,
        BinaryOp::BitXor => 4,
        BinaryOp::BitAnd => 5,
        BinaryOp::Shl | BinaryOp::Shr => 6,
        BinaryOp::Add | BinaryOp::Sub => 7,
        BinaryOp::Mul | BinaryOp::Div | BinaryOp::Rem => 8,
    }
}

/// `e` is a tree of binary operators of level `level` or tighter in which
/// each level associates to the left: the left operand of an operator of
/// level `k` binds at level `k` or tighter, the right one strictly tighter.
/// A parenthesized group is a leaf.
pub open spec fn shaped(e: Expr, level: int) -> bool
    decreases e,
{
    match e {
        Expr::Binary { op, lhs, rhs, .. } => op_level(op) >= level && shaped(*lhs, op_level(op))
            && shaped(*rhs, op_level(op) + 1),
        _ => true,
    }
}

/// `e` is `x` under a chain of postfix operators: member accesses, calls,
/// subscripts, slices, casts, dereferences and a struct-literal suffix.
pub open spec fn wraps(e: Expr, x: Expr) -> bool
    decreases e,
{
    e == x || match e {
        Expr::MemberAccess { expr, .. } => wraps(*expr, x),
        Expr::Call { callee, .. } => wraps(*callee, x),
        Expr::Subscript { expr, .. } => wraps(*expr, x),
        Expr::Slice { expr, .. } => wraps(*expr, x),
        Expr::Cast { expr, .. } => wraps(*expr, x),
        Expr::Unary { op: UnaryOp::Deref, value, .. } => wraps(*value, x),
        Expr::StructLiteral { type_expr: Some(t), .. } => wraps(*t, x),
        _ => false,
    }
}

/// Tokens `i..` are `( name: atom, atom` where the second argument has no
/// name.
pub open spec fn positional_after_named(t: Seq<Token>, i: int) -> bool {
    0 <= i && i + 6 < t.len() && t[i + 1].kind is Ident && t[i + 2].kind is Colon && atom_at(
        t,
        i + 3,
        no_restrictions(),
    ) && t[i + 4].kind is Comma && atom_at(t, i + 5, no_restrictions()) && !(t[i + 6].kind is Colon)
}

/// No argument without a name follows one with a name.
pub open spec fn named_last(args: Seq<CallArg>) -> bool {
    forall|a: int, b: int| 0 <= a < b < args.len() && (#[trigger] args[a]).name is Some ==> (#[trigger] args[b]).name is Some
}

/// Whether an expression is a struct literal with a type before its fields.
pub open spec fn typed_struct_literal(e: Expr) -> bool {
    e matches Expr::StructLiteral { type_expr: Some(_), .. }
}

impl Parser {
    /// An expression with no restriction.
    pub fn parse_expr(&mut self) -> (r: DiagnosticResult<Expr>)
        requires
            old(self).wf(),
        ensures
            steps(old(self), final(self)),
            r is Ok ==> final(self).current > old(self).current,
            sl_at(old(self).tokens@, old(self).current as int, no_restrictions()) ==> (r matches Ok(e) && sl_of(
                e,
                old(self).tokens@,
                old(self).current as int,
            ) && final(self).current == old(self).current + sl_len(old(self).tokens@, old(self).current as int)),
            atom_at(old(self).tokens@, old(self).current as int, no_restrictions()) ==> r == Ok::<Expr, Diagnostic>(
                atom_of(old(self).tokens@[old(self).current as int])->0,
            ) && final(self).current == old(self).current + 1,
            forall|e: int| #[trigger] chain(old(self).tokens@, old(self).current as int, e, no_restrictions()) ==> (r matches Ok(x)
                && chain_parsed(x, old(self).tokens@, old(self).current as int, e) && final(self).current == e + 1),
        decreases old(self).tokens@.len() - old(self).current, 14nat,
    {
        self.parse_expr_with_res(Restrictions::empty())
    }

    /// An expression parsed under `res`; the restrictions in force before
    /// are back in force after.
    pub fn parse_expr_with_res(&mut self, res: Restrictions) -> (r: DiagnosticResult<Expr>)
        requires
            old(self).wf(),
        ensures
            steps(old(self), final(self)),
            r is Ok ==> final(self).current > old(self).current,
            sl_at(old(self).tokens@, old(self).current as int, res) ==> (r matches Ok(e) && sl_of(
                e,
                old(self).tokens@,
                old(self).current as int,
            ) && final(self).current == old(self).current + sl_len(old(self).tokens@, old(self).current as int)),
            atom_at(old(self).tokens@, old(self).current as int, res) ==> r == Ok::<Expr, Diagnostic>(
                atom_of(old(self).tokens@[old(self).current as int])->0,
            ) && final(self).current == old(self).current + 1,
            res.no_struct_literal ==> (r matches Ok(e) ==> !typed_struct_literal(e)),
            forall|e: int| #[trigger] chain(old(self).tokens@, old(self).current as int, e, res) ==> (r matches Ok(x)
                && chain_parsed(x, old(self).tokens@, old(self).current as int, e) && final(self).current == e + 1),
        decreases old(self).tokens@.len() - old(self).current, 13nat,
    {
        let saved = self.restrictions;
        self.restrictions = res;
        let r = self.parse_expr_inner();
        self.restrictions = saved;
        r
    }

    /// An operand followed by an optional assignment.
    fn parse_expr_inner(&mut self) -> (r: DiagnosticResult<Expr>)
        requires
            old(self).wf(),
        ensures
            steps(old(self), final(self)),
            r is Ok ==> final(self).current > old(self).current,
            sl_at(old(self).tokens@, old(self).current as int, old(self).restrictions) ==> (r matches Ok(e) && sl_of(
                e,
                old(self).tokens@,
                old(self).current as int,
            ) && final(self).current == old(self).current + sl_len(old(self).tokens@, old(self).current as int)),
            atom_at(old(self).tokens@, old(self).current as int, old(self).restrictions) ==> r == Ok::<Expr, Diagnostic>(
                atom_of(old(self).tokens@[old(self).current as int])->0,
            ) && final(self).current == old(self).current + 1,
            old(self).restrictions.no_struct_literal ==> (r matches Ok(e) ==> !typed_struct_literal(e)),
            forall|e: int| #[trigger] chain(old(self).tokens@, old(self).current as int, e, old(self).restrictions) ==> (r matches Ok(x)
                && chain_parsed(x, old(self).tokens@, old(self).current as int, e) && final(self).current == e + 1),
        decreases old(self).tokens@.len() - old(self).current, 12nat,
    {
        let lhs_r = self.parse_binary(0);
        let lhs = match lhs_r {
            Ok(x) => x,
            Err(d) => {
                proof {
                    assert forall|e: int| !chain(old(self).tokens@, old(self).current as int, e, old(self).restrictions) by {
                        if chain(old(self).tokens@, old(self).current as int, e, old(self).restrictions) {
                            assert(lhs_r is Ok);
                        }
                    }
                }
                return Err(d);
            },
        };
        let start = lhs.span();
        if matches!(self.peek().kind, TokenKind::Eq) {
            self.bump();
            let rhs = self.parse_expr()?;
            let span = start.to(&self.previous_span());
            return Ok(Expr::Assign { lhs: Box::new(lhs), rhs: Box::new(rhs), span });
        }
        let kind = &self.peek().kind;
        if matches!(
            kind,
            TokenKind::PlusEq | TokenKind::MinusEq | TokenKind::StarEq | TokenKind::FwSlashEq
                | TokenKind::PercentEq
        ) {
            let op = BinaryOp::from(kind);
            self.bump();
            let rhs = self.parse_expr()?;
            let span = start.to(&self.previous_span());
            return Ok(Expr::CompoundAssign { op, lhs: Box::new(lhs), rhs: Box::new(rhs), span });
        }
        Ok(lhs)
    }

    /// Operands joined by operators of precedence `level` or tighter, each
    /// level left-associative.
    #[verifier::spinoff_prover]
    #[verifier::rlimit(60)]
    pub fn parse_binary(&mut self, level: usize) -> (r: DiagnosticResult<Expr>)
        requires
            old(self).wf(),
            level < BINARY_LEVELS,
        ensures
            steps(old(self), final(self)),
            r is Ok ==> final(self).current > old(self).current,
            r matches Ok(e) ==> shaped(e, level as int),
            atom_of(old(self).tokens@[old(self).current as int]) is Some && old(self).current + 1 < old(self).tokens@.len()
                && !postfix_start(old(self).tokens@[old(self).current + 1].kind, old(self).restrictions)
                && (tok_level(old(self).tokens@[old(self).current + 1].kind) < level || tok_level(
                old(self).tokens@[old(self).current + 1].kind,
            ) == 9) ==> r == Ok::<Expr, Diagnostic>(
                atom(old(self).tokens@, old(self).current as int),
            ) && final(self).current == old(self).current + 1,
            binary_at(old(self).tokens@, old(self).current as int, old(self).restrictions) && level
                <= tok_level(old(self).tokens@[old(self).current + 1].kind) ==> (r matches Ok(e) && binary_of(
                e,
                old(self).tokens@,
                old(self).current as int,
            ) && final(self).current == old(self).current + 3),
            sl_at(old(self).tokens@, old(self).current as int, old(self).restrictions) ==> (r matches Ok(e) && sl_of(
                e,
                old(self).tokens@,
                old(self).current as int,
            ) && final(self).current == old(self).current + sl_len(old(self).tokens@, old(self).current as int)),
            atom_at(old(self).tokens@, old(self).current as int, old(self).restrictions) ==> r == Ok::<Expr, Diagnostic>(
                atom_of(old(self).tokens@[old(self).current as int])->0,
            ) && final(self).current == old(self).current + 1,
            old(self).restrictions.no_struct_literal ==> (r matches Ok(e) ==> !typed_struct_literal(e)),
            forall|e: int| #[trigger] chain(old(self).tokens@, old(self).current as int, e, old(self).restrictions)
                ==> (r matches Ok(x) && chain_result(x, old(self).tokens@, old(self).current as int, final(self).current as int, e, level as int)),
        decreases old(self).tokens@.len() - old(self).current, (11 - level) as nat,
    {
        let first = if level + 1 < BINARY_LEVELS {
            self.parse_binary(level + 1)
        } else {
            self.parse_unary()
        };
        let mut expr = match first {
            Ok(x) => x,
            Err(d) => {
                proof {
                    assert forall|e: int| !chain(old(self).tokens@, old(self).current as int, e, old(self).restrictions) by {
                        if chain(old(self).tokens@, old(self).current as int, e, old(self).restrictions) {
                            assert(first is Ok);
                        }
                    }
                }
                return Err(d);
            },
        };
        let start = expr.span();
        let ghost entry = old(self).current;
        let ghost res = old(self).restrictions;
        loop
            invariant
                steps(old(self), self),
                self.current > entry,
                entry == old(self).current,
                res == old(self).restrictions,
                level < BINARY_LEVELS,
                shaped(expr, level as int),
                res.no_struct_literal ==> !typed_struct_literal(expr),
                atom_at(old(self).tokens@, entry as int, res) ==> expr == atom_of(old(self).tokens@[entry as int])->0
                    && self.current == entry + 1,
                sl_at(old(self).tokens@, entry as int, res) ==> sl_of(expr, old(self).tokens@, entry as int)
                    && self.current == entry + sl_len(old(self).tokens@, entry as int),
                forall|e: int| #[trigger] chain(old(self).tokens@, entry as int, e, res) ==> chain_result(
                    expr,
                    old(self).tokens@,
                    entry as int,
                    self.current as int,
                    e,
                    level + 1,
                ),
                atom_of(old(self).tokens@[entry as int]) is Some && entry + 1 < old(self).tokens@.len()
                    && !postfix_start(old(self).tokens@[entry + 1].kind, res) && (tok_level(
                    old(self).tokens@[entry + 1].kind,
                ) < level || tok_level(old(self).tokens@[entry + 1].kind) == 9) ==> expr == atom(
                    old(self).tokens@,
                    entry as int,
                ) && self.current == entry + 1,
                binary_at(old(self).tokens@, entry as int, res) && level < tok_level(
                    old(self).tokens@[entry + 1].kind,
                ) ==> binary_of(expr, old(self).tokens@, entry as int) && self.current == entry + 3,
                binary_at(old(self).tokens@, entry as int, res) && level == tok_level(
                    old(self).tokens@[entry + 1].kind,
                ) ==> (self.current == entry + 1 && expr == atom(old(self).tokens@, entry as int)) || (
                self.current == entry + 3 && binary_of(expr, old(self).tokens@, entry as int)),
            ensures
                steps(old(self), self),
                self.current > entry,
                entry == old(self).current,
                res == old(self).restrictions,
                level < BINARY_LEVELS,
                shaped(expr, level as int),
                res.no_struct_literal ==> !typed_struct_literal(expr),
                atom_at(old(self).tokens@, entry as int, res) ==> expr == atom_of(old(self).tokens@[entry as int])->0
                    && self.current == entry + 1,
                sl_at(old(self).tokens@, entry as int, res) ==> sl_of(expr, old(self).tokens@, entry as int)
                    && self.current == entry + sl_len(old(self).tokens@, entry as int),
                forall|e: int| #[trigger] chain(old(self).tokens@, entry as int, e, res) ==> chain_result(
                    expr,
                    old(self).tokens@,
                    entry as int,
                    self.current as int,
                    e,
                    level as int,
                ),
                atom_of(old(self).tokens@[entry as int]) is Some && entry + 1 < old(self).tokens@.len()
                    && !postfix_start(old(self).tokens@[entry + 1].kind, res) && (tok_level(
                    old(self).tokens@[entry + 1].kind,
                ) < level || tok_level(old(self).tokens@[entry + 1].kind) == 9) ==> expr == atom(
                    old(self).tokens@,
                    entry as int,
                ) && self.current == entry + 1,
                binary_at(old(self).tokens@, entry as int, res) && level < tok_level(
                    old(self).tokens@[entry + 1].kind,
                ) ==> binary_of(expr, old(self).tokens@, entry as int) && self.current == entry + 3,
                binary_at(old(self).tokens@, entry as int, res) && level == tok_level(
                    old(self).tokens@[entry + 1].kind,
                ) ==> (self.current == entry + 1 && expr == atom(old(self).tokens@, entry as int)) || (
                self.current == entry + 3 && binary_of(expr, old(self).tokens@, entry as int)),
                level_op(self.kind_at(), level) is None,
            decreases self.tokens@.len() - self.current,
        {
            proof {
                lemma_level_op(self.kind_at(), level);
                lemma_tok_level(self.kind_at(), level);
                if binary_at(old(self).tokens@, entry as int, res) {
                    lemma_tok_level(old(self).tokens@[entry + 3].kind, level);
                }
            }
            let ghost cur0 = self.current as int;
            let ghost expr0 = expr;
            let op = match level_op_exec(&self.peek().kind, level) {
                Some(op) => op,
                None => break,
            };
            self.bump();
            let ghost after_op = self.current as int;
            let rhs_r = if level + 1 < BINARY_LEVELS {
                self.parse_binary(level + 1)
            } else {
                self.parse_unary()
            };
            let rhs = match rhs_r {
                Ok(x) => x,
                Err(d) => {
                    proof {
                        assert forall|e: int| !chain(old(self).tokens@, entry as int, e, res) by {
                            if chain(old(self).tokens@, entry as int, e, res) {
                                assert(chain_result(expr0, old(self).tokens@, entry as int, cur0, e, level + 1));
                                lemma_chain_sub(old(self).tokens@, entry as int, e, res, cur0 + 1);
                                assert(after_op == cur0 + 1);
                                assert(rhs_r is Ok);
                            }
                        }
                    }
                    return Err(d);
                },
            };
            let span = start.to(&self.previous_span());
            let ghost lhs = expr;
            expr = Expr::Binary { op, lhs: Box::new(expr), rhs: Box::new(rhs), span };
            assert(op_level(op) == level);
            assert(shaped(lhs, level as int));
            assert(shaped(rhs, level + 1));
            assert(shaped(expr, level as int));
            proof {
                let t = old(self).tokens@;
                assert forall|e: int| #[trigger] chain(t, entry as int, e, res) implies chain_result(
                    expr,
                    t,
                    entry as int,
                    self.current as int,
                    e,
                    level + 1,
                ) by {
                    lemma_chain_sub(t, entry as int, e, res, cur0 + 1);
                    lemma_chain_fold(t, entry as int, cur0, self.current as int, e, level as int, expr0, rhs, op, expr);
                }
            }
        }
        Ok(expr)
    }

    /// A prefix operator applied to a unary expression, or a primary one.
    pub fn parse_unary(&mut self) -> (r: DiagnosticResult<Expr>)
        requires
            old(self).wf(),
        ensures
            steps(old(self), final(self)),
            r is Ok ==> final(self).current > old(self).current,
            r matches Ok(e) ==> !(e is Binary),
            atom_of(old(self).tokens@[old(self).current as int]) is Some && old(self).current + 1 < old(self).tokens@.len()
                && !postfix_start(old(self).tokens@[old(self).current + 1].kind, old(self).restrictions) ==> r == Ok::<Expr, Diagnostic>(
                atom(old(self).tokens@, old(self).current as int),
            ) && final(self).current == old(self).current + 1,
            sl_at(old(self).tokens@, old(self).current as int, old(self).restrictions) ==> (r matches Ok(e) && sl_of(
                e,
                old(self).tokens@,
                old(self).current as int,
            ) && final(self).current == old(self).current + sl_len(old(self).tokens@, old(self).current as int)),
            atom_at(old(self).tokens@, old(self).current as int, old(self).restrictions) ==> r == Ok::<Expr, Diagnostic>(
                atom_of(old(self).tokens@[old(self).current as int])->0,
            ) && final(self).current == old(self).current + 1,
            old(self).restrictions.no_struct_literal ==> (r matches Ok(e) ==> !typed_struct_literal(e)),
            old(self).kind_at() is AmpAmp && atom_at(old(self).tokens@, old(self).current + 1, old(self).restrictions) ==> (r matches Ok(e)
                && e matches Expr::Unary { op: UnaryOp::Ref(false), value, .. } && (*value) matches Expr::Unary {
                op: UnaryOp::Ref(false),
                value: inner,
                ..
            } && *inner == atom(old(self).tokens@, old(self).current + 1)),
            old(self).kind_at() is AmpAmp ==> (r matches Ok(e) ==> (e matches Expr::Unary {
                op: UnaryOp::Ref(false),
                value,
                ..
            } && (*value) matches Expr::Unary { op: UnaryOp::Ref(_), .. })),
            unary_op_of(old(self).kind_at()) is Some && atom_at(
                old(self).tokens@,
                old(self).current + 1,
                old(self).restrictions,
            ) ==> (r matches Ok(e) && e matches Expr::Unary { op: o, value, .. } && o == unary_op_of(old(self).kind_at())->0 && *value
                == atom_of(old(self).tokens@[old(self).current + 1])->0),
            forall|e: int| #[trigger] chain(old(self).tokens@, old(self).current as int, e, old(self).restrictions)
                ==> (r matches Ok(x) && chain_result(x, old(self).tokens@, old(self).current as int, final(self).current as int, e, 9)),
        decreases old(self).tokens@.len() - old(self).current, 2nat,
    {
        proof {
            let t = self.tokens@;
            let c = self.current as int;
            assert forall|e: int| #[trigger] chain(t, c, e, self.restrictions) implies atom_of(t[c]) is Some && c + 1 < t.len()
                && !postfix_start(t[c + 1].kind, self.restrictions) && chain_result(atom(t, c), t, c, c + 1, e, 9) by {
                lemma_chain_head(t, c, e, self.restrictions);
                assert(chain_atoms(t, c, 1) =~= seq![atom(t, c)]);
                assert(chain_ops(t, c, 0) =~= Seq::<BinaryOp>::empty());
            }
        }
        if self.is_end() {
            return Err(Diagnostic::expected(self.span(), "an expression"));
        }
        let start = self.span();
        let double = matches!(self.peek().kind, TokenKind::AmpAmp);
        let op = match &self.peek().kind {
            TokenKind::Amp | TokenKind::AmpAmp => {
                self.bump();
                let is_mut = matches!(self.peek().kind, TokenKind::Mut);
                if is_mut {
                    self.bump();
                }
                Some(UnaryOp::Ref(is_mut))
            },
            TokenKind::Bang => {
                self.bump();
                Some(UnaryOp::Not)
            },
            TokenKind::Minus => {
                self.bump();
                Some(UnaryOp::Neg)
            },
            TokenKind::Plus => {
                self.bump();
                Some(UnaryOp::Plus)
            },
            _ => None,
        };
        match op {
            Some(op) => {
                let value = self.parse_unary()?;
                let span = start.to(&self.previous_span());
                let inner = Expr::Unary { op, value: Box::new(value), span };
                if double {
                    // `&&x` is a reference to a reference.
                    Ok(Expr::Unary { op: UnaryOp::Ref(false), value: Box::new(inner), span })
                } else {
                    Ok(inner)
                }
            },
            None => self.parse_primary(),
        }
    }

    /// An identifier, literal, parenthesized or tuple expression, block,
    /// `if`, `while`, anonymous struct literal or terminator, then its
    /// postfix operators.
    pub fn parse_primary(&mut self) -> (r: DiagnosticResult<Expr>)
        requires
            old(self).wf(),
        ensures
            steps(old(self), final(self)),
            r is Ok ==> final(self).current > old(self).current,
            r matches Ok(e) ==> !(e is Binary),
            atom_of(old(self).tokens@[old(self).current as int]) is Some && old(self).current + 1 < old(self).tokens@.len()
                && !postfix_start(old(self).tokens@[old(self).current + 1].kind, old(self).restrictions) ==> r == Ok::<Expr, Diagnostic>(
                atom(old(self).tokens@, old(self).current as int),
            ) && final(self).current == old(self).current + 1,
            sl_at(old(self).tokens@, old(self).current as int, old(self).restrictions) ==> (r matches Ok(e) && sl_of(
                e,
                old(self).tokens@,
                old(self).current as int,
            ) && final(self).current == old(self).current + sl_len(old(self).tokens@, old(self).current as int)),
            atom_at(old(self).tokens@, old(self).current as int, old(self).restrictions) ==> r == Ok::<Expr, Diagnostic>(
                atom_of(old(self).tokens@[old(self).current as int])->0,
            ) && final(self).current == old(self).current + 1,
            old(self).restrictions.no_struct_literal ==> (r matches Ok(e) ==> !typed_struct_literal(e)),
            old(self).kind_at() is OpenParen && atom_at(old(self).tokens@, old(self).current + 1, no_restrictions())
                && old(self).tokens@[old(self).current + 2].kind is CloseParen && !postfix_start(
                old(self).tokens@[old(self).current + 3].kind,
                old(self).restrictions,
            ) ==> (r matches Ok(e) && e matches Expr::Paren { inner, .. } && *inner == atom_of(
                old(self).tokens@[old(self).current + 1],
            )->0 && final(self).current == old(self).current + 3),
            old(self).kind_at() is OpenParen && sl_at(old(self).tokens@, old(self).current + 1, no_restrictions())
                && old(self).tokens@[old(self).current + 1 + sl_len(old(self).tokens@, old(self).current + 1)].kind is CloseParen
                && old(self).current + 2 + sl_len(old(self).tokens@, old(self).current + 1) < old(self).tokens@.len()
                && !postfix_start(
                old(self).tokens@[old(self).current + 2 + sl_len(old(self).tokens@, old(self).current + 1)].kind,
                old(self).restrictions,
            ) ==> (r matches Ok(e) && e matches Expr::Paren { inner, .. } && sl_of(*inner, old(self).tokens@, old(self).current + 1)),
        decreases old(self).tokens@.len() - old(self).current, 1nat,
    {
        if self.is_end() {
            return Err(Diagnostic::expected(self.span(), "an expression"));
        }
        let start = self.span();
        let expr = match &self.peek().kind {
            TokenKind::Ident(symbol) => {
                let symbol = symbol.clone();
                self.bump();
                Expr::Ident { symbol, span: start }
            },
            TokenKind::Int(value) => {
                let value = *value;
                self.bump();
                Expr::Literal { kind: LiteralKind::Int(value), span: start }
            },
            TokenKind::Float => {
                let text = self.peek().lexeme.clone();
                self.bump();
                Expr::Literal { kind: LiteralKind::Float(text), span: start }
            },
            TokenKind::Str(text) => {
                let text = text.clone();
                self.bump();
                Expr::Literal { kind: LiteralKind::Str(text), span: start }
            },
            TokenKind::Char(c) => {
                let c = *c;
                self.bump();
                Expr::Literal { kind: LiteralKind::Char(c), span: start }
            },
            TokenKind::True => {
                self.bump();
                Expr::Literal { kind: LiteralKind::Bool(true), span: start }
            },
            TokenKind::False => {
                self.bump();
                Expr::Literal { kind: LiteralKind::Bool(false), span: start }
            },
            TokenKind::Nil => {
                self.bump();
                Expr::Literal { kind: LiteralKind::Nil, span: start }
            },
            TokenKind::OpenParen => self.parse_paren()?,
            TokenKind::OpenCurly => self.parse_block()?,
            TokenKind::Star => {
                self.bump();
                let is_mutable = matches!(self.peek().kind, TokenKind::Mut);
                if is_mutable {
                    self.bump();
                }
                let inner = self.parse_expr()?;
                Expr::PointerType { inner: Box::new(inner), is_mutable, span: start.to(&self.previous_span()) }
            },
            TokenKind::OpenBracket => self.parse_array_type()?,
            TokenKind::Struct | TokenKind::Union => self.parse_struct_type()?,
            TokenKind::If => self.parse_if()?,
            TokenKind::While => self.parse_while()?,
            TokenKind::Return | TokenKind::Break | TokenKind::Continue => {
                return self.parse_terminator();
            },
            TokenKind::Dot => {
                self.bump();
                if matches!(self.peek().kind, TokenKind::OpenBracket) {
                    self.parse_array_literal(start)?
                } else if matches!(self.peek().kind, TokenKind::OpenCurly) {
                    self.parse_struct_literal(None, start)?
                } else {
                    return Err(Diagnostic::expected(self.span(), "an expression"));
                }
            },
            TokenKind::For => self.parse_for()?,
            TokenKind::At => self.parse_builtin()?,
            TokenKind::Fn => self.parse_fn_type()?,
            _ => {
                return Err(Diagnostic::expected(start, "an expression"));
            },
        };
        self.parse_postfix(expr)
    }

    /// From `(`: the unit tuple, a parenthesized expression or a tuple literal.
    fn parse_paren(&mut self) -> (r: DiagnosticResult<Expr>)
        requires
            old(self).wf(),
            old(self).kind_at() is OpenParen,
        ensures
            steps(old(self), final(self)),
            r is Ok ==> final(self).current > old(self).current,
            r matches Ok(e) ==> e is Paren || e is TupleLiteral,
            sl_at(old(self).tokens@, old(self).current + 1, no_restrictions()) && old(self).tokens@[old(self).current + 1 + sl_len(old(self).tokens@, old(self).current + 1)].kind is CloseParen ==> (r matches Ok(e)
                && e matches Expr::Paren { inner, .. } && sl_of(*inner, old(self).tokens@, old(self).current + 1)
                && final(self).current == old(self).current + 2 + sl_len(old(self).tokens@, old(self).current + 1)),
            atom_at(old(self).tokens@, old(self).current + 1, no_restrictions())
                && old(self).tokens@[old(self).current + 2].kind is CloseParen ==> (r matches Ok(e) && e matches Expr::Paren { inner, .. } && *inner == atom_of(
                old(self).tokens@[old(self).current + 1],
            )->0 && final(self).current == old(self).current + 3),
        decreases old(self).tokens@.len() - old(self).current, 0nat,
    {
        let start = self.span();
        self.bump();
        if matches!(self.peek().kind, TokenKind::CloseParen) {
            self.bump();
            return Ok(Expr::TupleLiteral { elements: Vec::new(), span: start.to(&self.previous_span()) });
        }
        let first = self.parse_expr()?;
        assert(atom_at(old(self).tokens@, old(self).current + 1, no_restrictions()) ==> first == atom_of(old(self).tokens@[old(self).current + 1])->0);
        if !matches!(self.peek().kind, TokenKind::Comma) {
            if !matches!(self.peek().kind, TokenKind::CloseParen) {
                return Err(Diagnostic::expected(self.span(), ")"));
            }
            self.bump();
            return Ok(Expr::Paren { inner: Box::new(first), span: start.to(&self.previous_span()) });
        }
        let mut elements: Vec<Expr> = Vec::new();
        elements.push(first);
        loop
            invariant
                steps(old(self), self),
                self.current > old(self).current,
                !(sl_at(old(self).tokens@, old(self).current + 1, no_restrictions()) && old(self).tokens@[old(self).current + 1 + sl_len(old(self).tokens@, old(self).current + 1)].kind is CloseParen),
                !(atom_at(old(self).tokens@, old(self).current + 1, no_restrictions())
                    && old(self).tokens@[old(self).current + 2].kind is CloseParen),
            decreases self.tokens@.len() - self.current,
        {
            if matches!(self.peek().kind, TokenKind::CloseParen) {
                self.bump();
                break;
            }
            if !matches!(self.peek().kind, TokenKind::Comma) {
                return Err(Diagnostic::expected(self.span(), ", or )"));
            }
            self.bump();
            if matches!(self.peek().kind, TokenKind::CloseParen) {
                self.bump();
                break;
            }
            let e = self.parse_expr()?;
            elements.push(e);
        }
        Ok(Expr::TupleLiteral { elements, span: start.to(&self.previous_span()) })
    }
}


/// The part of a lexeme before its first `.`, or all of it.
pub open spec fn first_component(s: Seq<char>) -> Seq<char> {
    if exists|i: int| 0 <= i < s.len() && s[i] == '.' {
        s.subrange(
            0,
            choose|i: int| 0 <= i < s.len() && s[i] == '.' && forall|j: int| 0 <= j < i ==> s[j] != '.',
        )
    } else {
        s
    }
}

/// `e` is `base.c.c`, split from a float token at `tok` whose first
/// component is `c`: the inner access covers `c` in the token and the outer
/// one what follows the dot, and both name `c`.
pub open spec fn is_double_access(e: Expr, base: Expr, c: Seq<char>, tok: Span) -> bool {
    match e {
        Expr::MemberAccess { expr, member, member_span, span } => {
            &&& member@ == c
            &&& span == base.span_of().to_spec(tok)
            &&& (tok.start + c.len() + 1 < usize::MAX ==> member_span == tok.with_start_spec(
                (tok.start + c.len() + 1) as usize,
            ))
            &&& match *expr {
                Expr::MemberAccess { expr: b, member, member_span, .. } => {
                    &&& *b == base
                    &&& member@ == c
                    &&& (tok.start + c.len() + 1 < usize::MAX ==> member_span == tok.with_end_spec(
                        (tok.start + c.len()) as usize,
                    ))
                },
                _ => false,
            }
        },
        _ => false,
    }
}

/// The prefix of `s` before its first `.`.
fn first_component_of(s: &String) -> (r: String)
    ensures
        r@ == first_component(s@),
{
    let t = s.as_str();
    let n = t.unicode_len();
    let mut i: usize = 0;
    while i < n
        invariant
            i <= n,
            n == s@.len(),
            t@ == s@,
            forall|j: int| 0 <= j < i ==> s@[j] != '.',
        decreases n - i,
    {
        if t.get_char(i) == '.' {
            proof {
                let k = choose|k: int|
                    0 <= k < s@.len() && s@[k] == '.' && forall|j: int| 0 <= j < k ==> s@[j] != '.';
                if k < i {
                    assert(s@[k] != '.');
                } else if k > i {
                    assert(s@[i as int] != '.');
                }
            }
            return t.substring_char(0, i).to_owned();
        }
        i += 1;
    }
    t.to_owned()
}

impl Parser {
    /// The postfix operators after `expr`: member access, call, subscript
    /// and cast, in a loop; then, unless struct literals are restricted, a
    /// struct literal whose type is the whole chain.
    pub fn parse_postfix(&mut self, expr: Expr) -> (r: DiagnosticResult<Expr>)
        requires
            old(self).wf(),
            !(expr is Call),
        ensures
            steps(old(self), final(self)),
            !postfix_start(old(self).kind_at(), old(self).restrictions) ==> r == Ok::<Expr, Diagnostic>(
                expr,
            ) && final(self).current == old(self).current,
            r matches Ok(e) ==> wraps(e, expr),
            r matches Ok(e) ==> !postfix_start(final(self).kind_at(), old(self).restrictions)
                || e is StructLiteral,
            !old(self).restrictions.no_struct_literal && old(self).kind_at() is OpenCurly ==> (r matches Ok(
                e,
            ) ==> (e matches Expr::StructLiteral { type_expr: Some(t), .. } && *t == expr)),
            old(self).restrictions.no_struct_literal && !typed_struct_literal(expr) ==> (r matches Ok(e)
                ==> !typed_struct_literal(e)),
            old(self).restrictions.no_cast && !(expr is Cast) ==> (r matches Ok(e) ==> !(e is Cast)),
            member_step(old(self).tokens@, old(self).current as int, old(self).restrictions) ==> (r matches Ok(e)
                && member_of(e, expr, old(self).tokens@, old(self).current as int) && final(self).current
                == old(self).current + 2),
            index_step(old(self).tokens@, old(self).current as int, old(self).restrictions) ==> (r matches Ok(e)
                && subscript_of(e, expr, old(self).tokens@, old(self).current as int) && final(self).current
                == old(self).current + 3),
            cast_step(old(self).tokens@, old(self).current as int, old(self).restrictions) ==> (r matches Ok(e)
                && cast_of(e, expr, atom(old(self).tokens@, old(self).current + 1)) && final(self).current
                == old(self).current + 2),
            cast_chain(old(self).tokens@, old(self).current as int, old(self).restrictions) ==> (r matches Ok(e)
                && e matches Expr::Cast { expr: inner, target, .. } && cast_of(
                *inner,
                expr,
                atom(old(self).tokens@, old(self).current + 1),
            ) && *target == atom(old(self).tokens@, old(self).current + 3) && final(self).current
                == old(self).current + 4),
            !old(self).restrictions.no_struct_literal && (empty_fields_at(old(self).tokens@, old(self).current as int)
                || one_field_at(old(self).tokens@, old(self).current as int)) ==> (r matches Ok(e)
                && struct_literal_of(e, Some(Box::new(expr)), old(self).tokens@, old(self).current as int)
                && final(self).current == old(self).current + (if empty_fields_at(old(self).tokens@, old(self).current as int) { 2int } else { 5int })),
        decreases old(self).tokens@.len() - old(self).current, 2nat,
    {
        let ghost first = expr;
        let mut expr = expr;
        let ghost c = old(self).current as int;
        let ghost t = old(self).tokens@;
        let ghost res = old(self).restrictions;
        loop
            invariant_except_break
                member_step(t, c, res) ==> (self.current == c && expr == first) || (self.current == c + 2
                    && member_of(expr, first, t, c)),
                index_step(t, c, res) ==> (self.current == c && expr == first) || (self.current == c + 3
                    && subscript_of(expr, first, t, c)),
                cast_step(t, c, res) ==> (self.current == c && expr == first) || (self.current == c + 2
                    && cast_of(expr, first, atom(t, c + 1))),
                cast_chain(t, c, res) ==> (self.current == c && expr == first) || (self.current == c + 2
                    && cast_of(expr, first, atom(t, c + 1))) || (self.current == c + 4 && (expr matches Expr::Cast {
                    expr: inner,
                    target,
                    ..
                } && cast_of(*inner, first, atom(t, c + 1)) && *target == atom(t, c + 3))),
            invariant
                c == old(self).current,
                t == old(self).tokens@,
                res == old(self).restrictions,
                steps(old(self), self),
                wraps(expr, first),
                !(first is Call),
                self.current == old(self).current ==> expr == first,
                self.current != old(self).current ==> (old(self).kind_at() is Dot
                    || old(self).kind_at() is OpenParen || old(self).kind_at() is OpenBracket || old(self).kind_at() is Fn || (old(
                    self,
                ).kind_at() is As && !old(self).restrictions.no_cast)),
                !typed_struct_literal(first) ==> !typed_struct_literal(expr),
                old(self).restrictions.no_cast && !(first is Cast) ==> !(expr is Cast),
            ensures
                steps(old(self), self),
                wraps(expr, first),
                self.current == old(self).current ==> expr == first,
                self.current != old(self).current ==> (old(self).kind_at() is Dot
                    || old(self).kind_at() is OpenParen || old(self).kind_at() is OpenBracket || old(self).kind_at() is Fn || (old(
                    self,
                ).kind_at() is As && !old(self).restrictions.no_cast)),
                !typed_struct_literal(first) ==> !typed_struct_literal(expr),
                old(self).restrictions.no_cast && !(first is Cast) ==> !(expr is Cast),
                !(self.kind_at() is Dot || self.kind_at() is OpenParen || self.kind_at() is OpenBracket
                    || self.kind_at() is Fn || (self.kind_at() is As && !self.restrictions.no_cast)),
                member_step(t, c, res) ==> self.current == c + 2 && member_of(expr, first, t, c),
                index_step(t, c, res) ==> self.current == c + 3 && subscript_of(expr, first, t, c),
                cast_step(t, c, res) ==> self.current == c + 2 && cast_of(expr, first, atom(t, c + 1)),
                cast_chain(t, c, res) ==> self.current == c + 4 && (expr matches Expr::Cast {
                    expr: inner,
                    target,
                    ..
                } && cast_of(*inner, first, atom(t, c + 1)) && *target == atom(t, c + 3)),
            decreases self.tokens@.len() - self.current,
        {
            let ghost prev = expr;
            let kind = &self.peek().kind;
            if matches!(kind, TokenKind::Dot) {
                expr = self.parse_member_access(expr)?;
            } else if matches!(kind, TokenKind::OpenParen) {
                expr = self.parse_call(expr)?;
            } else if matches!(kind, TokenKind::OpenBracket) {
                expr = self.parse_subscript(expr)?;
            } else if matches!(kind, TokenKind::As) && !self.restrictions.no_cast {
                expr = self.parse_cast(expr)?;
            } else if matches!(kind, TokenKind::Fn) {
                expr = self.parse_trailing_fn(expr)?;
            } else {
                break;
            }
            assert(wraps(prev, first));
            assert(wraps(expr, first)) by {
                if let Expr::MemberAccess { expr: inner, .. } = expr {
                    if *inner != prev {
                        assert(wraps(*inner, first));
                    }
                }
                if let Expr::Call { callee, .. } = prev {
                    assert(prev != first);
                    assert(wraps(*callee, first));
                }
            }
        }
        if !self.restrictions.no_struct_literal && matches!(self.peek().kind, TokenKind::OpenCurly) {
            let start = expr.span();
            return self.parse_struct_literal(Some(Box::new(expr)), start);
        }
        Ok(expr)
    }

    /// From `.`: a member access. A float token such as `0.1` after the dot
    /// (as in `t.0.1`) becomes two chained accesses, each naming the
    /// lexeme's first component.
    pub fn parse_member_access(&mut self, expr: Expr) -> (r: DiagnosticResult<Expr>)
        requires
            old(self).wf(),
            old(self).kind_at() is Dot,
        ensures
            steps(old(self), final(self)),
            r is Ok ==> final(self).current > old(self).current,
            r matches Ok(e) ==> (e matches Expr::MemberAccess { expr: b, .. } && (*b == expr || ((*b) matches Expr::MemberAccess { expr: c, .. } && *c == expr))) || (e matches Expr::Unary { op: UnaryOp::Deref, value, .. } && *value == expr),
            old(self).tokens@[old(self).current + 1].kind is Float ==> (r matches Ok(e)
                && is_double_access(
                e,
                expr,
                first_component(old(self).tokens@[old(self).current + 1].lexeme@),
                old(self).tokens@[old(self).current + 1].span,
            )),
            old(self).tokens@[old(self).current + 1].kind is Ident ==> (r matches Ok(e) && (e matches Expr::MemberAccess { expr: b, member, .. } && member == old(self).tokens@[old(self).current + 1].kind->Ident_0 && *b == expr) && final(self).current == old(self).current + 2),
        decreases old(self).tokens@.len() - old(self).current, 0nat,
    {
        let start = expr.span();
        self.bump();
        let token_span = self.span();
        let member_end = start.to(&token_span);
        match &self.peek().kind {
            TokenKind::Ident(id) => {
                let member = id.clone();
                self.bump();
                Ok(Expr::MemberAccess { expr: Box::new(expr), member, member_span: token_span, span: member_end })
            },
            TokenKind::Int(_) => {
                let member = self.peek().lexeme.clone();
                self.bump();
                Ok(Expr::MemberAccess { expr: Box::new(expr), member, member_span: token_span, span: member_end })
            },
            TokenKind::Float => {
                let first = first_component_of(&self.peek().lexeme);
                let len = first.as_str().unicode_len();
                let fits = len < usize::MAX - 1 && token_span.start < usize::MAX - 1 - len;
                let first_end = if fits {
                    token_span.start + len
                } else {
                    token_span.end
                };
                let first_span = token_span.with_end(first_end);
                let second_start = if fits {
                    token_span.start + len + 1
                } else {
                    token_span.end
                };
                let second_span = token_span.with_start(second_start);
                let second = first.clone();
                self.bump();
                let inner = Expr::MemberAccess {
                    expr: Box::new(expr),
                    member: first,
                    member_span: first_span,
                    span: start.to(&first_span),
                };
                Ok(Expr::MemberAccess { expr: Box::new(inner), member: second, member_span: second_span, span: member_end })
            },
            TokenKind::Star => {
                self.bump();
                Ok(Expr::Unary { op: UnaryOp::Deref, value: Box::new(expr), span: member_end })
            },
            _ => Err(Diagnostic::expected(token_span, "an identifier, number or *")),
        }
    }

    /// From `(`: the arguments of a call of `callee`.
    fn parse_call(&mut self, callee: Expr) -> (r: DiagnosticResult<Expr>)
        requires
            old(self).wf(),
            old(self).kind_at() is OpenParen,
        ensures
            steps(old(self), final(self)),
            r is Ok ==> final(self).current > old(self).current,
            r matches Ok(e) ==> (e matches Expr::Call { callee: b, .. } && *b == callee),
            r matches Ok(e) ==> named_last(e->Call_args@),
            positional_after_named(old(self).tokens@, old(self).current as int) ==> r is Err,
        decreases old(self).tokens@.len() - old(self).current, 0nat,
    {
        let start = callee.span();
        self.bump();
        let mut args: Vec<CallArg> = Vec::new();
        loop
            invariant
                steps(old(self), self),
                self.current > old(self).current,
                named_last(args@),
                positional_after_named(old(self).tokens@, old(self).current as int) ==> (self.current == old(self).current + 1
                    && args@.len() == 0) || (self.current == old(self).current + 5 && args@.len() == 1
                    && args@[0].name is Some),
            ensures
                steps(old(self), self),
                self.current > old(self).current,
                named_last(args@),
                !positional_after_named(old(self).tokens@, old(self).current as int),
            decreases self.tokens@.len() - self.current,
        {
            if matches!(self.peek().kind, TokenKind::CloseParen) {
                self.bump();
                break;
            }
            if self.is_end() {
                return Err(Diagnostic::expected(self.span(), ")"));
            }
            let named = match &self.peek().kind {
                TokenKind::Ident(_) => self.next_is_colon(),
                _ => false,
            };
            let name = if named {
                let n = match &self.peek().kind {
                    TokenKind::Ident(id) => Some(id.clone()),
                    _ => None,
                };
                self.bump();
                self.bump();
                n
            } else {
                if args.len() > 0 && args[args.len() - 1].name.is_some() {
                    return Err(Diagnostic::expected(self.span(), "a named argument after a named one"));
                }
                None
            };
            let value = self.parse_expr()?;
            let ghost prev = args@;
            let is_named = name.is_some();
            args.push(CallArg { name, value });
            proof {
                assert forall|a: int, b: int| 0 <= a < b < args@.len() && (#[trigger] args@[a]).name is Some implies (#[trigger] args@[b]).name is Some by {
                    if b < prev.len() {
                        assert(args@[a] == prev[a]);
                        assert(args@[b] == prev[b]);
                    } else {
                        assert(args@[a] == prev[a]);
                        if !is_named {
                            assert(prev[prev.len() - 1].name is Some);
                        }
                    }
                }
            }
            if matches!(self.peek().kind, TokenKind::Comma) {
                self.bump();
            } else if !matches!(self.peek().kind, TokenKind::CloseParen) {
                return Err(Diagnostic::expected(self.span(), ", or )"));
            }
        }
        Ok(Expr::Call { callee: Box::new(callee), args, span: start.to(&self.previous_span()) })
    }

    /// From `[`: an index into `expr`, or a slice `[low..high]` of it
    /// with either bound left out.
    fn parse_subscript(&mut self, expr: Expr) -> (r: DiagnosticResult<Expr>)
        requires
            old(self).wf(),
            old(self).kind_at() is OpenBracket,
        ensures
            steps(old(self), final(self)),
            r is Ok ==> final(self).current > old(self).current,
            r matches Ok(e) ==> (e matches Expr::Subscript { expr: b, .. } && *b == expr) || (e matches Expr::Slice { expr: b, .. } && *b == expr),
            atom_at(old(self).tokens@, old(self).current + 1, no_restrictions())
                && old(self).tokens@[old(self).current + 2].kind is CloseBracket ==> (r matches Ok(e)
                && e matches Expr::Subscript { expr: b, index, .. } && *b == expr && *index == atom_of(
                old(self).tokens@[old(self).current + 1],
            )->0 && final(self).current == old(self).current + 3),
            atom_at(old(self).tokens@, old(self).current + 1, no_restrictions())
                && old(self).tokens@[old(self).current + 2].kind is DotDot && atom_at(
                old(self).tokens@,
                old(self).current + 3,
                no_restrictions(),
            ) && old(self).tokens@[old(self).current + 4].kind is CloseBracket ==> (r matches Ok(e)
                && e matches Expr::Slice { expr: b, low: Some(l), high: Some(h), .. } && *b == expr
                && *l == atom_of(old(self).tokens@[old(self).current + 1])->0 && *h == atom_of(
                old(self).tokens@[old(self).current + 3],
            )->0),
        decreases old(self).tokens@.len() - old(self).current, 0nat,
    {
        let start = expr.span();
        self.bump();
        let low = if matches!(self.peek().kind, TokenKind::DotDot) {
            None
        } else {
            Some(Box::new(self.parse_expr()?))
        };
        if matches!(self.peek().kind, TokenKind::DotDot) {
            self.bump();
            let high = if matches!(self.peek().kind, TokenKind::CloseBracket) {
                None
            } else {
                Some(Box::new(self.parse_expr()?))
            };
            if !matches!(self.peek().kind, TokenKind::CloseBracket) {
                return Err(Diagnostic::expected(self.span(), "]"));
            }
            self.bump();
            return Ok(Expr::Slice { expr: Box::new(expr), low, high, span: start.to(&self.previous_span()) });
        }
        if !matches!(self.peek().kind, TokenKind::CloseBracket) {
            return Err(Diagnostic::expected(self.span(), "]"));
        }
        self.bump();
        match low {
            Some(index) => Ok(Expr::Subscript { expr: Box::new(expr), index, span: start.to(&self.previous_span()) }),
            None => Err(Diagnostic::expected(self.previous_span(), "an index")),
        }
    }

    /// From `as`: a cast of `expr`; its target is parsed with casts
    /// restricted, so `a as b as c` does not nest inside the target.
    fn parse_cast(&mut self, expr: Expr) -> (r: DiagnosticResult<Expr>)
        requires
            old(self).wf(),
            old(self).kind_at() is As,
        ensures
            steps(old(self), final(self)),
            r is Ok ==> final(self).current > old(self).current,
            r matches Ok(e) ==> (e matches Expr::Cast { expr: b, .. } && *b == expr),
            atom_at(old(self).tokens@, old(self).current + 1, cast_restrictions()) ==> (r matches Ok(e)
                && e matches Expr::Cast { expr: b, target, .. } && *b == expr && *target == atom(
                old(self).tokens@,
                old(self).current + 1,
            ) && final(self).current == old(self).current + 2),
        decreases old(self).tokens@.len() - old(self).current, 0nat,
    {
        let start = expr.span();
        self.bump();
        let target = self.parse_expr_with_res(Restrictions { no_struct_literal: false, no_cast: true })?;
        Ok(Expr::Cast { expr: Box::new(expr), target: Box::new(target), span: start.to(&self.previous_span()) })
    }

    /// From `{`: the fields `name: value` of a struct literal.
    fn parse_struct_literal(&mut self, type_expr: Option<Box<Expr>>, start: Span) -> (r: DiagnosticResult<Expr>)
        requires
            old(self).wf(),
            old(self).kind_at() is OpenCurly,
        ensures
            steps(old(self), final(self)),
            r is Ok ==> final(self).current > old(self).current,
            r matches Ok(e) ==> (e matches Expr::StructLiteral { type_expr: t, .. } && t == type_expr),
            empty_fields_at(old(self).tokens@, old(self).current as int) ==> (r matches Ok(e)
                && struct_literal_of(e, type_expr, old(self).tokens@, old(self).current as int)
                && final(self).current == old(self).current + 2),
            one_field_at(old(self).tokens@, old(self).current as int) ==> (r matches Ok(e)
                && struct_literal_of(e, type_expr, old(self).tokens@, old(self).current as int)
                && final(self).current == old(self).current + 5),
        decreases old(self).tokens@.len() - old(self).current, 0nat,
    {
        self.bump();
        let mut fields: Vec<(String, Expr)> = Vec::new();
        let ghost c = old(self).current as int;
        let ghost e0 = empty_fields_at(old(self).tokens@, c);
        let ghost e1 = one_field_at(old(self).tokens@, c);
        loop
            invariant_except_break
                e0 ==> self.current == c + 1 && fields@.len() == 0,
                e1 ==> (self.current == c + 1 && fields@.len() == 0) || (self.current == c + 4
                    && fields@.len() == 1 && fields@[0].0 == old(self).tokens@[c + 1].kind->Ident_0
                    && fields@[0].1 == atom(old(self).tokens@, c + 3)),
            invariant
                steps(old(self), self),
                self.current > old(self).current,
                c == old(self).current,
                e0 == empty_fields_at(old(self).tokens@, c),
                e1 == one_field_at(old(self).tokens@, c),
            ensures
                steps(old(self), self),
                self.current > old(self).current,
                e0 ==> self.current == c + 2 && fields@.len() == 0,
                e1 ==> self.current == c + 5 && fields@.len() == 1 && fields@[0].0 == old(
                    self,
                ).tokens@[c + 1].kind->Ident_0 && fields@[0].1 == atom(old(self).tokens@, c + 3),
            decreases self.tokens@.len() - self.current,
        {
            if matches!(self.peek().kind, TokenKind::CloseCurly) {
                self.bump();
                break;
            }
            let name = match &self.peek().kind {
                TokenKind::Ident(id) => id.clone(),
                _ => {
                    return Err(Diagnostic::expected(self.span(), "an identifier"));
                },
            };
            self.bump();
            if !matches!(self.peek().kind, TokenKind::Colon) {
                return Err(Diagnostic::expected(self.span(), ":"));
            }
            self.bump();
            let value = self.parse_expr()?;
            fields.push((name, value));
            if matches!(self.peek().kind, TokenKind::Comma) {
                self.bump();
            } else if !matches!(self.peek().kind, TokenKind::CloseCurly) {
                return Err(Diagnostic::expected(self.span(), ", or }"));
            }
        }
        Ok(Expr::StructLiteral { type_expr, fields, span: start.to(&self.previous_span()) })
    }

    /// From `{`: statements up to the matching `}`. The block yields its
    /// last statement's value when no `;` follows it.
    pub fn parse_block(&mut self) -> (r: DiagnosticResult<Expr>)
        requires
            old(self).wf(),
            old(self).kind_at() is OpenCurly,
        ensures
            steps(old(self), final(self)),
            r is Ok ==> final(self).current > old(self).current,
            r matches Ok(e) ==> e is Block,
            simple_block(old(self).tokens@, old(self).current as int) ==> (r matches Ok(e) && block_holds(
                e,
                atom(old(self).tokens@, old(self).current + 1),
            ) && final(self).current == old(self).current + 3),
            old(self).tokens@[old(self).current + 1].kind is CloseCurly ==> (r matches Ok(e)
                && e matches Expr::Block { exprs, yields, .. } && exprs@.len() == 0 && !yields),
        decreases old(self).tokens@.len() - old(self).current, 0nat,
    {
        let start = self.span();
        self.bump();
        let mut exprs: Vec<Expr> = Vec::new();
        let mut yields = false;
        let ghost c = old(self).current as int;
        let ghost simple = simple_block(old(self).tokens@, c);
        loop
            invariant_except_break
                simple ==> self.current == c + 1 && exprs@.len() == 0,
                old(self).tokens@[c + 1].kind is CloseCurly ==> self.current == c + 1 && exprs@.len() == 0
                    && !yields,
            invariant
                steps(old(self), self),
                self.current > old(self).current,
                c == old(self).current,
                simple == simple_block(old(self).tokens@, c),
            ensures
                steps(old(self), self),
                self.current > old(self).current,
                simple ==> self.current == c + 3 && exprs@ == seq![atom(old(self).tokens@, c + 1)]
                    && yields,
                old(self).tokens@[c + 1].kind is CloseCurly ==> exprs@.len() == 0 && !yields,
            decreases self.tokens@.len() - self.current,
        {
            if matches!(self.peek().kind, TokenKind::Semicolon) {
                self.bump();
                continue;
            }
            if matches!(self.peek().kind, TokenKind::CloseCurly) {
                self.bump();
                break;
            }
            if self.is_end() {
                return Err(Diagnostic::expected(self.span(), "}"));
            }
            let stmt = self.parse_stmt()?;
            let free = stmt.doesnt_require_semicolon();
            exprs.push(stmt);
            if matches!(self.peek().kind, TokenKind::Semicolon) {
                self.bump();
                yields = false;
            } else if matches!(self.peek().kind, TokenKind::CloseCurly) {
                self.bump();
                yields = true;
                break;
            } else if !free {
                return Err(Diagnostic::expected(self.previous_span(), ";"));
            }
        }
        Ok(Expr::Block { exprs, yields, span: start.to(&self.previous_span()) })
    }

    /// One statement of a block: a `let` binding or an expression.
    pub fn parse_stmt(&mut self) -> (r: DiagnosticResult<Expr>)
        requires
            old(self).wf(),
        ensures
            steps(old(self), final(self)),
            r is Ok ==> final(self).current > old(self).current,
            atom_at(old(self).tokens@, old(self).current as int, no_restrictions()) ==> r == Ok::<
                Expr,
                Diagnostic,
            >(atom(old(self).tokens@, old(self).current as int)) && final(self).current
                == old(self).current + 1,
            old(self).kind_at() is Let ==> (r matches Ok(e) ==> e is Binding),
        decreases old(self).tokens@.len() - old(self).current, 15nat,
    {
        if matches!(self.peek().kind, TokenKind::Let) {
            self.parse_binding()
        } else {
            self.parse_expr()
        }
    }

    /// From `if`: the condition, parsed with struct literals restricted so
    /// that `{` opens the branch, then the branches.
    pub fn parse_if(&mut self) -> (r: DiagnosticResult<Expr>)
        requires
            old(self).wf(),
            old(self).kind_at() is If,
        ensures
            steps(old(self), final(self)),
            r is Ok ==> final(self).current > old(self).current,
            r matches Ok(e) ==> (e matches Expr::If { cond, .. } && !typed_struct_literal(*cond)),
            atom_at(old(self).tokens@, old(self).current + 1, head_restrictions()) && simple_block(
                old(self).tokens@,
                old(self).current + 2,
            ) && (old(self).tokens@[old(self).current + 5].kind is Else ==> simple_block(
                old(self).tokens@,
                old(self).current + 6,
            )) ==> (r matches Ok(e) && e matches Expr::If { cond, then, otherwise, .. } && *cond == atom(
                old(self).tokens@,
                old(self).current + 1,
            ) && block_holds(*then, atom(old(self).tokens@, old(self).current + 3)) && (
            old(self).tokens@[old(self).current + 5].kind is Else && simple_block(
                old(self).tokens@,
                old(self).current + 6,
            ) ==> (otherwise matches Some(o) && block_holds(*o, atom(old(self).tokens@, old(self).current + 7))))
                && (!(old(self).tokens@[old(self).current + 5].kind is Else) ==> otherwise is None)),
        decreases old(self).tokens@.len() - old(self).current, 0nat,
    {
        let start = self.span();
        self.bump();
        let cond = self.parse_expr_with_res(Restrictions { no_struct_literal: true, no_cast: false })?;
        if !matches!(self.peek().kind, TokenKind::OpenCurly) {
            return Err(Diagnostic::expected(self.span(), "{"));
        }
        let then = self.parse_block()?;
        let otherwise = if matches!(self.peek().kind, TokenKind::Else) {
            self.bump();
            if matches!(self.peek().kind, TokenKind::If) {
                Some(Box::new(self.parse_if()?))
            } else if matches!(self.peek().kind, TokenKind::OpenCurly) {
                Some(Box::new(self.parse_block()?))
            } else {
                return Err(Diagnostic::expected(self.span(), "{"));
            }
        } else {
            None
        };
        Ok(Expr::If { cond: Box::new(cond), then: Box::new(then), otherwise, span: start.to(&self.previous_span()) })
    }

    /// From `while`: the condition, restricted as for `if`, and the body.
    pub fn parse_while(&mut self) -> (r: DiagnosticResult<Expr>)
        requires
            old(self).wf(),
            old(self).kind_at() is While,
        ensures
            steps(old(self), final(self)),
            r is Ok ==> final(self).current > old(self).current,
            r matches Ok(e) ==> (e matches Expr::While { cond, .. } && !typed_struct_literal(*cond)),
            atom_at(old(self).tokens@, old(self).current + 1, head_restrictions()) && simple_block(
                old(self).tokens@,
                old(self).current + 2,
            ) ==> (r matches Ok(e) && e matches Expr::While { cond, block, .. } && *cond == atom(
                old(self).tokens@,
                old(self).current + 1,
            ) && block_holds(*block, atom(old(self).tokens@, old(self).current + 3))),
        decreases old(self).tokens@.len() - old(self).current, 0nat,
    {
        let start = self.span();
        self.bump();
        let cond = self.parse_expr_with_res(Restrictions { no_struct_literal: true, no_cast: false })?;
        if !matches!(self.peek().kind, TokenKind::OpenCurly) {
            return Err(Diagnostic::expected(self.span(), "{"));
        }
        let block = self.parse_block()?;
        Ok(Expr::While { cond: Box::new(cond), block: Box::new(block), span: start.to(&self.previous_span()) })
    }

    /// From `return`, `break` or `continue`.
    fn parse_terminator(&mut self) -> (r: DiagnosticResult<Expr>)
        requires
            old(self).wf(),
            old(self).kind_at() is Return || old(self).kind_at() is Break || old(self).kind_at() is Continue,
        ensures
            r matches Ok(e) ==> e is Return || e is Break || e is Continue,
            steps(old(self), final(self)),
            r is Ok ==> final(self).current > old(self).current,
        decreases old(self).tokens@.len() - old(self).current, 0nat,
    {
        let start = self.span();
        let is_return = matches!(self.peek().kind, TokenKind::Return);
        let is_break = matches!(self.peek().kind, TokenKind::Break);
        self.bump();
        if is_return {
            let ends = matches!(self.peek().kind, TokenKind::Semicolon | TokenKind::CloseCurly | TokenKind::Eof);
            let expr = if ends {
                None
            } else {
                Some(Box::new(self.parse_expr()?))
            };
            Ok(Expr::Return { expr, span: start.to(&self.previous_span()) })
        } else if is_break {
            Ok(Expr::Break { span: start })
        } else {
            Ok(Expr::Continue { span: start })
        }
    }

    /// One name of a pattern, with an optional `mut` before it.
    fn parse_symbol_pattern(&mut self) -> (r: DiagnosticResult<SymbolPattern>)
        requires
            old(self).wf(),
        ensures
            steps(old(self), final(self)),
            r is Ok ==> final(self).current > old(self).current,
            old(self).kind_at() is Ident ==> (r matches Ok(p) && p.symbol == old(self).kind_at()->Ident_0
                && !p.is_mutable && p.alias is None && final(self).current == old(self).current + 1),
            old(self).kind_at() is Mut && old(self).tokens@[old(self).current + 1].kind is Ident ==> (r matches Ok(p) && p.symbol == old(self).tokens@[old(self).current + 1].kind->Ident_0 && p.is_mutable && p.alias is None),
    {
        let is_mutable = matches!(self.peek().kind, TokenKind::Mut);
        if is_mutable {
            self.bump();
        }
        let span = self.span();
        let symbol = match &self.peek().kind {
            TokenKind::Ident(id) => id.clone(),
            _ => {
                return Err(Diagnostic::expected(span, "an identifier"));
            },
        };
        self.bump();
        Ok(SymbolPattern::new(symbol, is_mutable, span))
    }

    /// A pattern: a name, `{a, b}` or `(a, b)`.
    fn parse_pattern(&mut self) -> (r: DiagnosticResult<Pattern>)
        requires
            old(self).wf(),
        ensures
            steps(old(self), final(self)),
            r is Ok ==> final(self).current > old(self).current,
            old(self).kind_at() is Ident ==> (r matches Ok(Pattern::Symbol(p))
                && p.symbol == old(self).kind_at()->Ident_0 && !p.is_mutable && p.alias is None && final(self).current
                == old(self).current + 1),
    {
        let start = self.span();
        let is_struct = matches!(self.peek().kind, TokenKind::OpenCurly);
        let is_tuple = matches!(self.peek().kind, TokenKind::OpenParen);
        if !is_struct && !is_tuple {
            let p = self.parse_symbol_pattern()?;
            return Ok(Pattern::Symbol(p));
        }
        self.bump();
        let mut symbols: Vec<SymbolPattern> = Vec::new();
        loop
            invariant
                steps(old(self), self),
                !(old(self).kind_at() is Ident),
                self.current > old(self).current,
            decreases self.tokens@.len() - self.current,
        {
            let closes = if is_struct {
                matches!(self.peek().kind, TokenKind::CloseCurly)
            } else {
                matches!(self.peek().kind, TokenKind::CloseParen)
            };
            if closes {
                self.bump();
                break;
            }
            let p = self.parse_symbol_pattern()?;
            symbols.push(p);
            if matches!(self.peek().kind, TokenKind::Comma) {
                self.bump();
            }
        }
        let unpack = crate::pattern::UnpackPattern { symbols, span: start.to(&self.previous_span()) };
        if is_struct {
            Ok(Pattern::StructUnpack(unpack))
        } else {
            Ok(Pattern::TupleUnpack(unpack))
        }
    }

    /// From `let`: a pattern and an optional `= value`.
    pub fn parse_binding(&mut self) -> (r: DiagnosticResult<Expr>)
        requires
            old(self).wf(),
            old(self).kind_at() is Let,
        ensures
            steps(old(self), final(self)),
            r is Ok ==> final(self).current > old(self).current,
            r matches Ok(e) ==> e is Binding,
            old(self).tokens@[old(self).current + 1].kind is Ident && old(
                self,
            ).tokens@[old(self).current + 2].kind is Eq && atom_at(
                old(self).tokens@,
                old(self).current + 3,
                no_restrictions(),
            ) ==> (r matches Ok(Expr::Binding { pattern: Pattern::Symbol(p), value: Some(v), .. })
                && p.symbol == old(self).tokens@[old(self).current + 1].kind->Ident_0 && !p.is_mutable && *v == atom(old(self).tokens@, old(self).current + 3)
                && final(self).current == old(self).current + 4),
            old(self).tokens@[old(self).current + 1].kind is Ident && !(old(
                self,
            ).tokens@[old(self).current + 2].kind is Eq) ==> (r matches Ok(
                Expr::Binding { pattern: Pattern::Symbol(p), value: None, .. },
            ) && p.symbol == old(self).tokens@[old(self).current + 1].kind->Ident_0 && final(self).current == old(self).current + 2),
        decreases old(self).tokens@.len() - old(self).current, 0nat,
    {
        let start = self.span();
        self.bump();
        let pattern = self.parse_pattern()?;
        let value = if matches!(self.peek().kind, TokenKind::Eq) {
            self.bump();
            Some(Box::new(self.parse_expr()?))
        } else {
            None
        };
        Ok(Expr::Binding { pattern, value, span: start.to(&self.previous_span()) })
    }

    /// Skips to the next `;` (or the end) after a syntax error.
    pub fn skip_until_recovery_point(&mut self)
        requires
            old(self).wf(),
        ensures
            steps(old(self), final(self)),
            final(self).diagnostics == old(self).diagnostics,
            final(self).kind_at() is Semicolon || final(self).kind_at() is Eof,
            !(old(self).kind_at() is Semicolon) && !(old(self).kind_at() is Eof) && old(self).tokens@[old(self).current + 1].kind is Semicolon
                ==> final(self).current == old(self).current + 1,
    {
        while !self.is_end() && !matches!(self.peek().kind, TokenKind::Semicolon)
            invariant
                steps(old(self), self),
                self.diagnostics == old(self).diagnostics,
                !(old(self).kind_at() is Semicolon) && !(old(self).kind_at() is Eof) && old(self).tokens@[old(self).current + 1].kind is Semicolon
                    ==> self.current <= old(self).current + 1,
            decreases self.tokens@.len() - self.current,
        {
            self.bump();
        }
    }

    pub fn skip_trailing_semicolons(&mut self)
        requires
            old(self).wf(),
        ensures
            steps(old(self), final(self)),
            final(self).diagnostics == old(self).diagnostics,
            !(final(self).kind_at() is Semicolon),
            old(self).kind_at() is Semicolon ==> final(self).current > old(self).current,
            old(self).kind_at() is Semicolon && !(old(self).tokens@[old(self).current + 1].kind is Semicolon)
                ==> final(self).current == old(self).current + 1,
            !(old(self).kind_at() is Semicolon) ==> final(self).current == old(self).current,
    {
        while matches!(self.peek().kind, TokenKind::Semicolon)
            invariant
                steps(old(self), self),
                self.diagnostics == old(self).diagnostics,
                old(self).kind_at() is Semicolon && !(old(self).tokens@[old(self).current + 1].kind is Semicolon)
                    ==> self.current <= old(self).current + 1,
                !(old(self).kind_at() is Semicolon) ==> self.current == old(self).current,
                old(self).kind_at() is Semicolon && self.current == old(self).current ==> self.kind_at() is Semicolon,
            decreases self.tokens@.len() - self.current,
        {
            self.bump();
        }
    }

    /// The module's top-level `let` bindings, in order. A syntax error is
    /// recorded, the parser skips to the next `;`, and parsing goes on, so
    /// one pass reports every independent error.
    pub fn parse(&mut self) -> (r: Ast)
        requires
            old(self).wf(),
        ensures
            final(self).wf(),
            final(self).tokens == old(self).tokens,
            final(self).kind_at() is Eof,
            final(self).diagnostics@.len() >= old(self).diagnostics@.len(),
            final(self).diagnostics@.subrange(0, old(self).diagnostics@.len() as int) == old(self).diagnostics@,
            r.module_id == old(self).module_id,
            forall|i: int| 0 <= i < r.bindings@.len() ==> (#[trigger] r.bindings@[i]) is Binding,
            script(old(self).tokens@, old(self).current as int) ==> {
                &&& final(self).diagnostics@.len() == old(self).diagnostics@.len() + strays(
                    old(self).tokens@,
                    old(self).current as int,
                )
                &&& r.bindings@.len() == lets(old(self).tokens@, old(self).current as int).len()
                &&& forall|k: int|
                    0 <= k < r.bindings@.len() ==> let_of(
                        #[trigger] r.bindings@[k],
                        old(self).tokens@,
                        lets(old(self).tokens@, old(self).current as int)[k],
                    )
            },
            first_let(old(self).tokens@, old(self).current as int) ==> r.bindings@.len() >= 1 && let_of(
                r.bindings@[0],
                old(self).tokens@,
                old(self).current as int,
            ),
    {
        let mut bindings: Vec<Expr> = Vec::new();
        let mut uses: Vec<UseDecl> = Vec::new();
        let ghost c = old(self).current as int;
        let ghost fl = first_let(old(self).tokens@, c);
        let ghost mut pos: Seq<int> = Seq::empty();
        proof {
            assert(lets(old(self).tokens@, c) =~= pos + lets(old(self).tokens@, c));
        }
        while !self.is_end()
            invariant
                self.wf(),
                self.tokens == old(self).tokens,
                self.module_id == old(self).module_id,
                self.diagnostics@.len() >= old(self).diagnostics@.len(),
                self.diagnostics@.subrange(0, old(self).diagnostics@.len() as int) == old(self).diagnostics@,
                forall|i: int| 0 <= i < bindings@.len() ==> (#[trigger] bindings@[i]) is Binding,
                c == old(self).current,
                fl == first_let(old(self).tokens@, c),
                script(old(self).tokens@, c) ==> {
                    &&& script(old(self).tokens@, self.current as int)
                    &&& self.diagnostics@.len() + strays(old(self).tokens@, self.current as int) == old(self).diagnostics@.len()
                        + strays(old(self).tokens@, c)
                    &&& lets(old(self).tokens@, c) == pos + lets(old(self).tokens@, self.current as int)
                    &&& pos.len() == bindings@.len()
                    &&& forall|k: int| 0 <= k < bindings@.len() ==> let_of(#[trigger] bindings@[k], old(self).tokens@, pos[k])
                },
                fl ==> (self.current == c && bindings@.len() == 0) || (bindings@.len() >= 1 && let_of(
                    bindings@[0],
                    old(self).tokens@,
                    c,
                )),
            decreases self.tokens@.len() - self.current,
        {
            let ghost diags_before = self.diagnostics@;
            let ghost bindings_before = bindings@;
            let ghost pos_before = pos;
            let before = self.current;
            let is_pub = matches!(self.peek().kind, TokenKind::Pub);
            if is_pub {
                self.bump();
            }
            if matches!(self.peek().kind, TokenKind::Use) {
                let visibility = if is_pub {
                    Visibility::Public
                } else {
                    Visibility::Private
                };
                match self.parse_use(visibility) {
                    Ok(mut decls) => uses.append(&mut decls),
                    Err(d) => {
                        self.diagnostics.push(d);
                        self.skip_until_recovery_point();
                    },
                }
            } else if matches!(self.peek().kind, TokenKind::Let) {
                match self.parse_binding() {
                    Ok(e) => {
                        bindings.push(e);
                        proof {
                            pos = pos.push(before as int);
                        }
                    },
                    Err(d) => {
                        self.diagnostics.push(d);
                        self.skip_until_recovery_point();
                    },
                }
            } else if !self.is_end() {
                let d = Diagnostic::expected(self.span(), "a top-level `let` or `use`");
                self.diagnostics.push(d);
                self.skip_until_recovery_point();
            }
            self.skip_trailing_semicolons();
            proof {
                assert(self.diagnostics@.subrange(0, old(self).diagnostics@.len() as int) =~= old(self).diagnostics@) by {
                    assert(diags_before.subrange(0, old(self).diagnostics@.len() as int) == old(self).diagnostics@);
                    assert forall|k: int| 0 <= k < old(self).diagnostics@.len() implies self.diagnostics@[k] == diags_before[k] by {}
                }
                if bindings@.len() > bindings_before.len() && bindings_before.len() >= 1 {
                    assert(bindings@[0] == bindings_before[0]);
                }
                let t = old(self).tokens@;
                if script(t, c) {
                    let b = before as int;
                    assert(script(t, b));
                    if first_let(t, b) {
                        assert(self.current == b + 5);
                        assert(lets(t, b) == seq![b] + lets(t, b + 5));
                        assert(pos + lets(t, b + 5) =~= pos_before + lets(t, b));
                        assert(forall|k: int| 0 <= k < bindings_before.len() ==> bindings@[k] == bindings_before[k]);
                    } else {
                        assert(stray_at(t, b));
                        assert(self.current == b + 2);
                        assert(pos == pos_before);
                    }
                }
            }
        }
        proof {
            if script(old(self).tokens@, c) {
                assert(lets(old(self).tokens@, self.current as int) =~= Seq::<int>::empty());
                assert(pos + lets(old(self).tokens@, self.current as int) =~= pos);
            }
        }
        Ast { module_id: self.module_id, bindings, uses }
    }
}


impl Parser {
    /// From `use`: the module's name, then its path. `use m.a`, `use
    /// m.{a, b}`, `use m.?` and `use m: other` each give one declaration per
    /// name they bring in. Where the module's file is, is left to the caller.
    pub fn parse_use(&mut self, visibility: Visibility) -> (r: DiagnosticResult<Vec<UseDecl>>)
        requires
            old(self).wf(),
            old(self).kind_at() is Use,
        ensures
            steps(old(self), final(self)),
            r is Ok ==> final(self).current > old(self).current,
            old(self).tokens@[old(self).current + 1].kind is Ident ==> (r matches Ok(v) ==> forall|k: int|
                0 <= k < v@.len() ==> (#[trigger] v@[k]).module@ == old(self).tokens@[old(self).current + 1].kind->Ident_0@),
            old(self).tokens@[old(self).current + 1].kind is Ident && !(old(self).tokens@[old(self).current + 2].kind is Dot)
                && !(old(self).tokens@[old(self).current + 2].kind is Colon) ==> (r matches Ok(v) && v@.len() == 1
                && v@[0].alias@ == old(self).tokens@[old(self).current + 1].kind->Ident_0@ && v@[0].module@
                == old(self).tokens@[old(self).current + 1].kind->Ident_0@ && v@[0].use_path@.len() == 0),
        decreases old(self).tokens@.len() - old(self).current, 1nat,
    {
        self.bump();
        let span = self.span();
        let module = match &self.peek().kind {
            TokenKind::Ident(id) => id.clone(),
            _ => {
                return Err(Diagnostic::expected(span, "a module name"));
            },
        };
        self.bump();
        let alias = module.clone();
        let mut path: Vec<(UsePathNode, Span)> = Vec::new();
        self.parse_use_postfix(&module, alias, visibility, span, &mut path)
    }

    /// The rest of a `use` path after `path`, whose last name is `alias`.
    fn parse_use_postfix(
        &mut self,
        module: &String,
        alias: String,
        visibility: Visibility,
        span: Span,
        path: &mut Vec<(UsePathNode, Span)>,
    ) -> (r: DiagnosticResult<Vec<UseDecl>>)
        requires
            old(self).wf(),
        ensures
            steps(old(self), final(self)),
            r matches Ok(v) ==> v@.len() > 0 || final(self).current > old(self).current,
            r matches Ok(v) ==> forall|k: int| 0 <= k < v@.len() ==> (#[trigger] v@[k]).module@ == module@,
            !(old(self).kind_at() is Dot) && !(old(self).kind_at() is Colon) ==> (r matches Ok(v)
                && v@.len() == 1 && v@[0].alias == alias && v@[0].use_path@.len() == old(path)@.len()
                && final(self).current == old(self).current),
            !(old(self).kind_at() is Dot) && old(self).kind_at() is Colon && old(self).tokens@[old(self).current + 1].kind is Ident ==> (r matches Ok(v)
                && v@.len() == 1 && v@[0].alias == old(self).tokens@[old(self).current + 1].kind->Ident_0),
            old(self).kind_at() is Dot && old(self).tokens@[old(self).current + 1].kind is QuestionMark ==> (r matches Ok(v)
                && v@.len() == 1 && v@[0].alias@.len() == 0 && v@[0].use_path@.len() == old(path)@.len() + 1),
        decreases old(self).tokens@.len() - old(self).current, 0nat,
    {
        if !matches!(self.peek().kind, TokenKind::Dot) {
            let alias = if matches!(self.peek().kind, TokenKind::Colon) {
                self.bump();
                match &self.peek().kind {
                    TokenKind::Ident(id) => {
                        let a = id.clone();
                        self.bump();
                        a
                    },
                    _ => {
                        return Err(Diagnostic::expected(self.span(), "an identifier"));
                    },
                }
            } else {
                alias
            };
            let mut decls: Vec<UseDecl> = Vec::new();
            decls.push(UseDecl { module: module.clone(), alias, use_path: path.clone(), visibility, span });
            return Ok(decls);
        }
        self.bump();
        let next_span = self.span();
        match &self.peek().kind {
            TokenKind::Ident(id) => {
                let name = id.clone();
                self.bump();
                path.push((UsePathNode::Symbol(name.clone()), next_span));
                self.parse_use_postfix(module, name, visibility, next_span, path)
            },
            TokenKind::OpenCurly => {
                self.bump();
                let mut decls: Vec<UseDecl> = Vec::new();
                loop
                    invariant
                        steps(old(self), self),
                        self.current > old(self).current,
                        old(self).kind_at() is Dot,
                        old(self).tokens@[old(self).current + 1].kind is OpenCurly,
                        forall|q: int| 0 <= q < decls@.len() ==> (#[trigger] decls@[q]).module@ == module@,
                    decreases self.tokens@.len() - self.current,
                {
                    if matches!(self.peek().kind, TokenKind::CloseCurly) {
                        self.bump();
                        break;
                    }
                    let id_span = self.span();
                    let name = match &self.peek().kind {
                        TokenKind::Ident(id) => id.clone(),
                        _ => {
                            return Err(Diagnostic::expected(id_span, "an identifier"));
                        },
                    };
                    self.bump();
                    let mut local = path.clone();
                    local.push((UsePathNode::Symbol(name.clone()), id_span));
                    let mut more = self.parse_use_postfix(module, name, visibility, id_span, &mut local)?;
                    let ghost d0 = decls@;
                    let ghost m0 = more@;
                    decls.append(&mut more);
                    assert forall|q: int| 0 <= q < decls@.len() implies (#[trigger] decls@[q]).module@ == module@ by {
                        if q < d0.len() {
                            assert(decls@[q] == d0[q]);
                        } else {
                            assert(decls@[q] == m0[q - d0.len()]);
                        }
                    }
                    if matches!(self.peek().kind, TokenKind::Comma) {
                        self.bump();
                    } else if matches!(self.peek().kind, TokenKind::CloseCurly) {
                        self.bump();
                        break;
                    } else {
                        return Err(Diagnostic::expected(self.span(), ", or }"));
                    }
                }
                Ok(decls)
            },
            TokenKind::QuestionMark => {
                self.bump();
                path.push((UsePathNode::Wildcard, next_span));
                let mut decls: Vec<UseDecl> = Vec::new();
                decls.push(
                    UseDecl { module: module.clone(), alias: String::new(), use_path: path.clone(), visibility, span },
                );
                Ok(decls)
            },
            _ => Err(Diagnostic::expected(next_span, "an identifier, { or ?")),
        }
    }
}


impl Parser {
    /// From `[`: a multi-pointer type `[*]T`, a slice type `[]T` or an
    /// array type `[size]T`, each with an optional `mut` where it applies.
    fn parse_array_type(&mut self) -> (r: DiagnosticResult<Expr>)
        requires
            old(self).wf(),
            old(self).kind_at() is OpenBracket,
        ensures
            steps(old(self), final(self)),
            r is Ok ==> final(self).current > old(self).current,
            r matches Ok(e) ==> e is MultiPointerType || e is SliceType || e is ArrayType,
        decreases old(self).tokens@.len() - old(self).current, 0nat,
    {
        let start = self.span();
        self.bump();
        if matches!(self.peek().kind, TokenKind::Star) {
            self.bump();
            let is_mutable = matches!(self.peek().kind, TokenKind::Mut);
            if is_mutable {
                self.bump();
            }
            if !matches!(self.peek().kind, TokenKind::CloseBracket) {
                return Err(Diagnostic::expected(self.span(), "]"));
            }
            self.bump();
            let inner = self.parse_expr()?;
            return Ok(
                Expr::MultiPointerType { inner: Box::new(inner), is_mutable, span: start.to(&self.previous_span()) },
            );
        }
        if matches!(self.peek().kind, TokenKind::CloseBracket) {
            self.bump();
            let is_mutable = matches!(self.peek().kind, TokenKind::Mut);
            if is_mutable {
                self.bump();
            }
            let inner = self.parse_expr()?;
            return Ok(Expr::SliceType { inner: Box::new(inner), is_mutable, span: start.to(&self.previous_span()) });
        }
        let size = self.parse_expr()?;
        if !matches!(self.peek().kind, TokenKind::CloseBracket) {
            return Err(Diagnostic::expected(self.span(), "]"));
        }
        self.bump();
        let inner = self.parse_expr()?;
        Ok(Expr::ArrayType { inner: Box::new(inner), size: Box::new(size), span: start.to(&self.previous_span()) })
    }

    /// From `struct` or `union`: a struct type, `struct(packed)` for a
    /// packed one, with fields `name: type`.
    fn parse_struct_type(&mut self) -> (r: DiagnosticResult<Expr>)
        requires
            old(self).wf(),
            old(self).kind_at() is Struct || old(self).kind_at() is Union,
        ensures
            steps(old(self), final(self)),
            r is Ok ==> final(self).current > old(self).current,
            r matches Ok(e) ==> e is StructType,
        decreases old(self).tokens@.len() - old(self).current, 0nat,
    {
        let start = self.span();
        let is_union = matches!(self.peek().kind, TokenKind::Union);
        self.bump();
        let mut kind = if is_union {
            crate::ty::StructTyKind::Union
        } else {
            crate::ty::StructTyKind::Struct
        };
        if !is_union && matches!(self.peek().kind, TokenKind::OpenParen) {
            self.bump();
            let word = "packed".to_owned();
            let packed = match &self.peek().kind {
                TokenKind::Ident(id) => *id == word,
                _ => false,
            };
            if !packed {
                return Err(Diagnostic::expected(self.span(), "packed"));
            }
            self.bump();
            if !matches!(self.peek().kind, TokenKind::CloseParen) {
                return Err(Diagnostic::expected(self.span(), ")"));
            }
            self.bump();
            kind = crate::ty::StructTyKind::PackedStruct;
        }
        if !matches!(self.peek().kind, TokenKind::OpenCurly) {
            return Err(Diagnostic::expected(self.span(), "{"));
        }
        self.bump();
        let mut fields: Vec<(String, Expr)> = Vec::new();
        loop
            invariant
                steps(old(self), self),
                self.current > old(self).current,
            decreases self.tokens@.len() - self.current,
        {
            if matches!(self.peek().kind, TokenKind::CloseCurly) {
                self.bump();
                break;
            }
            let name = match &self.peek().kind {
                TokenKind::Ident(id) => id.clone(),
                _ => {
                    return Err(Diagnostic::expected(self.span(), "an identifier"));
                },
            };
            self.bump();
            if !matches!(self.peek().kind, TokenKind::Colon) {
                return Err(Diagnostic::expected(self.span(), ":"));
            }
            self.bump();
            let ty = self.parse_expr()?;
            fields.push((name, ty));
            if matches!(self.peek().kind, TokenKind::Comma) {
                self.bump();
            } else if !matches!(self.peek().kind, TokenKind::CloseCurly) {
                return Err(Diagnostic::expected(self.span(), ", or }"));
            }
        }
        Ok(Expr::StructType { kind, fields, span: start.to(&self.previous_span()) })
    }
}


impl Parser {
    /// From `[` after `.`: an array literal `.[a, b]` or `.[value; len]`.
    fn parse_array_literal(&mut self, start: Span) -> (r: DiagnosticResult<Expr>)
        requires
            old(self).wf(),
            old(self).kind_at() is OpenBracket,
        ensures
            steps(old(self), final(self)),
            r is Ok ==> final(self).current > old(self).current,
            r matches Ok(e) ==> e is ArrayLiteral,
        decreases old(self).tokens@.len() - old(self).current, 0nat,
    {
        self.bump();
        let mut elements: Vec<Expr> = Vec::new();
        loop
            invariant
                steps(old(self), self),
                self.current > old(self).current,
            decreases self.tokens@.len() - self.current,
        {
            if matches!(self.peek().kind, TokenKind::CloseBracket) {
                self.bump();
                break;
            }
            if self.is_end() {
                return Err(Diagnostic::expected(self.span(), "]"));
            }
            let e = self.parse_expr()?;
            if elements.len() == 0 && matches!(self.peek().kind, TokenKind::Semicolon) {
                self.bump();
                let len = self.parse_expr()?;
                if !matches!(self.peek().kind, TokenKind::CloseBracket) {
                    return Err(Diagnostic::expected(self.span(), "]"));
                }
                self.bump();
                let mut one: Vec<Expr> = Vec::new();
                one.push(e);
                return Ok(
                    Expr::ArrayLiteral { elements: one, fill_len: Some(Box::new(len)), span: start.to(&self.previous_span()) },
                );
            }
            elements.push(e);
            if matches!(self.peek().kind, TokenKind::Comma) {
                self.bump();
            } else if !matches!(self.peek().kind, TokenKind::CloseBracket) {
                return Err(Diagnostic::expected(self.span(), ", or ]"));
            }
        }
        Ok(Expr::ArrayLiteral { elements, fill_len: None, span: start.to(&self.previous_span()) })
    }

    /// From `for`: `for item, index in start..end { .. }` or `for item in
    /// value { .. }`; the iterator is parsed with struct literals restricted.
    pub fn parse_for(&mut self) -> (r: DiagnosticResult<Expr>)
        requires
            old(self).wf(),
            old(self).kind_at() is For,
        ensures
            steps(old(self), final(self)),
            r is Ok ==> final(self).current > old(self).current,
            r matches Ok(e) ==> e is For,
            old(self).tokens@[old(self).current + 1].kind is Ident && old(self).tokens@[old(self).current + 2].kind is In
                && atom_at(old(self).tokens@, old(self).current + 3, head_restrictions()) && simple_block(
                old(self).tokens@,
                old(self).current + 4,
            ) ==> (r matches Ok(Expr::For { item, index: None, start, end: None, block, .. }) && item
                == old(self).tokens@[old(self).current + 1].kind->Ident_0 && *start == atom(
                old(self).tokens@,
                old(self).current + 3,
            ) && block_holds(*block, atom(old(self).tokens@, old(self).current + 5))),
        decreases old(self).tokens@.len() - old(self).current, 0nat,
    {
        let start = self.span();
        self.bump();
        let item = match &self.peek().kind {
            TokenKind::Ident(id) => id.clone(),
            _ => {
                return Err(Diagnostic::expected(self.span(), "an identifier"));
            },
        };
        self.bump();
        let index = if matches!(self.peek().kind, TokenKind::Comma) {
            self.bump();
            match &self.peek().kind {
                TokenKind::Ident(id) => {
                    let name = id.clone();
                    self.bump();
                    Some(name)
                },
                _ => {
                    return Err(Diagnostic::expected(self.span(), "an identifier"));
                },
            }
        } else {
            None
        };
        if !matches!(self.peek().kind, TokenKind::In) {
            return Err(Diagnostic::expected(self.span(), "in"));
        }
        self.bump();
        let res = Restrictions { no_struct_literal: true, no_cast: false };
        let first = self.parse_expr_with_res(res)?;
        let end = if matches!(self.peek().kind, TokenKind::DotDot) {
            self.bump();
            Some(Box::new(self.parse_expr_with_res(res)?))
        } else {
            None
        };
        if !matches!(self.peek().kind, TokenKind::OpenCurly) {
            return Err(Diagnostic::expected(self.span(), "{"));
        }
        let block = self.parse_block()?;
        Ok(
            Expr::For {
                item,
                index,
                start: Box::new(first),
                end,
                block: Box::new(block),
                span: start.to(&self.previous_span()),
            },
        )
    }
}


/// Whether `s` is `word`.
fn is_word(s: &String, word: &str) -> (r: bool)
    ensures
        r == (s@ == word@),
{
    let w = word.to_owned();
    *s == w
}

impl Parser {
    /// From `@`: a built-in call `@import("path")`, `@lang_item("name")`,
    /// `@size_of(type)`, `@align_of(type)`, `@panic(message?)` or
    /// `@run(expr)`; any other name is an error.
    fn parse_builtin(&mut self) -> (r: DiagnosticResult<Expr>)
        requires
            old(self).wf(),
            old(self).kind_at() is At,
        ensures
            steps(old(self), final(self)),
            r is Ok ==> final(self).current > old(self).current,
            r matches Ok(e) ==> e is Builtin,
        decreases old(self).tokens@.len() - old(self).current, 0nat,
    {
        let start = self.span();
        self.bump();
        let name_span = self.span();
        let name = match &self.peek().kind {
            TokenKind::Ident(id) => id.clone(),
            _ => {
                return Err(Diagnostic::expected(name_span, "an identifier"));
            },
        };
        self.bump();
        if !matches!(self.peek().kind, TokenKind::OpenParen) {
            return Err(Diagnostic::expected(self.span(), "("));
        }
        self.bump();
        let kind = if is_word(&name, "import") || is_word(&name, "lang_item") {
            let text = match &self.peek().kind {
                TokenKind::Str(text) => text.clone(),
                _ => {
                    return Err(Diagnostic::expected(self.span(), "a string"));
                },
            };
            self.bump();
            if is_word(&name, "import") {
                BuiltinKind::Import(text)
            } else {
                BuiltinKind::LangItem(text)
            }
        } else if is_word(&name, "size_of") {
            BuiltinKind::SizeOf(Box::new(self.parse_expr()?))
        } else if is_word(&name, "align_of") {
            BuiltinKind::AlignOf(Box::new(self.parse_expr()?))
        } else if is_word(&name, "run") {
            BuiltinKind::Run(Box::new(self.parse_expr()?))
        } else if is_word(&name, "panic") {
            if matches!(self.peek().kind, TokenKind::CloseParen) {
                BuiltinKind::Panic(None)
            } else {
                BuiltinKind::Panic(Some(Box::new(self.parse_expr()?)))
            }
        } else {
            return Err(Diagnostic::unknown_symbol(name_span, &name));
        };
        if !matches!(self.peek().kind, TokenKind::CloseParen) {
            return Err(Diagnostic::expected(self.span(), ")"));
        }
        self.bump();
        Ok(Expr::Builtin { kind, span: start.to(&self.previous_span()) })
    }
}


impl Parser {
    /// From `fn`: a function type `fn(T, U) -> R`, whose parameter list may
    /// end with `..`; without `-> R` the function returns nothing.
    fn parse_fn_type(&mut self) -> (r: DiagnosticResult<Expr>)
        requires
            old(self).wf(),
            old(self).kind_at() is Fn,
        ensures
            steps(old(self), final(self)),
            r is Ok ==> final(self).current > old(self).current,
            r matches Ok(e) ==> e is FnType || e is Function,
            r matches Ok(e) ==> (e matches Expr::Function { body, .. } ==> (*body) is Block),
        decreases old(self).tokens@.len() - old(self).current, 0nat,
    {
        let start = self.span();
        self.bump();
        if !matches!(self.peek().kind, TokenKind::OpenParen) {
            return Err(Diagnostic::expected(self.span(), "("));
        }
        self.bump();
        let mut params: Vec<(Option<String>, Expr)> = Vec::new();
        let mut variadic = false;
        loop
            invariant
                steps(old(self), self),
                self.current > old(self).current,
            decreases self.tokens@.len() - self.current,
        {
            if matches!(self.peek().kind, TokenKind::CloseParen) {
                self.bump();
                break;
            }
            if matches!(self.peek().kind, TokenKind::DotDot) {
                self.bump();
                variadic = true;
                if !matches!(self.peek().kind, TokenKind::CloseParen) {
                    return Err(Diagnostic::expected(self.span(), ")"));
                }
                self.bump();
                break;
            }
            if self.is_end() {
                return Err(Diagnostic::expected(self.span(), ")"));
            }
            let named = match &self.peek().kind {
                TokenKind::Ident(_) => self.next_is_colon(),
                _ => false,
            };
            let name = if named {
                let n = match &self.peek().kind {
                    TokenKind::Ident(id) => Some(id.clone()),
                    _ => None,
                };
                self.bump();
                self.bump();
                n
            } else {
                None
            };
            let p = self.parse_expr()?;
            params.push((name, p));
            if matches!(self.peek().kind, TokenKind::Comma) {
                self.bump();
            } else if !matches!(self.peek().kind, TokenKind::CloseParen) {
                return Err(Diagnostic::expected(self.span(), ", or )"));
            }
        }
        let ret = if matches!(self.peek().kind, TokenKind::RightArrow) {
            self.bump();
            Some(Box::new(self.parse_expr()?))
        } else {
            None
        };
        if matches!(self.peek().kind, TokenKind::OpenCurly) {
            let body = self.parse_block()?;
            return Ok(Expr::Function { params, ret, variadic, body: Box::new(body), span: start.to(&self.previous_span()) });
        }
        Ok(Expr::FnType { params, ret, variadic, span: start.to(&self.previous_span()) })
    }
}


impl Parser {
    /// From `fn` after `expr`: a function literal passed as the last
    /// argument, appended to `expr`'s arguments when `expr` is a call
    /// (`map(x) fn(a) {..}`), else the only argument of a call of `expr`
    /// (`map fn(a) {..}`).
    fn parse_trailing_fn(&mut self, expr: Expr) -> (r: DiagnosticResult<Expr>)
        requires
            old(self).wf(),
            old(self).kind_at() is Fn,
        ensures
            steps(old(self), final(self)),
            r is Ok ==> final(self).current > old(self).current,
            r matches Ok(e) ==> e is Call,
            r matches Ok(e) ==> (expr is Call ==> e->Call_callee == expr->Call_callee
                && e->Call_args@.len() == expr->Call_args@.len() + 1 && e->Call_args@.drop_last()
                == expr->Call_args@),
            r matches Ok(e) ==> (!(expr is Call) ==> *e->Call_callee == expr && e->Call_args@.len() == 1),
            r matches Ok(e) ==> (e->Call_args@.last().name is None && (e->Call_args@.last().value is FnType
                || e->Call_args@.last().value is Function)),
        decreases old(self).tokens@.len() - old(self).current, 1nat,
    {
        let f = self.parse_fn_type()?;
        match expr {
            Expr::Call { callee, mut args, span } => {
                let ghost before = args@;
                args.push(CallArg { name: None, value: f });
                assert(args@.drop_last() =~= before);
                let span = span.to(&self.previous_span());
                Ok(Expr::Call { callee, args, span })
            },
            other => {
                let span = other.span().to(&self.previous_span());
                let mut args: Vec<CallArg> = Vec::new();
                args.push(CallArg { name: None, value: f });
                Ok(Expr::Call { callee: Box::new(other), args, span })
            },
        }
    }
}

} // verus!
