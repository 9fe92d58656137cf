use vstd::prelude::*;

use crate::span::Span;

verus! {

/// The id that no binding has: a pattern's id before the binder fills it in.
pub const UNRESOLVED_ID: usize = usize::MAX;

#[derive(Debug, Clone, Copy, PartialEq, Eq, Structural)]
pub enum Visibility {
    Private,
    Public,
}

impl Visibility {
    pub fn default() -> (r: Visibility)
        ensures
            r == Visibility::Private,
    {
        Visibility::Private
    }
}

/// What a name is bound to.
#[derive(Debug, Clone, Copy, PartialEq, Eq, Structural)]
pub enum BindingKind {
    Value,
    Type,
    Import,
    Param,
}

/// A single name, perhaps renamed by `alias`.
#[derive(Debug)]
pub struct SymbolPattern {
    pub symbol: String,
    pub alias: Option<String>,
    pub is_mutable: bool,
    pub span: Span,
    pub binding_info_id: usize,
}

/// The names of a `{a, b}` or `(a, b)` pattern.
#[derive(Debug)]
pub struct UnpackPattern {
    pub symbols: Vec<SymbolPattern>,
    pub span: Span,
}

#[derive(Debug)]
pub enum Pattern {
    Symbol(SymbolPattern),
    StructUnpack(UnpackPattern),
    TupleUnpack(UnpackPattern),
}

impl SymbolPattern {
    pub fn new(symbol: String, is_mutable: bool, span: Span) -> (r: SymbolPattern)
        ensures
            r.symbol == symbol,
            r.alias is None,
            r.is_mutable == is_mutable,
            r.span == span,
            r.binding_info_id == UNRESOLVED_ID,
    {
        SymbolPattern { symbol, alias: None, is_mutable, span, binding_info_id: UNRESOLVED_ID }
    }

    /// The name the pattern binds: the alias if there is one.
    pub open spec fn bound_name(&self) -> Seq<char> {
        match self.alias {
            Some(a) => a@,
            None => self.symbol@,
        }
    }

    pub fn name(&self) -> (r: String)
        ensures
            r@ == self.bound_name(),
    {
        match &self.alias {
            Some(a) => a.clone(),
            None => self.symbol.clone(),
        }
    }
}

} // verus!
