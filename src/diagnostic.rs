use vstd::prelude::*;

use crate::display::DisplayTy;
use crate::span::Span;
use crate::text::push_str;
use crate::ty::TyKind;
use crate::tycx::TyContext;
use crate::unify::{UnifyError, UnifyResult};

verus! {

#[derive(Debug, Clone, Copy, PartialEq, Eq, Structural)]
pub enum DiagnosticKind {
    /// A token that the grammar does not allow where it stands.
    Syntax,
    /// A name declared twice in one module's global scope.
    DuplicateSymbol,
    /// Two types that cannot be made equal.
    Mismatch,
    /// A type that would have to contain itself.
    Occurs,
    /// A handle or binding that was never resolved: a fault of the compiler.
    Internal,
    /// A name that the module it is taken from does not declare.
    UnknownSymbol,
    /// A binding read before it surely holds a value.
    UseBeforeInit,
    /// A second assignment to an immutable binding.
    AssignToImmutable,
    /// A value used where a type is needed.
    ExpectedType,
}

/// A span with a note on what it shows.
#[derive(Debug)]
pub struct Label {
    pub span: Span,
    pub message: String,
}

/// One error report: what went wrong, the primary label first.
#[derive(Debug)]
pub struct Diagnostic {
    pub kind: DiagnosticKind,
    pub message: String,
    pub labels: Vec<Label>,
}

pub type DiagnosticResult<T> = Result<T, Diagnostic>;

/// The text of a type-mismatch message.
pub open spec fn mismatch_text(expected: Seq<char>, found: Seq<char>) -> Seq<char> {
    "mismatched types - expected "@ + expected + ", but found "@ + found
}

/// The text of an infinite-type message.
pub open spec fn occurs_text(expected: Seq<char>, found: Seq<char>) -> Seq<char> {
    "found recursive type - "@ + expected + " is equal to "@ + found
}

pub open spec fn duplicate_text(symbol: Seq<char>) -> Seq<char> {
    "duplicate symbol `"@ + symbol + "`"@
}

pub open spec fn uninit_text(symbol: Seq<char>) -> Seq<char> {
    "use of possibly uninitialized value `"@ + symbol + "`"@
}

pub open spec fn assign_twice_text(symbol: Seq<char>) -> Seq<char> {
    "cannot assign twice to immutable variable `"@ + symbol + "`"@
}

pub open spec fn expected_text(what: Seq<char>) -> Seq<char> {
    "expected "@ + what
}

impl Diagnostic {
    /// A report with one label.
    pub fn new(kind: DiagnosticKind, message: String, span: Span, note: String) -> (r: Diagnostic)
        ensures
            r.kind == kind,
            r.message@ == message@,
            r.labels@.len() == 1,
            r.labels@[0].span == span,
            r.labels@[0].message@ == note@,
    {
        let mut labels: Vec<Label> = Vec::new();
        labels.push(Label { span, message: note });
        Diagnostic { kind, message, labels }
    }

    /// `symbol` declared at `span` after it was declared at `first`.
    pub fn duplicate_symbol(first: Span, span: Span, symbol: &String) -> (r: Diagnostic)
        ensures
            r.kind == DiagnosticKind::DuplicateSymbol,
            r.message@ == duplicate_text(symbol@),
            r.labels@.len() == 2,
            r.labels@[0].span == span,
            r.labels@[1].span == first,
    {
        let mut message = String::new();
        push_str(&mut message, "duplicate symbol `");
        push_str(&mut message, symbol.as_str());
        push_str(&mut message, "`");
        let mut labels: Vec<Label> = Vec::new();
        let mut note = String::new();
        push_str(&mut note, "redefined here");
        labels.push(Label { span, message: note });
        let mut note = String::new();
        push_str(&mut note, "first defined here");
        labels.push(Label { span: first, message: note });
        assert(message@ =~= duplicate_text(symbol@));
        Diagnostic { kind: DiagnosticKind::DuplicateSymbol, message, labels }
    }

    /// `symbol` is not declared where it is looked for.
    pub fn unknown_symbol(span: Span, symbol: &String) -> (r: Diagnostic)
        ensures
            r.kind == DiagnosticKind::UnknownSymbol,
            r.labels@.len() == 1,
            r.labels@[0].span == span,
    {
        let mut message = String::new();
        push_str(&mut message, "unknown symbol `");
        push_str(&mut message, symbol.as_str());
        push_str(&mut message, "`");
        let note = message.clone();
        Diagnostic::new(DiagnosticKind::UnknownSymbol, message, span, note)
    }

    /// The type context has run out of handles: a limit of the compiler.
    pub fn too_many_variables(span: Span) -> (r: Diagnostic)
        ensures
            r.kind == DiagnosticKind::Internal,
            r.labels@.len() == 1,
            r.labels@[0].span == span,
    {
        let mut message = String::new();
        push_str(&mut message, "too many type variables in one session");
        let note = message.clone();
        Diagnostic::new(DiagnosticKind::Internal, message, span, note)
    }

    /// A report of `kind` whose message is `message`, shown at `span`, with
    /// a second label at `defined`, where the binding was declared.
    pub fn with_definition(kind: DiagnosticKind, message: String, span: Span, defined: Span) -> (r: Diagnostic)
        ensures
            r.kind == kind,
            r.message@ == message@,
            r.labels@.len() == 2,
            r.labels@[0].span == span,
            r.labels@[1].span == defined,
    {
        let note = message.clone();
        let mut labels: Vec<Label> = Vec::new();
        labels.push(Label { span, message: note });
        let mut here = String::new();
        push_str(&mut here, "defined here");
        labels.push(Label { span: defined, message: here });
        Diagnostic { kind, message, labels }
    }

    /// "expected `what`" at `span`.
    pub fn expected(span: Span, what: &str) -> (r: Diagnostic)
        ensures
            r.kind == DiagnosticKind::Syntax,
            r.message@ == expected_text(what@),
            r.labels@.len() == 1,
            r.labels@[0].span == span,
    {
        let mut message = String::new();
        push_str(&mut message, "expected ");
        push_str(&mut message, what);
        let note = message.clone();
        assert(message@ =~= expected_text(what@));
        Diagnostic::new(DiagnosticKind::Syntax, message, span, note)
    }
}

/// Turns a failed unification of `expected` with `found` into a report at
/// `span` that shows both types as the context knows them, with a second
/// label at `origin`, where the expected type comes from, if that is known.
pub fn or_report_err(
    res: UnifyResult,
    cx: &TyContext,
    expected: &TyKind,
    found: &TyKind,
    span: Span,
    origin: Option<Span>,
) -> (r: DiagnosticResult<()>)
    ensures
        r is Ok <==> res is Ok,
        res matches Err(e) ==> r matches Err(d) && d.labels@.len() == (if origin is Some {
            2int
        } else {
            1int
        }) && d.labels@[0].span == span && d.labels@[0].message@ == expected_text(
            expected.shown(cx),
        ) && (origin matches Some(o) ==> d.labels@[1].span == o) && match e {
            UnifyError::Mismatch => d.kind == DiagnosticKind::Mismatch && d.message@
                == mismatch_text(expected.shown(cx), found.shown(cx)),
            UnifyError::Occurs => d.kind == DiagnosticKind::Occurs && d.message@ == occurs_text(
                expected.shown(cx),
                found.shown(cx),
            ),
            UnifyError::Unresolved => d.kind == DiagnosticKind::Internal,
        },
{
    match res {
        Ok(()) => Ok(()),
        Err(e) => {
            let exp = expected.display(cx);
            let fnd = found.display(cx);
            let mut note = String::new();
            push_str(&mut note, "expected ");
            push_str(&mut note, exp.as_str());
            assert(note@ =~= expected_text(expected.shown(cx)));
            let mut message = String::new();
            let kind = match e {
                UnifyError::Mismatch => {
                    push_str(&mut message, "mismatched types - expected ");
                    push_str(&mut message, exp.as_str());
                    push_str(&mut message, ", but found ");
                    push_str(&mut message, fnd.as_str());
                    assert(message@ =~= mismatch_text(expected.shown(cx), found.shown(cx)));
                    DiagnosticKind::Mismatch
                },
                UnifyError::Occurs => {
                    push_str(&mut message, "found recursive type - ");
                    push_str(&mut message, exp.as_str());
                    push_str(&mut message, " is equal to ");
                    push_str(&mut message, fnd.as_str());
                    assert(message@ =~= occurs_text(expected.shown(cx), found.shown(cx)));
                    DiagnosticKind::Occurs
                },
                UnifyError::Unresolved => {
                    push_str(&mut message, "a type variable was used before it was resolved");
                    DiagnosticKind::Internal
                },
            };
            let mut d = Diagnostic::new(kind, message, span, note);
            if let Some(o) = origin {
                let mut here = String::new();
                push_str(&mut here, "expected because of this");
                d.labels.push(Label { span: o, message: here });
            }
            Err(d)
        },
    }
}

} // verus!
