use vstd::prelude::*;

use crate::ast::{Ast, Expr, LiteralKind};
use crate::bind::{global_id, lemma_global_id_other, lemma_global_id_push, CheckSess, ConstValue, Env};
use crate::diagnostic::{
    mismatch_text, or_report_err, Diagnostic, DiagnosticKind, DiagnosticResult,
};
use crate::display::DisplayTy;
use crate::pattern::{BindingKind, Pattern, Visibility};
use crate::span::Span;
use crate::ty::TyKind;
use crate::tycx::TyContext;
use crate::unify::{unify, UnifyError};

verus! {

/// The number of names a pattern binds.
pub open spec fn pattern_size(p: Pattern) -> nat {
    match p {
        Pattern::Symbol(_) => 0,
        Pattern::StructUnpack(u) => u.symbols@.len(),
        Pattern::TupleUnpack(u) => u.symbols@.len(),
    }
}

fn pattern_len(p: &Pattern) -> (r: usize)
    ensures
        r == pattern_size(*p),
{
    match p {
        Pattern::Symbol(_) => 0,
        Pattern::StructUnpack(u) => u.symbols.len(),
        Pattern::TupleUnpack(u) => u.symbols.len(),
    }
}

/// Checks that a function body whose value has type `body` may be returned
/// from a function declared to return `declared`; a failure is reported at
/// the span of the body's value, shows both types, and points at the
/// declared return type at `ret_span` when that is given.
pub fn check_return_type(
    cx: &mut TyContext,
    declared: &TyKind,
    body: &TyKind,
    body_span: Span,
    ret_span: Option<Span>,
) -> (r: DiagnosticResult<()>)
    requires
        old(cx).wf(),
    ensures
        final(cx).wf(),
        final(cx)@ == unify(old(cx)@, declared@, body@, old(cx)@.len()).1,
        r is Ok <==> unify(old(cx)@, declared@, body@, old(cx)@.len()).0 is Ok,
        unify(old(cx)@, declared@, body@, old(cx)@.len()).0 == Err::<(), UnifyError>(
            UnifyError::Mismatch,
        ) ==> (r matches Err(d) && d.kind == DiagnosticKind::Mismatch && d.labels@[0].span
            == body_span && (ret_span matches Some(s) ==> d.labels@.len() == 2 && d.labels@[1].span
            == s) && d.message@ == mismatch_text(
            declared.shown(&*final(cx)),
            body.shown(&*final(cx)),
        )),
{
    let res = declared.unify(body, cx);
    or_report_err(res, cx, declared, body, body_span, ret_span)
}

/// The name a top-level `let` of a single name binds.
pub open spec fn let_name(e: Expr) -> Option<Seq<char>> {
    match e {
        Expr::Binding { pattern: Pattern::Symbol(p), .. } => Some(p.bound_name()),
        _ => None,
    }
}

/// Where the name of a top-level `let` of a single name is written.
pub open spec fn let_span(e: Expr) -> Span {
    match e {
        Expr::Binding { pattern: Pattern::Symbol(p), .. } => p.span,
        _ => Span::unknown_span(),
    }
}

/// `d` reports statement `i` of `bs` for repeating a name whose binding in
/// module `m` of `sess` was made first: it shows the repeated name, then
/// the first one.
pub open spec fn reports_repeat(d: Diagnostic, bs: Seq<Expr>, i: int, sess: &CheckSess, m: usize) -> bool {
    &&& d.labels@.len() == 2
    &&& d.labels@[0].span == let_span(bs[i])
    &&& d.labels@[1].span == sess.bindings@[global_id(sess.globals@, m, let_name(bs[i])->0)->0 as int].span
}

/// Whether every statement is a `let` of a single name.
pub open spec fn all_symbol_lets(bs: Seq<Expr>) -> bool {
    forall|i: int| 0 <= i < bs.len() ==> (#[trigger] let_name(bs[i])) is Some
}

/// Whether the name of statement `i` is bound before it: in module `m`
/// already, or by an earlier statement.
pub open spec fn bound_before(g: Seq<(usize, String, usize)>, m: usize, bs: Seq<Expr>, i: int) -> bool {
    global_id(g, m, let_name(bs[i])->0) is Some || exists|j: int| 0 <= j < i && let_name(bs[j]) == let_name(bs[i])
}

/// How many of the first `k` statements repeat a name bound before them.
pub open spec fn repeats(g: Seq<(usize, String, usize)>, m: usize, bs: Seq<Expr>, k: int) -> nat
    decreases k,
{
    if k <= 0 {
        0
    } else {
        repeats(g, m, bs, k - 1) + if bound_before(g, m, bs, k - 1) {
            1nat
        } else {
            0nat
        }
    }
}

pub proof fn lemma_repeats_grow(g: Seq<(usize, String, usize)>, m: usize, bs: Seq<Expr>, a: int, b: int)
    requires
        0 <= a <= b,
    ensures
        repeats(g, m, bs, a) <= repeats(g, m, bs, b),
    decreases b - a,
{
    if a < b {
        lemma_repeats_grow(g, m, bs, a, b - 1);
    }
}

/// Binds the top-level `let` of every statement of `ast` in its module,
/// collecting one report per failed binding. Every statement stays in the
/// tree, whether it bound or not.
pub fn check_module(sess: &mut CheckSess, ast: &mut Ast) -> (r: Vec<Diagnostic>)
    requires
        old(sess).wf(),
    ensures
        final(sess).wf(),
        final(ast).bindings@.len() == old(ast).bindings@.len(),
        final(ast).module_id == old(ast).module_id,
        r@.len() <= old(ast).bindings@.len(),
        all_symbol_lets(old(ast).bindings@) && old(sess).tycx@.len() + 2 * old(ast).bindings@.len() + 4
            < usize::MAX ==> {
            &&& r@.len() == repeats(
                old(sess).globals@,
                old(ast).module_id,
                old(ast).bindings@,
                old(ast).bindings@.len() as int,
            )
            &&& forall|k: int| 0 <= k < r@.len() ==> (#[trigger] r@[k]).kind == DiagnosticKind::DuplicateSymbol
            &&& forall|i: int|
                0 <= i < old(ast).bindings@.len() && bound_before(old(sess).globals@, old(ast).module_id, old(ast).bindings@, i) ==> reports_repeat(
                    r@[repeats(old(sess).globals@, old(ast).module_id, old(ast).bindings@, i) as int],
                    old(ast).bindings@,
                    i,
                    &*final(sess),
                    old(ast).module_id,
                )
            &&& forall|i: int|
                0 <= i < old(ast).bindings@.len() ==> global_id(
                    final(sess).globals@,
                    old(ast).module_id,
                    (#[trigger] let_name(old(ast).bindings@[i]))->0,
                ) is Some
        },
{
    let mut diagnostics: Vec<Diagnostic> = Vec::new();
    let mut env = Env::new(ast.module_id);
    let n = ast.bindings.len();
    let mut i: usize = 0;
    while i < n
        invariant
            sess.wf(),
            i <= n,
            n == ast.bindings@.len(),
            n == old(ast).bindings@.len(),
            ast.module_id == old(ast).module_id,
            env.module_id == ast.module_id,
            env.scopes@.len() == 0,
            diagnostics@.len() <= i,
            forall|j: int| 0 <= j < n ==> #[trigger] let_name(ast.bindings@[j]) == let_name(old(ast).bindings@[j]),
            forall|j: int| 0 <= j < n ==> #[trigger] let_span(ast.bindings@[j]) == let_span(old(ast).bindings@[j]),
            all_symbol_lets(old(ast).bindings@) && old(sess).tycx@.len() + 2 * n + 4 < usize::MAX ==> {
                &&& sess.tycx@.len() <= old(sess).tycx@.len() + 2 * i
                &&& diagnostics@.len() == repeats(old(sess).globals@, old(ast).module_id, old(ast).bindings@, i as int)
                &&& forall|k: int| 0 <= k < diagnostics@.len() ==> (#[trigger] diagnostics@[k]).kind == DiagnosticKind::DuplicateSymbol
                &&& forall|i2: int| 0 <= i2 < i && bound_before(old(sess).globals@, old(ast).module_id, old(ast).bindings@, i2) ==> reports_repeat(
                    diagnostics@[repeats(old(sess).globals@, old(ast).module_id, old(ast).bindings@, i2) as int],
                    old(ast).bindings@,
                    i2,
                    &*sess,
                    old(ast).module_id,
                )
                &&& forall|nm: Seq<char>| #[trigger] global_id(sess.globals@, old(ast).module_id, nm) is Some <==> (global_id(
                    old(sess).globals@,
                    old(ast).module_id,
                    nm,
                ) is Some || exists|j: int| 0 <= j < i && let_name(old(ast).bindings@[j]) == Some(nm))
            },
        decreases n - i,
    {
        let ghost g_before = sess.globals@;
        let ghost d_before = diagnostics@;
        let ghost b_before = ast.bindings@;
        let ghost sb_before = sess.bindings@;
        let e = ast.bindings.remove(i);
        let ghost e_old = e;
        let e2 = match e {
            Expr::Binding { mut pattern, value, span } => {
                let ghost p_old = pattern;
                let size = pattern_len(&pattern);
                if sess.tycx.len() < usize::MAX - 3 && size < usize::MAX - 3 - sess.tycx.len() {
                    let (kind, const_value) = match &value {
                        Some(v) => match &**v {
                            Expr::Literal { kind: LiteralKind::Int(x), span: s } => (
                                sess.tycx.anyint(*s),
                                Some(ConstValue::UInt(*x)),
                            ),
                            Expr::Literal { kind: LiteralKind::Bool(b), .. } => (
                                TyKind::Bool,
                                Some(ConstValue::Bool(*b)),
                            ),
                            _ => (TyKind::Var(sess.tycx.var(span)), None),
                        },
                        None => (TyKind::Var(sess.tycx.var(span)), None),
                    };
                    let ty = sess.tycx.bound(kind, span);
                    let r = sess.bind_pattern(
                        &mut env,
                        &mut pattern,
                        Visibility::Private,
                        ty,
                        const_value,
                        BindingKind::Value,
                    );
                    proof {
                        if let Pattern::Symbol(q) = p_old {
                            assert(r is Err <==> global_id(g_before, ast.module_id, q.bound_name()) is Some);
                        }
                    }
                    if let Err(d) = r {
                        diagnostics.push(d);
                        proof {
                            if let Pattern::Symbol(q) = p_old {
                                assert(e_old == b_before[i as int]);
                                assert(let_span(b_before[i as int]) == let_span(old(ast).bindings@[i as int]));
                                assert(let_name(b_before[i as int]) == let_name(old(ast).bindings@[i as int]));
                                assert(reports_repeat(diagnostics@[d_before.len() as int], old(ast).bindings@, i as int, &*sess, old(ast).module_id));
                            }
                        }
                    }
                } else {
                    diagnostics.push(Diagnostic::too_many_variables(span));
                }
                assert(let_name(Expr::Binding { pattern, value, span }) == let_name(e_old)
                    && let_span(Expr::Binding { pattern, value, span }) == let_span(e_old)) by {
                    if let Pattern::Symbol(q) = p_old {
                        assert(let_name(e_old) == Some(q.bound_name()));
                    }
                }
                Expr::Binding { pattern, value, span }
            },
            other => other,
        };
        assert(let_name(e2) == let_name(e_old));
        assert(let_span(e2) == let_span(e_old));
        ast.bindings.insert(i, e2);
        proof {
            assert forall|j: int| 0 <= j < n && j != i implies #[trigger] ast.bindings@[j] == b_before[j] by {}
            assert(ast.bindings@[i as int] == e2);
            if all_symbol_lets(old(ast).bindings@) && old(sess).tycx@.len() + 2 * n + 4 < usize::MAX {
                let nm_i = let_name(old(ast).bindings@[i as int])->0;
                assert(let_name(old(ast).bindings@[i as int]) is Some);
                assert(let_name(b_before[i as int]) == let_name(old(ast).bindings@[i as int]));
                assert(e_old == b_before[i as int]);
                assert(diagnostics@.len() == d_before.len() + (if global_id(g_before, old(ast).module_id, nm_i) is Some { 1int } else { 0int }));
                assert(global_id(g_before, old(ast).module_id, nm_i) is Some ==> sess.globals@ == g_before);
                assert(!(global_id(g_before, old(ast).module_id, nm_i) is Some) ==> sess.globals@.len() == g_before.len() + 1 && sess.globals@.drop_last() == g_before && sess.globals@.last().0 == old(ast).module_id && sess.globals@.last().1@ == nm_i);
                assert forall|k: int| 0 <= k < diagnostics@.len() implies (#[trigger] diagnostics@[k]).kind == DiagnosticKind::DuplicateSymbol by {
                    if k < d_before.len() {
                        assert(diagnostics@[k] == d_before[k]);
                    }
                }
                assert(sess.bindings@.len() >= sb_before.len());
                assert(forall|k: int| 0 <= k < sb_before.len() ==> #[trigger] sess.bindings@[k] == sb_before[k]);
                assert forall|nm: Seq<char>| global_id(g_before, old(ast).module_id, nm) is Some implies #[trigger] global_id(sess.globals@, old(ast).module_id, nm) == global_id(g_before, old(ast).module_id, nm) by {
                    if sess.globals@.len() > g_before.len() {
                        assert(sess.globals@ == g_before.push(sess.globals@.last()));
                        if nm != nm_i {
                            lemma_global_id_other(g_before, sess.globals@.last(), old(ast).module_id, nm);
                        }
                    }
                }
                assert(bound_before(old(sess).globals@, old(ast).module_id, old(ast).bindings@, i as int)
                    == (global_id(g_before, old(ast).module_id, nm_i) is Some)) by {
                    if global_id(g_before, old(ast).module_id, nm_i) is Some {
                        if !(global_id(old(sess).globals@, old(ast).module_id, nm_i) is Some) {
                            let j = choose|j: int| 0 <= j < i && let_name(old(ast).bindings@[j]) == Some(nm_i);
                            assert(let_name(old(ast).bindings@[j]) == let_name(old(ast).bindings@[i as int]));
                        }
                    }
                }
                assert forall|i2: int| 0 <= i2 < i + 1 && bound_before(old(sess).globals@, old(ast).module_id, old(ast).bindings@, i2) implies reports_repeat(
                    diagnostics@[repeats(old(sess).globals@, old(ast).module_id, old(ast).bindings@, i2) as int],
                    old(ast).bindings@,
                    i2,
                    &*sess,
                    old(ast).module_id,
                ) by {
                    if i2 < i {
                        lemma_repeats_grow(old(sess).globals@, old(ast).module_id, old(ast).bindings@, i2 + 1, i as int);
                        let k = repeats(old(sess).globals@, old(ast).module_id, old(ast).bindings@, i2) as int;
                        assert(diagnostics@[k] == d_before[k]);
                        let nm2 = let_name(old(ast).bindings@[i2])->0;
                        assert(let_name(old(ast).bindings@[i2]) is Some);
                        assert(global_id(g_before, old(ast).module_id, nm2) is Some) by {
                            if !(global_id(old(sess).globals@, old(ast).module_id, nm2) is Some) {
                                let j = choose|j: int| 0 <= j < i2 && let_name(old(ast).bindings@[j]) == let_name(old(ast).bindings@[i2]);
                                assert(exists|j2: int| 0 <= j2 < i && let_name(old(ast).bindings@[j2]) == Some(nm2));
                            }
                        }
                        assert(global_id(sess.globals@, old(ast).module_id, nm2) == global_id(g_before, old(ast).module_id, nm2));
                        let id = global_id(g_before, old(ast).module_id, nm2)->0;
                        let w = choose|w: int| 0 <= w < g_before.len() && g_before[w].0 == old(ast).module_id && g_before[w].1@ == nm2;
                        assert(g_before[w].2 < sb_before.len());
                        assert(sess.bindings@[id as int] == sb_before[id as int]);
                    }
                }
                if sess.globals@.len() > g_before.len() {
                    assert(sess.globals@ == g_before.push(sess.globals@.last()));
                    assert forall|nm: Seq<char>| #[trigger] global_id(sess.globals@, old(ast).module_id, nm) is Some <==> (global_id(
                        old(sess).globals@,
                        old(ast).module_id,
                        nm,
                    ) is Some || exists|j: int| 0 <= j < i + 1 && let_name(old(ast).bindings@[j]) == Some(nm)) by {
                        lemma_global_id_push(g_before, sess.globals@.last(), old(ast).module_id, nm);
                        if let_name(old(ast).bindings@[i as int]) == Some(nm) {
                            assert(exists|j: int| 0 <= j < i + 1 && let_name(old(ast).bindings@[j]) == Some(nm));
                        }
                        if exists|j: int| 0 <= j < i + 1 && let_name(old(ast).bindings@[j]) == Some(nm) {
                            let j = choose|j: int| 0 <= j < i + 1 && let_name(old(ast).bindings@[j]) == Some(nm);
                            if j < i {
                                assert(exists|j2: int| 0 <= j2 < i && let_name(old(ast).bindings@[j2]) == Some(nm));
                            }
                        }
                    }
                } else {
                    assert forall|nm: Seq<char>| #[trigger] global_id(sess.globals@, old(ast).module_id, nm) is Some <==> (global_id(
                        old(sess).globals@,
                        old(ast).module_id,
                        nm,
                    ) is Some || exists|j: int| 0 <= j < i + 1 && let_name(old(ast).bindings@[j]) == Some(nm)) by {
                        if let_name(old(ast).bindings@[i as int]) == Some(nm) {
                            assert(global_id(g_before, old(ast).module_id, nm) is Some);
                        }
                        if exists|j: int| 0 <= j < i + 1 && let_name(old(ast).bindings@[j]) == Some(nm) {
                            let j = choose|j: int| 0 <= j < i + 1 && let_name(old(ast).bindings@[j]) == Some(nm);
                            if j < i {
                                assert(exists|j2: int| 0 <= j2 < i && let_name(old(ast).bindings@[j2]) == Some(nm));
                            }
                        }
                    }
                }
            }
        }
        i += 1;
    }
    proof {
        if all_symbol_lets(old(ast).bindings@) && old(sess).tycx@.len() + 2 * n + 4 < usize::MAX {
            assert forall|i: int| 0 <= i < n implies global_id(
                sess.globals@,
                old(ast).module_id,
                (#[trigger] let_name(old(ast).bindings@[i]))->0,
            ) is Some by {
                assert(let_name(old(ast).bindings@[i]) is Some);
                assert(exists|j: int| 0 <= j < n && let_name(old(ast).bindings@[j]) == Some(let_name(old(ast).bindings@[i])->0));
            }
        }
    }
    diagnostics
}

} // verus!
