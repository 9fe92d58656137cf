use vstd::prelude::*;

use crate::diagnostic::{or_report_err, Diagnostic, DiagnosticKind, DiagnosticResult, duplicate_text};
use crate::pattern::{BindingKind, Pattern, SymbolPattern, UnpackPattern, Visibility};
use crate::span::Span;
use crate::ty::{named_of, shapes_of, PartialStructTy, Shape, Ty, TyKind};
use crate::tycx::{Bindings, TyContext};
use crate::unify::unify;

verus! {

/// A value known while compiling.
#[derive(Debug)]
pub enum ConstValue {
    Unit,
    Bool(bool),
    Int(i64),
    UInt(u64),
    Str(String),
    Tuple(Vec<ConstValue>),
    Struct(Vec<(String, ConstValue)>),
}

/// Everything known of one declared name.
#[derive(Debug)]
pub struct BindingInfo {
    pub module_id: usize,
    pub symbol: String,
    pub visibility: Visibility,
    pub ty: Ty,
    pub const_value: Option<ConstValue>,
    pub is_mutable: bool,
    pub kind: BindingKind,
    /// 0 at a module's top level, else the depth of the local scope.
    pub scope_level: usize,
    /// The binding this one re-exports, which holds its constant value.
    pub redirect: Option<usize>,
    pub span: Span,
}

/// One local scope: its names in the order they were bound.
#[derive(Debug)]
pub struct Scope {
    pub name: String,
    pub symbols: Vec<(String, usize)>,
}

/// Where binding happens: a module, and the local scopes open in it
/// (none at the module's top level).
#[derive(Debug)]
pub struct Env {
    pub module_id: usize,
    pub scopes: Vec<Scope>,
}

/// The latest binding of `sym` among `entries`.
pub open spec fn lookup_in(entries: Seq<(String, usize)>, sym: Seq<char>) -> Option<usize>
    decreases entries.len(),
{
    if entries.len() == 0 {
        None
    } else if entries.last().0@ == sym {
        Some(entries.last().1)
    } else {
        lookup_in(entries.drop_last(), sym)
    }
}

/// The binding of `sym` in the innermost of `scopes` that binds it.
pub open spec fn lookup_scopes(scopes: Seq<Scope>, sym: Seq<char>) -> Option<usize>
    decreases scopes.len(),
{
    if scopes.len() == 0 {
        None
    } else {
        match lookup_in(scopes.last().symbols@, sym) {
            Some(id) => Some(id),
            None => lookup_scopes(scopes.drop_last(), sym),
        }
    }
}

impl Env {
    pub fn new(module_id: usize) -> (r: Env)
        ensures
            r.module_id == module_id,
            r.scopes@.len() == 0,
    {
        Env { module_id, scopes: Vec::new() }
    }

    pub open spec fn is_global(&self) -> bool {
        self.scopes@.len() == 0
    }

    pub fn scope_level(&self) -> (r: usize)
        ensures
            r == self.scopes@.len(),
    {
        self.scopes.len()
    }

    pub fn push_scope(&mut self, name: String)
        ensures
            final(self).module_id == old(self).module_id,
            final(self).scopes@.len() == old(self).scopes@.len() + 1,
            final(self).scopes@.drop_last() == old(self).scopes@,
            final(self).scopes@.last().name == name,
            final(self).scopes@.last().symbols@.len() == 0,
    {
        self.scopes.push(Scope { name, symbols: Vec::new() });
        assert(self.scopes@.drop_last() =~= old(self).scopes@);
    }

    pub fn pop_scope(&mut self)
        ensures
            final(self).module_id == old(self).module_id,
            final(self).scopes@ == if old(self).scopes@.len() > 0 {
                old(self).scopes@.drop_last()
            } else {
                old(self).scopes@
            },
    {
        if self.scopes.len() > 0 {
            self.scopes.pop();
        }
    }

    /// Binds `symbol` to `id` in the innermost scope.
    pub fn insert_symbol(&mut self, symbol: String, id: usize)
        requires
            old(self).scopes@.len() > 0,
        ensures
            final(self).module_id == old(self).module_id,
            final(self).scopes@.len() == old(self).scopes@.len(),
            final(self).scopes@.drop_last() == old(self).scopes@.drop_last(),
            final(self).scopes@.last().name == old(self).scopes@.last().name,
            final(self).scopes@.last().symbols@ == old(self).scopes@.last().symbols@.push((symbol, id)),
    {
        let last = self.scopes.len() - 1;
        let mut scope = self.scopes.remove(last);
        scope.symbols.push((symbol, id));
        self.scopes.push(scope);
        assert(self.scopes@.drop_last() =~= old(self).scopes@.drop_last());
    }

    /// The binding of `symbol` in the innermost scope that binds it.
    pub fn find_symbol(&self, symbol: &String) -> (r: Option<usize>)
        ensures
            r == lookup_scopes(self.scopes@, symbol@),
    {
        let mut i: usize = self.scopes.len();
        assert(self.scopes@.subrange(0, i as int) =~= self.scopes@);
        while i > 0
            invariant
                i <= self.scopes@.len(),
                lookup_scopes(self.scopes@, symbol@) == lookup_scopes(
                    self.scopes@.subrange(0, i as int),
                    symbol@,
                ),
            decreases i,
        {
            let scope = &self.scopes[i - 1];
            let mut j: usize = scope.symbols.len();
            assert(scope.symbols@.subrange(0, j as int) =~= scope.symbols@);
            let ghost pre = self.scopes@.subrange(0, i as int);
            assert(pre.drop_last() =~= self.scopes@.subrange(0, i - 1));
            assert(pre.last() == *scope);
            while j > 0
                invariant
                    j <= scope.symbols@.len(),
                    0 < i <= self.scopes@.len(),
                    pre == self.scopes@.subrange(0, i as int),
                    pre.last() == *scope,
                    pre.drop_last() == self.scopes@.subrange(0, i - 1),
                    lookup_scopes(self.scopes@, symbol@) == lookup_scopes(pre, symbol@),
                    lookup_in(scope.symbols@, symbol@) == lookup_in(
                        scope.symbols@.subrange(0, j as int),
                        symbol@,
                    ),
                decreases j,
            {
                let ghost sub = scope.symbols@.subrange(0, j as int);
                assert(sub.drop_last() =~= scope.symbols@.subrange(0, j - 1));
                if scope.symbols[j - 1].0 == *symbol {
                    assert(sub.last() == scope.symbols@[j - 1]);
                    assert(lookup_in(scope.symbols@, symbol@) == Some(scope.symbols@[j - 1].1));
                    return Some(scope.symbols[j - 1].1);
                }
                j -= 1;
            }
            assert(lookup_in(scope.symbols@.subrange(0, 0), symbol@) is None);
            i -= 1;
        }
        None
    }
}

/// The id bound to `sym` at the top level of module `m`.
pub open spec fn global_id(globals: Seq<(usize, String, usize)>, m: usize, sym: Seq<char>) -> Option<usize> {
    if exists|i: int| 0 <= i < globals.len() && globals[i].0 == m && globals[i].1@ == sym {
        Some(
            globals[choose|i: int| 0 <= i < globals.len() && globals[i].0 == m && globals[i].1@ == sym].2,
        )
    } else {
        None
    }
}

/// The state of checking one workspace: type variables, every binding ever
/// made (ids are indices), and each module's top-level names.
pub struct CheckSess {
    pub tycx: TyContext,
    pub bindings: Vec<BindingInfo>,
    pub globals: Vec<(usize, String, usize)>,
}

impl CheckSess {
    /// Each module binds a top-level name at most once, to a binding that exists.
    pub open spec fn wf(&self) -> bool {
        &&& self.tycx.wf()
        &&& forall|i: int, j: int|
            0 <= i < self.globals@.len() && 0 <= j < self.globals@.len() && self.globals@[i].0
                == self.globals@[j].0 && self.globals@[i].1@ == self.globals@[j].1@ ==> i == j
        &&& forall|i: int|
            0 <= i < self.globals@.len() ==> #[trigger] self.globals@[i].2 < self.bindings@.len()
    }

    pub fn new() -> (r: CheckSess)
        ensures
            r.wf(),
            r.tycx@.len() == 0,
            r.bindings@.len() == 0,
            r.globals@.len() == 0,
    {
        CheckSess { tycx: TyContext::new(), bindings: Vec::new(), globals: Vec::new() }
    }

    /// The binding of `symbol` at the top level of `module_id`.
    pub fn get_global_symbol(&self, module_id: usize, symbol: &String) -> (r: Option<usize>)
        requires
            self.wf(),
        ensures
            r == global_id(self.globals@, module_id, symbol@),
            r matches Some(id) ==> id < self.bindings@.len(),
    {
        let mut i: usize = 0;
        while i < self.globals.len()
            invariant
                self.wf(),
                i <= self.globals@.len(),
                forall|j: int|
                    0 <= j < i ==> !(self.globals@[j].0 == module_id && self.globals@[j].1@
                        == symbol@),
            decreases self.globals@.len() - i,
        {
            if self.globals[i].0 == module_id && self.globals[i].1 == *symbol {
                proof {
                    assert(self.globals@[i as int].0 == module_id && self.globals@[i as int].1@
                        == symbol@);
                    let k = choose|k: int|
                        0 <= k < self.globals@.len() && self.globals@[k].0 == module_id
                            && self.globals@[k].1@ == symbol@;
                    assert(k == i);
                    assert(self.globals@[i as int].2 < self.bindings@.len());
                }
                return Some(self.globals[i].2);
            }
            i += 1;
        }
        None
    }

    /// Records that `symbol` names binding `id` at the top level of `module_id`.
    pub fn insert_global_symbol(&mut self, module_id: usize, symbol: String, id: usize)
        requires
            old(self).wf(),
            global_id(old(self).globals@, module_id, symbol@) is None,
            id < old(self).bindings@.len(),
        ensures
            final(self).wf(),
            final(self).globals@ == old(self).globals@.push((module_id, symbol, id)),
            final(self).bindings@ == old(self).bindings@,
            final(self).tycx == old(self).tycx,
    {
        self.globals.push((module_id, symbol, id));
        assert forall|i: int, j: int|
            0 <= i < self.globals@.len() && 0 <= j < self.globals@.len() && self.globals@[i].0
                == self.globals@[j].0 && self.globals@[i].1@ == self.globals@[j].1@ implies i == j by {
            let n = old(self).globals@.len() as int;
            if i == n && j < n {
                assert(old(self).globals@[j].0 == module_id && old(self).globals@[j].1@ == symbol@);
            } else if j == n && i < n {
                assert(old(self).globals@[i].0 == module_id && old(self).globals@[i].1@ == symbol@);
            }
        }
    }

    /// The binding that `symbol` refers to from `env`: a local one if a
    /// scope binds it, else the module's top-level one.
    pub fn get_symbol(&self, env: &Env, symbol: &String) -> (r: Option<usize>)
        requires
            self.wf(),
        ensures
            r == match lookup_scopes(env.scopes@, symbol@) {
                Some(id) => Some(id),
                None => global_id(self.globals@, env.module_id, symbol@),
            },
    {
        match env.find_symbol(symbol) {
            Some(id) => Some(id),
            None => self.get_global_symbol(env.module_id, symbol),
        }
    }

    /// Declares `symbol` in `env`'s innermost scope, or at the module's top
    /// level when no scope is open. A second top-level declaration of a name
    /// in one module is refused with a report that shows both places; a
    /// local one shadows the earlier binding.
    pub fn bind_symbol(
        &mut self,
        env: &mut Env,
        symbol: String,
        visibility: Visibility,
        ty: Ty,
        const_value: Option<ConstValue>,
        is_mutable: bool,
        kind: BindingKind,
        span: Span,
    ) -> (r: DiagnosticResult<usize>)
        requires
            old(self).wf(),
        ensures
            final(self).wf(),
            final(self).tycx == old(self).tycx,
            final(env).module_id == old(env).module_id,
            final(env).scopes@.len() == old(env).scopes@.len(),
            r is Err <==> old(env).is_global() && global_id(
                old(self).globals@,
                old(env).module_id,
                symbol@,
            ) is Some,
            r matches Err(d) ==> {
                &&& d.kind == DiagnosticKind::DuplicateSymbol
                &&& d.message@ == duplicate_text(symbol@)
                &&& d.labels@.len() == 2
                &&& d.labels@[0].span == span
                &&& d.labels@[1].span == old(self).bindings@[global_id(
                    old(self).globals@,
                    old(env).module_id,
                    symbol@,
                )->0 as int].span
                &&& final(self).bindings@ == old(self).bindings@
                &&& final(self).globals@ == old(self).globals@
                &&& final(env).scopes@ == old(env).scopes@
            },
            r matches Ok(id) ==> {
                &&& id == old(self).bindings@.len()
                &&& final(self).bindings@ == old(self).bindings@.push(
                    BindingInfo {
                        module_id: old(env).module_id,
                        symbol,
                        visibility,
                        ty,
                        const_value,
                        is_mutable,
                        kind,
                        scope_level: old(env).scopes@.len() as usize,
                        redirect: None,
                        span,
                    },
                )
                &&& old(env).is_global() ==> final(self).globals@ == old(self).globals@.push(
                    (old(env).module_id, symbol, id),
                ) && final(env).scopes@ == old(env).scopes@
                &&& !old(env).is_global() ==> final(self).globals@ == old(self).globals@
                    && final(env).scopes@.drop_last() == old(env).scopes@.drop_last()
                    && final(env).scopes@.last().symbols@ == old(env).scopes@.last().symbols@.push(
                    (symbol, id),
                )
            },
    {
        let module_id = env.module_id;
        let scope_level = env.scope_level();
        if scope_level == 0 {
            if let Some(id) = self.get_global_symbol(module_id, &symbol) {
                let first = self.bindings[id].span;
                return Err(Diagnostic::duplicate_symbol(first, span, &symbol));
            }
        }
        let id = self.bindings.len();
        let name = symbol.clone();
        self.bindings.push(
            BindingInfo {
                module_id,
                symbol,
                visibility,
                ty,
                const_value,
                is_mutable,
                kind,
                scope_level,
                redirect: None,
                span,
            },
        );
        if scope_level == 0 {
            self.insert_global_symbol(module_id, name, id);
        } else {
            env.insert_symbol(name, id);
        }
        Ok(id)
    }

    /// Binds the name of `pattern` to a new binding of type `ty`; a mutable
    /// pattern drops `const_value`. On success the pattern holds the id.
    pub fn bind_symbol_pattern(
        &mut self,
        env: &mut Env,
        pattern: &mut SymbolPattern,
        visibility: Visibility,
        ty: Ty,
        const_value: Option<ConstValue>,
        kind: BindingKind,
    ) -> (r: DiagnosticResult<()>)
        requires
            old(self).wf(),
        ensures
            final(self).wf(),
            final(self).tycx == old(self).tycx,
            final(env).module_id == old(env).module_id,
            final(env).scopes@.len() == old(env).scopes@.len(),
            final(pattern).symbol == old(pattern).symbol,
            final(pattern).alias == old(pattern).alias,
            final(pattern).is_mutable == old(pattern).is_mutable,
            final(pattern).span == old(pattern).span,
            r is Err <==> old(env).is_global() && global_id(
                old(self).globals@,
                old(env).module_id,
                old(pattern).bound_name(),
            ) is Some,
            r is Err ==> final(self).bindings@ == old(self).bindings@ && final(pattern).binding_info_id
                == old(pattern).binding_info_id && final(self).globals@ == old(self).globals@,
            r matches Err(d) ==> d.kind == DiagnosticKind::DuplicateSymbol && d.labels@.len() == 2
                && d.labels@[0].span == old(pattern).span && d.labels@[1].span == old(self).bindings@[global_id(
                old(self).globals@,
                old(env).module_id,
                old(pattern).bound_name(),
            )->0 as int].span,
            r is Ok && old(env).is_global() ==> final(self).globals@.len() == old(self).globals@.len()
                + 1 && final(self).globals@.drop_last() == old(self).globals@
                && final(self).globals@.last().0 == old(env).module_id
                && final(self).globals@.last().1@ == old(pattern).bound_name(),
            r is Ok && !old(env).is_global() ==> final(self).globals@ == old(self).globals@,
            r is Ok ==> {
                &&& final(pattern).binding_info_id == old(self).bindings@.len()
                &&& final(self).bindings@.len() == old(self).bindings@.len() + 1
                &&& final(self).bindings@.drop_last() == old(self).bindings@
                &&& final(self).bindings@.last().symbol@ == old(pattern).bound_name()
                &&& final(self).bindings@.last().ty == ty
                &&& final(self).bindings@.last().is_mutable == old(pattern).is_mutable
                &&& final(self).bindings@.last().const_value == if old(pattern).is_mutable {
                    None
                } else {
                    const_value
                }
            },
    {
        let name = pattern.name();
        let value = if pattern.is_mutable {
            None
        } else {
            const_value
        };
        let id = self.bind_symbol(
            env,
            name,
            visibility,
            ty,
            value,
            pattern.is_mutable,
            kind,
            pattern.span,
        )?;
        pattern.binding_info_id = id;
        assert(self.bindings@.drop_last() =~= old(self).bindings@);
        assert(self.globals@.len() > old(self).globals@.len() ==> self.globals@.drop_last() =~= old(self).globals@);
        Ok(())
    }
}


/// `n` fresh unbound variables after those of `cx`.
pub open spec fn fresh_vars(cx: Bindings, n: nat) -> Bindings {
    cx + Seq::new(n, |i: int| None)
}

/// The variables `base`, `base + 1`, ... of `n` fresh ones.
pub open spec fn var_run(base: nat, n: nat) -> Seq<Shape> {
    Seq::new(n, |i: int| Shape::Var((base + i) as usize))
}

/// The pattern's names, each bound to its fresh variable.
pub open spec fn named_run(names: Seq<SymbolPattern>, base: nat) -> Seq<(Seq<char>, Shape)> {
    Seq::new(names.len(), |i: int| (names[i].symbol@, Shape::Var((base + i) as usize)))
}

/// What the `i`-th name of an unpack pattern was bound to, on success: its
/// own variable and, unless it is mutable, the constant `c`.
pub open spec fn bound_as(info: BindingInfo, pat: SymbolPattern, ty: usize, c: Option<ConstValue>) -> bool {
    &&& info.symbol@ == pat.bound_name()
    &&& info.ty == Ty(ty)
    &&& info.is_mutable == pat.is_mutable
    &&& info.const_value == if pat.is_mutable {
        None
    } else {
        c
    }
}

/// What the `i`-th name of a struct pattern was bound to, on success: its
/// own variable; a mutable name has no constant.
pub open spec fn bound_named(info: BindingInfo, pat: SymbolPattern, ty: usize) -> bool {
    &&& info.symbol@ == pat.bound_name()
    &&& info.ty == Ty(ty)
    &&& info.is_mutable == pat.is_mutable
    &&& pat.is_mutable ==> info.const_value is None
}

/// `d` reports the failed unification `res` of `expected` with `found` in
/// the context `cx`: of the kind the failure calls for, and for a mismatch
/// with a message that shows both types.
pub open spec fn reports_unify_failure(
    d: Diagnostic,
    res: crate::unify::UnifyResult,
    cx: Bindings,
    expected: Shape,
    found: Shape,
) -> bool {
    match res {
        Err(crate::unify::UnifyError::Mismatch) => d.kind == DiagnosticKind::Mismatch && d.message@
            == crate::diagnostic::mismatch_text(
            crate::display::shape_text(crate::tycx::normalize(cx, expected, cx.len() as nat)),
            crate::display::shape_text(crate::tycx::normalize(cx, found, cx.len() as nat)),
        ),
        Err(crate::unify::UnifyError::Occurs) => d.kind == DiagnosticKind::Occurs,
        Err(crate::unify::UnifyError::Unresolved) => d.kind == DiagnosticKind::Internal,
        Ok(_) => true,
    }
}

/// `info` binds `pat` as a re-export of module `m`'s top-level binding of
/// the same name in `sess`: with that binding's type and, unless the name is
/// mutable, its constant, redirecting to it.
pub open spec fn module_alias(info: BindingInfo, pat: SymbolPattern, sess: &CheckSess, m: usize) -> bool {
    &&& global_id(sess.globals@, m, pat.symbol@) matches Some(t)
    &&& t < sess.bindings@.len()
    &&& info.symbol@ == pat.bound_name()
    &&& info.redirect == Some(t)
    &&& info.ty == sess.bindings@[t as int].ty
    &&& info.is_mutable == pat.is_mutable
    &&& const_model(info.const_value) == if pat.is_mutable {
        None
    } else {
        const_model(sess.bindings@[t as int].const_value)
    }
}

/// Whether module `m` binds every name of `ps` at its top level.
pub open spec fn all_found(g: Seq<(usize, String, usize)>, m: usize, ps: Seq<SymbolPattern>) -> bool {
    forall|i: int| 0 <= i < ps.len() ==> global_id(g, m, (#[trigger] ps[i]).symbol@) is Some
}

/// Element `i` of a tuple constant.
pub open spec fn element_const(cv: Option<ConstValue>, i: int) -> Option<ConstValue> {
    match cv {
        Some(ConstValue::Tuple(vs)) => if 0 <= i < vs@.len() {
            Some(vs@[i])
        } else {
            None
        },
        _ => None,
    }
}

/// The elements of a tuple constant from `i` on.
pub open spec fn elements_from(cv: Option<ConstValue>, i: int) -> Seq<ConstValue> {
    match cv {
        Some(ConstValue::Tuple(vs)) => if 0 <= i <= vs@.len() {
            vs@.subrange(i, vs@.len() as int)
        } else {
            Seq::empty()
        },
        _ => Seq::empty(),
    }
}

/// Binding the names of `ps` cannot clash: below a module's top level
/// shadowing is allowed; at the top level, the names are distinct and not
/// yet bound in module `m`.
pub open spec fn names_fresh(
    g: Seq<(usize, String, usize)>,
    global: bool,
    m: usize,
    ps: Seq<SymbolPattern>,
) -> bool {
    global ==> (forall|i: int| 0 <= i < ps.len() ==> global_id(g, m, #[trigger] ps[i].bound_name()) is None)
        && (forall|i: int, j: int| 0 <= i < j < ps.len() ==> #[trigger] ps[i].bound_name() != #[trigger] ps[j].bound_name())
}

/// Adding a name of another module leaves module `m`'s names as they were.
pub proof fn lemma_global_id_other(g: Seq<(usize, String, usize)>, e: (usize, String, usize), m: usize, n: Seq<char>)
    requires
        e.0 != m || e.1@ != n,
        forall|i: int, j: int|
            0 <= i < g.len() && 0 <= j < g.len() && g[i].0 == g[j].0 && g[i].1@ == g[j].1@ ==> i == j,
    ensures
        global_id(g.push(e), m, n) == global_id(g, m, n),
{
    let g2 = g.push(e);
    if global_id(g, m, n) is Some {
        let i = choose|i: int| 0 <= i < g.len() && g[i].0 == m && g[i].1@ == n;
        assert(g2[i] == g[i]);
        let i2 = choose|i: int| 0 <= i < g2.len() && g2[i].0 == m && g2[i].1@ == n;
        assert(i2 < g.len());
        assert(g2[i2] == g[i2]);
    } else {
        if exists|i: int| 0 <= i < g2.len() && g2[i].0 == m && g2[i].1@ == n {
            let i2 = choose|i: int| 0 <= i < g2.len() && g2[i].0 == m && g2[i].1@ == n;
            assert(g2[i2] == g[i2]);
        }
    }
}

pub proof fn lemma_global_id_push(g: Seq<(usize, String, usize)>, e: (usize, String, usize), m: usize, n: Seq<char>)
    ensures
        global_id(g.push(e), m, n) is Some <==> global_id(g, m, n) is Some || (e.0 == m && e.1@ == n),
{
    let g2 = g.push(e);
    if global_id(g, m, n) is Some {
        let i = choose|i: int| 0 <= i < g.len() && g[i].0 == m && g[i].1@ == n;
        assert(g2[i] == g[i]);
    }
    if e.0 == m && e.1@ == n {
        assert(g2[g.len() as int] == e);
    }
    if global_id(g2, m, n) is Some {
        let i = choose|i: int| 0 <= i < g2.len() && g2[i].0 == m && g2[i].1@ == n;
        if i < g.len() {
            assert(g[i] == g2[i]);
        }
    }
}

/// Takes the first of the elements of a tuple constant that remain.
fn take_first(vs: &mut Vec<ConstValue>) -> (r: Option<ConstValue>)
    ensures
        old(vs)@.len() > 0 ==> r == Some(old(vs)@[0]) && final(vs)@ == old(vs)@.drop_first(),
        old(vs)@.len() == 0 ==> r is None && final(vs)@ == old(vs)@,
{
    if vs.len() > 0 {
        let v = vs.remove(0);
        assert(vs@ =~= old(vs)@.drop_first());
        Some(v)
    } else {
        None
    }
}

/// The index of the first field of `fs` named `name`.
pub open spec fn field_pos(fs: Seq<(String, ConstValue)>, name: Seq<char>) -> Option<int>
    decreases fs.len(),
{
    if fs.len() == 0 {
        None
    } else if fs[0].0@ == name {
        Some(0)
    } else {
        match field_pos(fs.drop_first(), name) {
            Some(k) => Some(k + 1),
            None => None,
        }
    }
}

pub proof fn lemma_field_pos(fs: Seq<(String, ConstValue)>, name: Seq<char>)
    ensures
        field_pos(fs, name) matches Some(k) ==> 0 <= k < fs.len() && fs[k].0@ == name && forall|j: int|
            0 <= j < k ==> fs[j].0@ != name,
        field_pos(fs, name) is None ==> forall|j: int| 0 <= j < fs.len() ==> fs[j].0@ != name,
    decreases fs.len(),
{
    if fs.len() > 0 {
        lemma_field_pos(fs.drop_first(), name);
        assert forall|j: int| 0 < j < fs.len() implies fs[j] == fs.drop_first()[j - 1] by {}
    }
}

/// The fields of a struct constant.
pub open spec fn struct_fields(cv: Option<ConstValue>) -> Seq<(String, ConstValue)> {
    match cv {
        Some(ConstValue::Struct(fs)) => fs@,
        _ => Seq::empty(),
    }
}


/// What a constant is: its shape with strings as character sequences.
pub enum ConstModel {
    Unit,
    Bool(bool),
    Int(i64),
    UInt(u64),
    Str(Seq<char>),
    Tuple(Seq<ConstModel>),
    Struct(Seq<(Seq<char>, ConstModel)>),
}

pub open spec fn model_of(c: ConstValue) -> ConstModel
    decreases c, 0nat,
{
    match c {
        ConstValue::Unit => ConstModel::Unit,
        ConstValue::Bool(b) => ConstModel::Bool(b),
        ConstValue::Int(v) => ConstModel::Int(v),
        ConstValue::UInt(v) => ConstModel::UInt(v),
        ConstValue::Str(s) => ConstModel::Str(s@),
        ConstValue::Tuple(vs) => ConstModel::Tuple(models_of(vs@)),
        ConstValue::Struct(fs) => ConstModel::Struct(named_models_of(fs@)),
    }
}

pub open spec fn models_of(s: Seq<ConstValue>) -> Seq<ConstModel>
    decreases s, 1nat,
{
    if s.len() == 0 {
        Seq::empty()
    } else {
        models_of(s.drop_last()).push(model_of(s.last()))
    }
}

pub open spec fn named_models_of(s: Seq<(String, ConstValue)>) -> Seq<(Seq<char>, ConstModel)>
    decreases s, 1nat,
{
    if s.len() == 0 {
        Seq::empty()
    } else {
        named_models_of(s.drop_last()).push((s.last().0@, model_of(s.last().1)))
    }
}

/// What an optional constant is.
pub open spec fn const_model(c: Option<ConstValue>) -> Option<ConstModel> {
    match c {
        Some(v) => Some(model_of(v)),
        None => None,
    }
}

/// What the field named `name` of a struct constant is: its first field so named.
pub open spec fn field_model(cv: Option<ConstValue>, name: Seq<char>) -> Option<ConstModel> {
    match cv {
        Some(ConstValue::Struct(fs)) => match field_pos(fs@, name) {
            Some(k) => Some(model_of(fs@[k].1)),
            None => None,
        },
        _ => None,
    }
}

pub fn copy_consts(v: &Vec<ConstValue>) -> (r: Vec<ConstValue>)
    ensures
        models_of(r@) == models_of(v@),
    decreases v, 0nat,
{
    let mut out: Vec<ConstValue> = Vec::new();
    let mut i: usize = 0;
    while i < v.len()
        invariant
            i <= v@.len(),
            models_of(out@) == models_of(v@.subrange(0, i as int)),
        decreases v@.len() - i,
    {
        let c = v[i].copy();
        proof {
            assert(v@.subrange(0, i + 1).drop_last() =~= v@.subrange(0, i as int));
            assert(out@.push(c).drop_last() =~= out@);
        }
        out.push(c);
        i += 1;
    }
    assert(v@.subrange(0, v@.len() as int) =~= v@);
    out
}

pub fn copy_named_consts(v: &Vec<(String, ConstValue)>) -> (r: Vec<(String, ConstValue)>)
    ensures
        named_models_of(r@) == named_models_of(v@),
    decreases v, 0nat,
{
    let mut out: Vec<(String, ConstValue)> = Vec::new();
    let mut i: usize = 0;
    while i < v.len()
        invariant
            i <= v@.len(),
            named_models_of(out@) == named_models_of(v@.subrange(0, i as int)),
        decreases v@.len() - i,
    {
        let c = (v[i].0.clone(), v[i].1.copy());
        proof {
            assert(v@.subrange(0, i + 1).drop_last() =~= v@.subrange(0, i as int));
            assert(out@.push(c).drop_last() =~= out@);
        }
        out.push(c);
        i += 1;
    }
    assert(v@.subrange(0, v@.len() as int) =~= v@);
    out
}

impl ConstValue {
    /// A copy that is the same constant.
    pub fn copy(&self) -> (r: ConstValue)
        ensures
            model_of(r) == model_of(*self),
        decreases self, 1nat,
    {
        match self {
            ConstValue::Unit => ConstValue::Unit,
            ConstValue::Bool(b) => ConstValue::Bool(*b),
            ConstValue::Int(v) => ConstValue::Int(*v),
            ConstValue::UInt(v) => ConstValue::UInt(*v),
            ConstValue::Str(s) => ConstValue::Str(s.clone()),
            ConstValue::Tuple(vs) => ConstValue::Tuple(copy_consts(vs)),
            ConstValue::Struct(fs) => ConstValue::Struct(copy_named_consts(fs)),
        }
    }
}

/// A copy of the first field of `fs` named `name`.
fn find_const_field(fs: &Vec<(String, ConstValue)>, name: &String) -> (r: Option<ConstValue>)
    ensures
        const_model(r) == match field_pos(fs@, name@) {
            Some(k) => Some(model_of(fs@[k].1)),
            None => None,
        },
{
    proof {
        lemma_field_pos(fs@, name@);
    }
    let mut i: usize = 0;
    while i < fs.len()
        invariant
            i <= fs@.len(),
            forall|j: int| 0 <= j < i ==> fs@[j].0@ != name@,
            field_pos(fs@, name@) matches Some(k) ==> 0 <= k < fs@.len() && fs@[k].0@ == name@
                && forall|j: int| 0 <= j < k ==> fs@[j].0@ != name@,
            field_pos(fs@, name@) is None ==> forall|j: int| 0 <= j < fs@.len() ==> fs@[j].0@ != name@,
        decreases fs@.len() - i,
    {
        if fs[i].0 == *name {
            proof {
                let k = field_pos(fs@, name@)->0;
                if k < i {
                    assert(fs@[k].0@ != name@);
                } else if k > i {
                    assert(fs@[i as int].0@ != name@);
                }
            }
            return Some(fs[i].1.copy());
        }
        i += 1;
    }
    None
}

impl CheckSess {
    /// Binds each name of a tuple pattern `(a, b, ..)` against `ty`: `ty`
    /// must unify with a tuple that starts with one fresh variable per name,
    /// and each name is bound to its variable. An immutable name takes its
    /// element of `const_value`.
    #[verifier::spinoff_prover]
    pub fn bind_tuple_unpack_pattern(
        &mut self,
        env: &mut Env,
        pattern: &mut UnpackPattern,
        visibility: Visibility,
        ty: Ty,
        const_value: Option<ConstValue>,
        kind: BindingKind,
    ) -> (r: DiagnosticResult<()>)
        requires
            old(self).wf(),
            old(self).tycx@.len() + old(pattern).symbols@.len() + 1 < usize::MAX,
        ensures
            final(self).wf(),
            final(env).module_id == old(env).module_id,
            final(env).scopes@.len() == old(env).scopes@.len(),
            final(pattern).symbols@.len() == old(pattern).symbols@.len(),
            ({
                let n = old(pattern).symbols@.len();
                let base = old(self).tycx@.len();
                let cx1 = fresh_vars(old(self).tycx@, n + 1);
                let res = unify(
                    cx1,
                    Shape::Var(ty.0),
                    Shape::PartialTuple((base + n) as usize, var_run(base, n)),
                    cx1.len(),
                );
                &&& res.0 is Err ==> (r matches Err(d) && d.labels@[0].span == old(pattern).span
                    && final(self).bindings@ == old(self).bindings@ && final(self).globals@ == old(
                    self,
                ).globals@ && final(pattern).symbols@ == old(pattern).symbols@ && final(env).scopes@
                    == old(env).scopes@ && reports_unify_failure(
                    d,
                    res.0,
                    final(self).tycx@,
                    Shape::PartialTuple((base + n) as usize, var_run(base, n)),
                    Shape::Var(ty.0),
                ))
                &&& !old(env).is_global() ==> (r is Ok <==> res.0 is Ok)
                &&& res.0 is Ok && names_fresh(
                    old(self).globals@,
                    old(env).is_global(),
                    old(env).module_id,
                    old(pattern).symbols@,
                ) ==> r is Ok
                &&& r is Ok ==> final(self).bindings@.len() == old(self).bindings@.len() + n
            }),
            r is Ok ==> forall|i: int|
                0 <= i < old(pattern).symbols@.len() ==> #[trigger] final(pattern).symbols@[i].binding_info_id
                    == old(self).bindings@.len() + i,
            r is Ok ==> forall|i: int|
                0 <= i < old(pattern).symbols@.len() ==> bound_as(
                    #[trigger] final(self).bindings@[old(self).bindings@.len() + i],
                    old(pattern).symbols@[i],
                    (old(self).tycx@.len() + i) as usize,
                    element_const(const_value, i),
                ),
    {
        let n = pattern.symbols.len();
        let base_id = self.tycx.len();
        let ghost base = self.tycx@.len();
        let ghost cx0 = self.tycx@;
        let mut elements: Vec<TyKind> = Vec::new();
        let mut i: usize = 0;
        while i < n
            invariant
                self.tycx.wf(),
                self.globals@ == old(self).globals@,
                self.bindings@ == old(self).bindings@,
                n == pattern.symbols@.len(),
                base == cx0.len(),
                base_id == base,
                base + n + 1 < usize::MAX,
                i <= n,
                self.tycx@ == fresh_vars(cx0, i as nat),
                shapes_of(elements@) == var_run(base, i as nat),
                elements@.len() == i,
            decreases n - i,
        {
            let v = self.tycx.var(pattern.symbols[i].span);
            let ghost prev = elements@;
            elements.push(v.kind());
            proof {
                assert(elements@.drop_last() =~= prev);
                assert(shapes_of(elements@) =~= var_run(base, (i + 1) as nat));
                assert(self.tycx@ =~= fresh_vars(cx0, (i + 1) as nat));
            }
            i += 1;
        }
        let partial = self.tycx.partial_tuple(elements, pattern.span);
        assert(self.tycx@ =~= fresh_vars(cx0, (n + 1) as nat));
        let found = ty.kind();
        let res = found.unify(&partial, &mut self.tycx);
        or_report_err(res, &self.tycx, &partial, &found, pattern.span, None)?;
        let ghost cv = const_value;
        let mut values: Vec<ConstValue> = match const_value {
            Some(ConstValue::Tuple(vs)) => vs,
            _ => Vec::new(),
        };
        proof {
            if let Some(ConstValue::Tuple(vs)) = cv {
                assert(vs@.subrange(0, vs@.len() as int) =~= vs@);
            }
        }
        let ghost b0 = self.bindings@.len();
        let mut i: usize = 0;
        while i < n
            invariant
                self.wf(),
                n == pattern.symbols@.len(),
                n == old(pattern).symbols@.len(),
                i <= n,
                base_id == base,
                base + n + 1 < usize::MAX,
                env.module_id == old(env).module_id,
                env.scopes@.len() == old(env).scopes@.len(),
                b0 == old(self).bindings@.len(),
                self.bindings@.len() == b0 + i,
                forall|j: int| #![auto] 0 <= j < n ==> pattern.symbols@[j].symbol == old(pattern).symbols@[j].symbol
                    && pattern.symbols@[j].alias == old(pattern).symbols@[j].alias
                    && pattern.symbols@[j].is_mutable == old(pattern).symbols@[j].is_mutable,
                forall|j: int|
                    0 <= j < i ==> #[trigger] pattern.symbols@[j].binding_info_id == b0 + j
                        && bound_as(self.bindings@[b0 + j], old(pattern).symbols@[j], (base + j) as usize, element_const(cv, j)),
                (!old(env).is_global()) ==> !env.is_global(),
                old(env).is_global() ==> env.is_global(),
                cv == const_value,
                base == old(self).tycx@.len(),
                values@ == elements_from(cv, i as int),
                unify(
                    fresh_vars(old(self).tycx@, (n + 1) as nat),
                    Shape::Var(ty.0),
                    Shape::PartialTuple((base + n) as usize, var_run(base, n as nat)),
                    fresh_vars(old(self).tycx@, (n + 1) as nat).len(),
                ).0 is Ok,
                names_fresh(old(self).globals@, old(env).is_global(), old(env).module_id, old(pattern).symbols@) && old(env).is_global() ==> forall|j: int|
                    i <= j < n ==> global_id(self.globals@, old(env).module_id, #[trigger] old(pattern).symbols@[j].bound_name()) is None,
            decreases n - i,
        {
            let ghost g_before = self.globals@;
            let value = take_first(&mut values);
            proof {
                if let Some(ConstValue::Tuple(vs)) = cv {
                    if i < vs@.len() {
                        assert(values@ =~= elements_from(cv, i + 1));
                    } else {
                        assert(values@ =~= Seq::<ConstValue>::empty());
                    }
                }
                assert(values@ =~= elements_from(cv, i + 1));
                assert(value == element_const(cv, i as int));
            }
            let ghost before = self.bindings@;
            let ghost pat_before = pattern.symbols@;
            proof {
                assert(pattern.symbols@[i as int].symbol == old(pattern).symbols@[i as int].symbol);
                assert(pattern.symbols@[i as int].alias == old(pattern).symbols@[i as int].alias);
                assert(pattern.symbols@[i as int].bound_name() == old(pattern).symbols@[i as int].bound_name());
            }
            let r = self.bind_symbol_pattern(
                env,
                &mut pattern.symbols[i],
                visibility,
                Ty(base_id + i),
                value,
                kind,
            );
            if r.is_err() {
                proof {
                    if names_fresh(old(self).globals@, old(env).is_global(), old(env).module_id, old(pattern).symbols@) && old(env).is_global() {
                        assert(global_id(g_before, old(env).module_id, old(pattern).symbols@[i as int].bound_name()) is None);
                    }
                }
                return r;
            }
            proof {
                assert(self.bindings@[b0 + i] == self.bindings@.last());
                assert(pattern.symbols@[i as int].binding_info_id == b0 + i);
                assert forall|j: int| 0 <= j < i implies #[trigger] pattern.symbols@[j] == pat_before[j] by {}
                let info = self.bindings@[b0 + i];
                let pat = old(pattern).symbols@[i as int];
                assert(info.symbol@ == pat.bound_name());
                assert(info.ty == Ty((base + i) as usize));
                assert(info.is_mutable == pat.is_mutable);
                assert(info.const_value == if pat.is_mutable { None } else { element_const(cv, i as int) });
                assert forall|j: int| 0 <= j < i + 1 implies #[trigger] pattern.symbols@[j].binding_info_id == b0 + j
                    && bound_as(self.bindings@[b0 + j], old(pattern).symbols@[j], (base + j) as usize, element_const(cv, j)) by {
                    if j < i {
                        assert(pat_before[j].binding_info_id == b0 + j);
                        assert(self.bindings@[b0 + j] == before[b0 + j]);
                    }
                }

                assert forall|j: int| 0 <= j < i implies #[trigger] self.bindings@[b0 + j] == before[b0 + j] by {
                    assert(self.bindings@.drop_last() == before);
                }
                if names_fresh(old(self).globals@, old(env).is_global(), old(env).module_id, old(pattern).symbols@) && old(env).is_global() {
                    assert forall|j: int| i + 1 <= j < n implies global_id(self.globals@, old(env).module_id, #[trigger] old(pattern).symbols@[j].bound_name()) is None by {
                        assert(self.globals@ == g_before.push(self.globals@.last()));
                        lemma_global_id_push(g_before, self.globals@.last(), old(env).module_id, old(pattern).symbols@[j].bound_name());
                        assert(old(pattern).symbols@[i as int].bound_name() != old(pattern).symbols@[j].bound_name());
                    }
                }
            }
            i += 1;
        }
        assert(i == n);
        assert(cv == const_value);
        assert forall|q: int|
            0 <= q < old(pattern).symbols@.len() implies bound_as(
                #[trigger] self.bindings@[old(self).bindings@.len() + q],
                old(pattern).symbols@[q],
                (old(self).tycx@.len() + q) as usize,
                element_const(const_value, q),
            ) by {
            assert(pattern.symbols@[q].binding_info_id == b0 + q);
            assert(element_const(cv, q) == element_const(const_value, q));
        }
        Ok(())
    }
}


impl CheckSess {
    /// Binds each name of a struct pattern `{a, b}` against `ty`. When `ty`
    /// is a module, each name is that module's top-level binding of it,
    /// re-exported. Otherwise `ty` must unify with a struct that has at
    /// least those fields, each a fresh variable, and each name is bound to
    /// its field's variable; an immutable name takes its field of
    /// `const_value`.
    #[verifier::spinoff_prover]
    pub fn bind_struct_unpack_pattern(
        &mut self,
        env: &mut Env,
        pattern: &mut UnpackPattern,
        visibility: Visibility,
        ty: Ty,
        const_value: Option<ConstValue>,
        kind: BindingKind,
    ) -> (r: DiagnosticResult<()>)
        requires
            old(self).wf(),
            old(self).tycx@.len() + old(pattern).symbols@.len() + 1 < usize::MAX,
        ensures
            final(self).wf(),
            final(env).module_id == old(env).module_id,
            final(env).scopes@.len() == old(env).scopes@.len(),
            final(pattern).symbols@.len() == old(pattern).symbols@.len(),
            ({
                let n = old(pattern).symbols@.len();
                let base = old(self).tycx@.len();
                let cx1 = fresh_vars(old(self).tycx@, n + 1);
                let res = unify(
                    cx1,
                    Shape::Var(ty.0),
                    Shape::PartialStruct((base + n) as usize, named_run(old(pattern).symbols@, base)),
                    cx1.len(),
                );
                let norm = crate::tycx::normalize(
                    old(self).tycx@,
                    Shape::Var(ty.0),
                    old(self).tycx@.len() as nat,
                );
                &&& !(norm is Module) ==> {
                    &&& res.0 is Err ==> (r matches Err(d) && d.labels@[0].span == old(pattern).span
                        && final(self).bindings@ == old(self).bindings@ && final(self).globals@ == old(
                        self,
                    ).globals@ && final(pattern).symbols@ == old(pattern).symbols@
                        && final(env).scopes@ == old(env).scopes@ && reports_unify_failure(
                        d,
                        res.0,
                        final(self).tycx@,
                        Shape::PartialStruct((base + n) as usize, named_run(old(pattern).symbols@, base)),
                        Shape::Var(ty.0),
                    ))
                    &&& !old(env).is_global() ==> (r is Ok <==> res.0 is Ok)
                    &&& res.0 is Ok && names_fresh(
                        old(self).globals@,
                        old(env).is_global(),
                        old(env).module_id,
                        old(pattern).symbols@,
                    ) ==> r is Ok
                    &&& r is Ok ==> final(self).bindings@.len() == old(self).bindings@.len() + n
                }
                &&& norm is Module && r is Ok ==> final(self).bindings@.len()
                    == old(self).bindings@.len() + n
            }),
            r is Ok && !(crate::tycx::normalize(old(self).tycx@, Shape::Var(ty.0), old(self).tycx@.len() as nat) is Module) ==> forall|i: int|
                0 <= i < old(pattern).symbols@.len() ==> #[trigger] final(pattern).symbols@[i].binding_info_id
                    == old(self).bindings@.len() + i,
            r is Ok && !(crate::tycx::normalize(old(self).tycx@, Shape::Var(ty.0), old(self).tycx@.len() as nat) is Module) ==> forall|i: int|
                0 <= i < old(pattern).symbols@.len() ==> bound_named(
                    #[trigger] final(self).bindings@[old(self).bindings@.len() + i],
                    old(pattern).symbols@[i],
                    (old(self).tycx@.len() + i) as usize,
                ) && (!old(pattern).symbols@[i].is_mutable ==> const_model(
                    final(self).bindings@[old(self).bindings@.len() + i].const_value,
                ) == field_model(const_value, old(pattern).symbols@[i].symbol@)),
            crate::tycx::normalize(old(self).tycx@, Shape::Var(ty.0), old(self).tycx@.len() as nat) is Module
                && all_found(
                old(self).globals@,
                crate::tycx::normalize(old(self).tycx@, Shape::Var(ty.0), old(self).tycx@.len() as nat)->Module_0,
                old(pattern).symbols@,
            ) && (!old(env).is_global() || (old(env).module_id != crate::tycx::normalize(
                old(self).tycx@,
                Shape::Var(ty.0),
                old(self).tycx@.len() as nat,
            )->Module_0 && names_fresh(old(self).globals@, true, old(env).module_id, old(pattern).symbols@)))
                ==> r is Ok,
            crate::tycx::normalize(old(self).tycx@, Shape::Var(ty.0), old(self).tycx@.len() as nat) is Module
                && (!old(env).is_global() || old(env).module_id != crate::tycx::normalize(old(self).tycx@, Shape::Var(ty.0), old(self).tycx@.len() as nat)->Module_0) && r is Ok ==> forall|i: int|
                0 <= i < old(pattern).symbols@.len() ==> module_alias(
                    #[trigger] final(self).bindings@[old(self).bindings@.len() + i],
                    old(pattern).symbols@[i],
                    old(self),
                    crate::tycx::normalize(old(self).tycx@, Shape::Var(ty.0), old(self).tycx@.len() as nat)->Module_0,
                ),
    {
        let found = ty.kind();
        let fuel = self.tycx.len();
        let norm = self.tycx.normalize(&found, fuel);
        if let TyKind::Module(module_id) = norm {
            return self.bind_module_unpack(env, pattern, visibility, module_id, kind);
        }
        let n = pattern.symbols.len();
        let base_id = self.tycx.len();
        let ghost base = self.tycx@.len();
        let ghost cx0 = self.tycx@;
        let mut fields: Vec<(String, TyKind)> = Vec::new();
        let mut i: usize = 0;
        while i < n
            invariant
                self.tycx.wf(),
                self.globals@ == old(self).globals@,
                self.bindings@ == old(self).bindings@,
                n == pattern.symbols@.len(),
                pattern.symbols@ == old(pattern).symbols@,
                base == cx0.len(),
                base_id == base,
                base + n + 1 < usize::MAX,
                i <= n,
                self.tycx@ == fresh_vars(cx0, i as nat),
                named_of(fields@) == named_run(pattern.symbols@.subrange(0, i as int), base),
                fields@.len() == i,
            decreases n - i,
        {
            let v = self.tycx.var(pattern.symbols[i].span);
            let ghost prev = fields@;
            fields.push((pattern.symbols[i].symbol.clone(), v.kind()));
            proof {
                assert(fields@.drop_last() =~= prev);
                assert(named_of(fields@) =~= named_run(pattern.symbols@.subrange(0, i + 1), base));
                assert(self.tycx@ =~= fresh_vars(cx0, (i + 1) as nat));
            }
            i += 1;
        }
        assert(pattern.symbols@.subrange(0, n as int) =~= pattern.symbols@);
        let partial = self.tycx.partial_struct(PartialStructTy(fields), pattern.span);
        assert(self.tycx@ =~= fresh_vars(cx0, (n + 1) as nat));
        let res = found.unify(&partial, &mut self.tycx);
        or_report_err(res, &self.tycx, &partial, &found, pattern.span, None)?;
        let ghost cv = const_value;
        let values: Vec<(String, ConstValue)> = match const_value {
            Some(ConstValue::Struct(fs)) => fs,
            _ => Vec::new(),
        };
        let ghost b0 = self.bindings@.len();
        let mut i: usize = 0;
        while i < n
            invariant
                self.wf(),
                n == pattern.symbols@.len(),
                n == old(pattern).symbols@.len(),
                i <= n,
                base_id == base,
                base + n + 1 < usize::MAX,
                env.module_id == old(env).module_id,
                env.scopes@.len() == old(env).scopes@.len(),
                b0 == old(self).bindings@.len(),
                self.bindings@.len() == b0 + i,
                forall|j: int| #![auto] 0 <= j < n ==> pattern.symbols@[j].symbol == old(pattern).symbols@[j].symbol
                    && pattern.symbols@[j].alias == old(pattern).symbols@[j].alias
                    && pattern.symbols@[j].is_mutable == old(pattern).symbols@[j].is_mutable,
                forall|j: int|
                    0 <= j < i ==> #[trigger] pattern.symbols@[j].binding_info_id == b0 + j
                        && bound_named(self.bindings@[b0 + j], old(pattern).symbols@[j], (base + j) as usize),
                forall|j: int| 0 <= j < i ==> (!old(pattern).symbols@[j].is_mutable
                        ==> const_model(#[trigger] self.bindings@[b0 + j].const_value) == field_model(cv, old(pattern).symbols@[j].symbol@)),
                (!old(env).is_global()) ==> !env.is_global(),
                old(env).is_global() ==> env.is_global(),
                cv == const_value,
                base == old(self).tycx@.len(),
                values@ == struct_fields(cv),
                unify(
                    fresh_vars(old(self).tycx@, (n + 1) as nat),
                    Shape::Var(ty.0),
                    Shape::PartialStruct((base + n) as usize, named_run(old(pattern).symbols@, base)),
                    fresh_vars(old(self).tycx@, (n + 1) as nat).len(),
                ).0 is Ok,
                names_fresh(old(self).globals@, old(env).is_global(), old(env).module_id, old(pattern).symbols@) && old(env).is_global() ==> forall|j: int|
                    i <= j < n ==> global_id(self.globals@, old(env).module_id, #[trigger] old(pattern).symbols@[j].bound_name()) is None,
            decreases n - i,
        {
            let ghost g_before = self.globals@;
            let value = find_const_field(&values, &pattern.symbols[i].symbol);
            proof {
                match cv {
                    Some(ConstValue::Struct(fs)) => {},
                    _ => { assert(values@.len() == 0); }
                }
                assert(const_model(value) == field_model(cv, old(pattern).symbols@[i as int].symbol@));
            }
            let ghost before = self.bindings@;
            let ghost pat_before = pattern.symbols@;
            proof {
                assert(pattern.symbols@[i as int].symbol == old(pattern).symbols@[i as int].symbol);
                assert(pattern.symbols@[i as int].alias == old(pattern).symbols@[i as int].alias);
                assert(pattern.symbols@[i as int].bound_name() == old(pattern).symbols@[i as int].bound_name());
            }
            let r = self.bind_symbol_pattern(
                env,
                &mut pattern.symbols[i],
                visibility,
                Ty(base_id + i),
                value,
                kind,
            );
            if r.is_err() {
                return r;
            }
            proof {
                assert(self.bindings@[b0 + i] == self.bindings@.last());
                assert(pattern.symbols@[i as int].binding_info_id == b0 + i);
                assert forall|j: int| 0 <= j < i implies #[trigger] pattern.symbols@[j] == pat_before[j] by {}
                assert forall|j: int| 0 <= j < i implies #[trigger] self.bindings@[b0 + j] == before[b0
                    + j] by {
                    assert(self.bindings@.drop_last() == before);
                }
                assert forall|j: int| 0 <= j < i + 1 implies #[trigger] pattern.symbols@[j].binding_info_id == b0 + j
                    && bound_named(self.bindings@[b0 + j], old(pattern).symbols@[j], (base + j) as usize)
                    && (!old(pattern).symbols@[j].is_mutable
                    ==> const_model(self.bindings@[b0 + j].const_value) == field_model(cv, old(pattern).symbols@[j].symbol@)) by {
                    if j < i {
                        assert(pat_before[j].binding_info_id == b0 + j);
                        assert(self.bindings@[b0 + j] == before[b0 + j]);
                    }
                }
                if names_fresh(old(self).globals@, old(env).is_global(), old(env).module_id, old(pattern).symbols@) && old(env).is_global() {
                    assert forall|j: int| i + 1 <= j < n implies global_id(self.globals@, old(env).module_id, #[trigger] old(pattern).symbols@[j].bound_name()) is None by {
                        assert(self.globals@ == g_before.push(self.globals@.last()));
                        lemma_global_id_push(g_before, self.globals@.last(), old(env).module_id, old(pattern).symbols@[j].bound_name());
                        assert(old(pattern).symbols@[i as int].bound_name() != old(pattern).symbols@[j].bound_name());
                    }
                }
            }
            i += 1;
        }
        assert forall|q: int|
            0 <= q < old(pattern).symbols@.len() implies bound_named(
                #[trigger] self.bindings@[old(self).bindings@.len() + q],
                old(pattern).symbols@[q],
                (old(self).tycx@.len() + q) as usize,
            ) && (!old(pattern).symbols@[q].is_mutable ==> const_model(
                self.bindings@[old(self).bindings@.len() + q].const_value,
            ) == field_model(const_value, old(pattern).symbols@[q].symbol@)) by {
            assert(pattern.symbols@[q].binding_info_id == b0 + q);
            assert(cv == const_value);
        }
        Ok(())
    }

    /// Binds each name of `pattern` to the top-level binding of that name in
    /// module `module_id`, as a re-export of it.
    fn bind_module_unpack(
        &mut self,
        env: &mut Env,
        pattern: &mut UnpackPattern,
        visibility: Visibility,
        module_id: usize,
        kind: BindingKind,
    ) -> (r: DiagnosticResult<()>)
        requires
            old(self).wf(),
        ensures
            final(self).wf(),
            final(env).module_id == old(env).module_id,
            final(env).scopes@.len() == old(env).scopes@.len(),
            final(pattern).symbols@.len() == old(pattern).symbols@.len(),
            r is Ok ==> final(self).bindings@.len() == old(self).bindings@.len()
                + old(pattern).symbols@.len(),
            all_found(old(self).globals@, module_id, old(pattern).symbols@) && (!old(env).is_global() || (
            old(env).module_id != module_id && names_fresh(
                old(self).globals@,
                true,
                old(env).module_id,
                old(pattern).symbols@,
            ))) ==> r is Ok,
            r is Ok && (!old(env).is_global() || old(env).module_id != module_id) ==> forall|i: int|
                0 <= i < old(pattern).symbols@.len() ==> module_alias(
                    #[trigger] final(self).bindings@[old(self).bindings@.len() + i],
                    old(pattern).symbols@[i],
                    old(self),
                    module_id,
                ),
    {
        let n = pattern.symbols.len();
        let mut i: usize = 0;
        while i < n
            invariant
                self.wf(),
                n == pattern.symbols@.len(),
                n == old(pattern).symbols@.len(),
                i <= n,
                env.module_id == old(env).module_id,
                env.scopes@.len() == old(env).scopes@.len(),
                self.bindings@.len() == old(self).bindings@.len() + i,
                forall|j: int| #![auto] 0 <= j < n ==> pattern.symbols@[j].symbol == old(pattern).symbols@[j].symbol
                    && pattern.symbols@[j].alias == old(pattern).symbols@[j].alias,
                forall|k: int| 0 <= k < old(self).bindings@.len() ==> #[trigger] self.bindings@[k] == old(self).bindings@[k],
                old(self).wf(),
                (!old(env).is_global() || old(env).module_id != module_id) ==> forall|nm: Seq<char>| #[trigger] global_id(self.globals@, module_id, nm) == global_id(old(self).globals@, module_id, nm),
                (!old(env).is_global() || old(env).module_id != module_id) ==> forall|j: int|
                    0 <= j < i ==> module_alias(#[trigger] self.bindings@[old(self).bindings@.len() + j], old(pattern).symbols@[j], old(self), module_id),
                (!old(env).is_global()) ==> !env.is_global(),
                old(env).is_global() ==> env.is_global(),
                forall|j: int| #![auto] 0 <= j < n ==> pattern.symbols@[j].is_mutable == old(pattern).symbols@[j].is_mutable,
                old(env).is_global() && old(env).module_id != module_id && names_fresh(old(self).globals@, true, old(env).module_id, old(pattern).symbols@) ==> forall|j: int|
                    i <= j < n ==> global_id(self.globals@, old(env).module_id, #[trigger] old(pattern).symbols@[j].bound_name()) is None,
            decreases n - i,
        {
            let ghost g_before = self.globals@;
            let ghost b_before = self.bindings@;
            proof {
                assert(pattern.symbols@[i as int].symbol == old(pattern).symbols@[i as int].symbol);
                assert(pattern.symbols@[i as int].alias == old(pattern).symbols@[i as int].alias);
                if all_found(old(self).globals@, module_id, old(pattern).symbols@) {
                    assert(global_id(old(self).globals@, module_id, old(pattern).symbols@[i as int].symbol@) is Some);
                }
            }
            let target = match self.get_global_symbol(module_id, &pattern.symbols[i].symbol) {
                Some(id) => id,
                None => {
                    return Err(
                        Diagnostic::unknown_symbol(pattern.symbols[i].span, &pattern.symbols[i].symbol),
                    );
                },
            };
            let target_ty = self.bindings[target].ty;
            let target_const = match &self.bindings[target].const_value {
                Some(c) => Some(c.copy()),
                None => None,
            };
            proof {
                if !old(env).is_global() || old(env).module_id != module_id {
                    let nm = old(pattern).symbols@[i as int].symbol@;
                    assert(global_id(old(self).globals@, module_id, nm) == Some(target));
                    let w = choose|w: int| 0 <= w < old(self).globals@.len() && old(self).globals@[w].0 == module_id && old(self).globals@[w].1@ == nm;
                    assert(old(self).globals@[w].2 < old(self).bindings@.len());
                    assert(target < old(self).bindings@.len());
                    assert(target_ty == old(self).bindings@[target as int].ty);
                    assert(const_model(target_const) == const_model(old(self).bindings@[target as int].const_value));
                }
            }
            let ghost pat_i = pattern.symbols@[i as int];
            let r = self.bind_symbol_pattern(env, &mut pattern.symbols[i], visibility, target_ty, target_const, kind);
            if r.is_err() {
                proof {
                    assert(pat_i.bound_name() == old(pattern).symbols@[i as int].bound_name());
                }
                return r;
            }
            let mut last = self.bindings.pop().unwrap();
            last.redirect = Some(target);
            self.bindings.push(last);
            proof {
                assert forall|k: int| 0 <= k < old(self).bindings@.len() implies #[trigger] self.bindings@[k] == old(self).bindings@[k] by {
                    assert(self.bindings@[k] == b_before[k]);
                }
                if !old(env).is_global() || old(env).module_id != module_id {
                    assert forall|nm: Seq<char>| #[trigger] global_id(self.globals@, module_id, nm) == global_id(old(self).globals@, module_id, nm) by {
                        if self.globals@.len() > g_before.len() {
                            assert(self.globals@ == g_before.push(self.globals@.last()));
                            lemma_global_id_other(g_before, self.globals@.last(), module_id, nm);
                        }
                    }
                    if old(env).is_global() && names_fresh(old(self).globals@, true, old(env).module_id, old(pattern).symbols@) {
                        assert forall|j: int| i + 1 <= j < n implies global_id(self.globals@, old(env).module_id, #[trigger] old(pattern).symbols@[j].bound_name()) is None by {
                            assert(self.globals@ == g_before.push(self.globals@.last()));
                            lemma_global_id_push(g_before, self.globals@.last(), old(env).module_id, old(pattern).symbols@[j].bound_name());
                            assert(old(pattern).symbols@[i as int].bound_name() != old(pattern).symbols@[j].bound_name());
                        }
                    }
                    assert forall|j: int| 0 <= j < i + 1 implies module_alias(#[trigger] self.bindings@[old(self).bindings@.len() + j], old(pattern).symbols@[j], old(self), module_id) by {
                        if j < i {
                            assert(self.bindings@[old(self).bindings@.len() + j] == b_before[old(self).bindings@.len() + j]);
                        }
                    }
                }
            }
            i += 1;
        }
        Ok(())
    }

    /// Binds the names of any pattern against `ty`.
    pub fn bind_pattern(
        &mut self,
        env: &mut Env,
        pattern: &mut Pattern,
        visibility: Visibility,
        ty: Ty,
        const_value: Option<ConstValue>,
        kind: BindingKind,
    ) -> (r: DiagnosticResult<()>)
        requires
            old(self).wf(),
            old(self).tycx@.len() + match *old(pattern) {
                Pattern::Symbol(_) => 0,
                Pattern::StructUnpack(p) => p.symbols@.len(),
                Pattern::TupleUnpack(p) => p.symbols@.len(),
            } + 1 < usize::MAX,
        ensures
            final(self).wf(),
            final(env).module_id == old(env).module_id,
            final(env).scopes@.len() == old(env).scopes@.len(),
            (*old(pattern)) matches Pattern::Symbol(p) ==> (r is Err <==> old(env).is_global()
                && global_id(old(self).globals@, old(env).module_id, p.bound_name()) is Some),
            (*old(pattern)) matches Pattern::Symbol(p) ==> ((*final(pattern)) matches Pattern::Symbol(q)
                && q.bound_name() == p.bound_name() && q.span == p.span),
            (*final(pattern)) is Symbol == (*old(pattern)) is Symbol,
            (*old(pattern)) is Symbol ==> final(self).tycx@ == old(self).tycx@,
            (*old(pattern)) is Symbol && r is Err ==> (final(self).globals@ == old(self).globals@ && final(self).bindings@ == old(self).bindings@ && (r matches Err(d) && d.kind == DiagnosticKind::DuplicateSymbol
                && d.labels@.len() == 2 && d.labels@[0].span == (*old(pattern))->Symbol_0.span
                && d.labels@[1].span == old(self).bindings@[global_id(
                old(self).globals@,
                old(env).module_id,
                (*old(pattern))->Symbol_0.bound_name(),
            )->0 as int].span)),
            (*old(pattern)) is Symbol && r is Ok ==> final(self).bindings@.len() == old(self).bindings@.len() + 1
                && final(self).bindings@.drop_last() == old(self).bindings@,
            (*old(pattern)) is Symbol && r is Ok && old(env).is_global() ==> (final(self).globals@.len() == old(self).globals@.len() + 1 && final(self).globals@.drop_last() == old(self).globals@ && final(self).globals@.last().0 == old(env).module_id
                && final(self).globals@.last().1@ == (*old(pattern))->Symbol_0.bound_name()),
    {
        match pattern {
            Pattern::Symbol(p) => self.bind_symbol_pattern(env, p, visibility, ty, const_value, kind),
            Pattern::StructUnpack(p) => self.bind_struct_unpack_pattern(
                env,
                p,
                visibility,
                ty,
                const_value,
                kind,
            ),
            Pattern::TupleUnpack(p) => self.bind_tuple_unpack_pattern(
                env,
                p,
                visibility,
                ty,
                const_value,
                kind,
            ),
        }
    }
}

} // verus!
