use vstd::prelude::*;

use crate::bind::CheckSess;
use crate::diagnostic::{
    assign_twice_text, uninit_text, Diagnostic, DiagnosticKind, DiagnosticResult,
};
use crate::span::Span;
use crate::text::push_str;

verus! {

/// Whether a binding surely holds a value at the current point.
#[derive(Debug, Clone, Copy, PartialEq, Eq, Structural)]
pub enum InitState {
    Init,
    NotInit,
}

/// The initialization state of each binding, by id; a binding without an
/// entry is taken to hold a value.
pub struct InitScopes {
    pub states: Vec<InitState>,
}

impl InitScopes {
    pub open spec fn state(&self, id: usize) -> InitState {
        if id < self.states@.len() {
            self.states@[id as int]
        } else {
            InitState::Init
        }
    }
}

/// Checks a read of binding `id` at `span`: it must hold a value.
pub fn check_id_access(sess: &CheckSess, init: &InitScopes, id: usize, span: Span) -> (r: DiagnosticResult<()>)
    requires
        id < sess.bindings@.len(),
    ensures
        r is Ok <==> init.state(id) == InitState::Init,
        r matches Err(d) ==> {
            &&& d.kind == DiagnosticKind::UseBeforeInit
            &&& d.message@ == uninit_text(sess.bindings@[id as int].symbol@)
            &&& d.labels@[0].span == span
            &&& d.labels@[1].span == sess.bindings@[id as int].span
        },
{
    if id < init.states.len() && init.states[id] == InitState::NotInit {
        let info = &sess.bindings[id];
        let mut message = String::new();
        push_str(&mut message, "use of possibly uninitialized value `");
        push_str(&mut message, info.symbol.as_str());
        push_str(&mut message, "`");
        assert(message@ =~= uninit_text(info.symbol@));
        return Err(Diagnostic::with_definition(DiagnosticKind::UseBeforeInit, message, span, info.span));
    }
    Ok(())
}

/// Checks an assignment to binding `id` through `lvalue_span`: the first
/// assignment initializes it; a later one needs a mutable binding.
pub fn check_assign_lvalue_id_access(
    sess: &CheckSess,
    init: &mut InitScopes,
    id: usize,
    lvalue_span: Span,
) -> (r: DiagnosticResult<()>)
    requires
        id < sess.bindings@.len(),
    ensures
        r is Err <==> old(init).state(id) == InitState::Init && !sess.bindings@[id as int].is_mutable,
        r matches Err(d) ==> {
            &&& d.kind == DiagnosticKind::AssignToImmutable
            &&& d.message@ == assign_twice_text(sess.bindings@[id as int].symbol@)
            &&& d.labels@[0].span == lvalue_span
            &&& d.labels@[1].span == sess.bindings@[id as int].span
        },
        final(init).states@.len() == old(init).states@.len(),
        r is Err ==> final(init).states@ == old(init).states@,
        final(init).state(id) == InitState::Init || r is Err,
        forall|j: usize| j != id ==> final(init).state(j) == old(init).state(j),
{
    let info = &sess.bindings[id];
    let initialized = id >= init.states.len() || init.states[id] == InitState::Init;
    if initialized && !info.is_mutable {
        let mut message = String::new();
        push_str(&mut message, "cannot assign twice to immutable variable `");
        push_str(&mut message, info.symbol.as_str());
        push_str(&mut message, "`");
        assert(message@ =~= assign_twice_text(info.symbol@));
        return Err(Diagnostic::with_definition(DiagnosticKind::AssignToImmutable, message, lvalue_span, info.span));
    }
    if !initialized {
        init.states.set(id, InitState::Init);
    }
    Ok(())
}

} // verus!
