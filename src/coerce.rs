use vstd::prelude::*;

use crate::ty::{FloatTy, IntTy, Shape, TyKind, UIntTy};
use crate::unify::{can_coerce_mut, mut_compatible};

verus! {

/// Which side of a pair of types may be implicitly converted to the other.
#[derive(Debug, Clone, Copy, PartialEq, Eq, Structural)]
pub enum CoercionResult {
    CoerceToLeft,
    CoerceToRight,
    NoCoercion,
}

/// Size in bytes of a signed integer type on a target whose word is `word_size` bytes.
pub open spec fn int_size(w: IntTy, word_size: usize) -> usize {
    match w {
        IntTy::I8 => 1,
        IntTy::I16 => 2,
        IntTy::I32 => 4,
        IntTy::I64 => 8,
        IntTy::Int => word_size,
    }
}

pub open spec fn uint_size(w: UIntTy, word_size: usize) -> usize {
    match w {
        UIntTy::U8 => 1,
        UIntTy::U16 => 2,
        UIntTy::U32 => 4,
        UIntTy::U64 => 8,
        UIntTy::UInt => word_size,
    }
}

pub open spec fn float_size(w: FloatTy, word_size: usize) -> usize {
    match w {
        FloatTy::F16 => 2,
        FloatTy::F32 => 4,
        FloatTy::F64 => 8,
        FloatTy::Float => word_size,
    }
}

/// Coerce toward the larger of two sizes: to the right unless the left is larger.
pub open spec fn by_size(left: usize, right: usize) -> CoercionResult {
    if left <= right {
        CoercionResult::CoerceToRight
    } else {
        CoercionResult::CoerceToLeft
    }
}

/// Whether `ptr` points to an array whose elements are `elem`.
pub open spec fn array_of(ptr: Shape, elem: Shape) -> bool {
    match ptr {
        Shape::Array(inner, _) => *inner == elem,
        _ => false,
    }
}

/// The implicit conversion allowed between `left` and `right`: a narrower
/// integer or float to a wider one of the same kind, and a pointer to an
/// array to a slice or multi-pointer of its element type when mutability
/// allows.
pub open spec fn coercion(left: Shape, right: Shape, word_size: usize) -> CoercionResult {
    match (left, right) {
        (Shape::Int(l), Shape::Int(r)) => by_size(int_size(l, word_size), int_size(r, word_size)),
        (Shape::UInt(l), Shape::UInt(r)) => by_size(
            uint_size(l, word_size),
            uint_size(r, word_size),
        ),
        (Shape::Float(l), Shape::Float(r)) => by_size(
            float_size(l, word_size),
            float_size(r, word_size),
        ),
        (Shape::Pointer(t, lm), Shape::Slice(e, rm)) => if mut_compatible(lm, rm) && array_of(*t, *e) {
            CoercionResult::CoerceToRight
        } else {
            CoercionResult::NoCoercion
        },
        (Shape::Slice(e, lm), Shape::Pointer(t, rm)) => if mut_compatible(rm, lm) && array_of(*t, *e) {
            CoercionResult::CoerceToLeft
        } else {
            CoercionResult::NoCoercion
        },
        (Shape::Pointer(t, lm), Shape::MultiPointer(e, rm)) => if mut_compatible(lm, rm) && array_of(
            *t,
            *e,
        ) {
            CoercionResult::CoerceToRight
        } else {
            CoercionResult::NoCoercion
        },
        (Shape::MultiPointer(e, lm), Shape::Pointer(t, rm)) => if mut_compatible(rm, lm) && array_of(
            *t,
            *e,
        ) {
            CoercionResult::CoerceToLeft
        } else {
            CoercionResult::NoCoercion
        },
        _ => CoercionResult::NoCoercion,
    }
}

impl IntTy {
    pub fn size_of(&self, word_size: usize) -> (r: usize)
        ensures
            r == int_size(*self, word_size),
    {
        match self {
            IntTy::I8 => 1,
            IntTy::I16 => 2,
            IntTy::I32 => 4,
            IntTy::I64 => 8,
            IntTy::Int => word_size,
        }
    }
}

impl UIntTy {
    pub fn size_of(&self, word_size: usize) -> (r: usize)
        ensures
            r == uint_size(*self, word_size),
    {
        match self {
            UIntTy::U8 => 1,
            UIntTy::U16 => 2,
            UIntTy::U32 => 4,
            UIntTy::U64 => 8,
            UIntTy::UInt => word_size,
        }
    }
}

impl FloatTy {
    pub fn size_of(&self, word_size: usize) -> (r: usize)
        ensures
            r == float_size(*self, word_size),
    {
        match self {
            FloatTy::F16 => 2,
            FloatTy::F32 => 4,
            FloatTy::F64 => 8,
            FloatTy::Float => word_size,
        }
    }
}

/// Whether `ptr` is an array of `elem`.
fn is_array_of(ptr: &TyKind, elem: &TyKind) -> (r: bool)
    ensures
        r == array_of(ptr@, elem@),
{
    match ptr {
        TyKind::Array(inner, _) => inner.same_shape(elem),
        _ => false,
    }
}

fn by_size_exec(left: usize, right: usize) -> (r: CoercionResult)
    ensures
        r == by_size(left, right),
{
    if left <= right {
        CoercionResult::CoerceToRight
    } else {
        CoercionResult::CoerceToLeft
    }
}

impl TyKind {
    /// The implicit conversion allowed between `self` (left) and `to` (right)
    /// on a target whose word is `word_size` bytes.
    pub fn try_coerce(&self, to: &TyKind, word_size: usize) -> (r: CoercionResult)
        ensures
            r == coercion(self@, to@, word_size),
    {
        match (self, to) {
            (TyKind::Int(l), TyKind::Int(r)) => by_size_exec(l.size_of(word_size), r.size_of(word_size)),
            (TyKind::UInt(l), TyKind::UInt(r)) => by_size_exec(
                l.size_of(word_size),
                r.size_of(word_size),
            ),
            (TyKind::Float(l), TyKind::Float(r)) => by_size_exec(
                l.size_of(word_size),
                r.size_of(word_size),
            ),
            (TyKind::Pointer(t, lm), TyKind::Slice(e, rm)) => if can_coerce_mut(*lm, *rm)
                && is_array_of(t, e) {
                CoercionResult::CoerceToRight
            } else {
                CoercionResult::NoCoercion
            },
            (TyKind::Slice(e, lm), TyKind::Pointer(t, rm)) => if can_coerce_mut(*rm, *lm)
                && is_array_of(t, e) {
                CoercionResult::CoerceToLeft
            } else {
                CoercionResult::NoCoercion
            },
            (TyKind::Pointer(t, lm), TyKind::MultiPointer(e, rm)) => if can_coerce_mut(*lm, *rm)
                && is_array_of(t, e) {
                CoercionResult::CoerceToRight
            } else {
                CoercionResult::NoCoercion
            },
            (TyKind::MultiPointer(e, lm), TyKind::Pointer(t, rm)) => if can_coerce_mut(*rm, *lm)
                && is_array_of(t, e) {
                CoercionResult::CoerceToLeft
            } else {
                CoercionResult::NoCoercion
            },
            _ => CoercionResult::NoCoercion,
        }
    }
}

} // verus!
