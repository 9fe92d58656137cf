use vstd::prelude::*;

verus! {

/// How a value is passed across a foreign-function boundary.
#[derive(Debug, Clone, Copy, PartialEq, Eq, Structural)]
pub enum AbiTyKind {
    Direct,
    Indirect,
    Ignore,
}

impl AbiTyKind {
    pub fn is_direct(&self) -> (r: bool)
        ensures
            r == (*self is Direct),
    {
        match self {
            AbiTyKind::Direct => true,
            _ => false,
        }
    }

    pub fn is_indirect(&self) -> (r: bool)
        ensures
            r == (*self is Indirect),
    {
        match self {
            AbiTyKind::Indirect => true,
            _ => false,
        }
    }

    pub fn is_ignore(&self) -> (r: bool)
        ensures
            r == (*self is Ignore),
    {
        match self {
            AbiTyKind::Ignore => true,
            _ => false,
        }
    }
}

} // verus!
