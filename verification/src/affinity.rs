//! Where a value would like to live.

use vstd::prelude::*;

verus! {

/// The preferred kind of storage for an SSA value.
#[derive(Copy, Clone, PartialEq, Eq, Structural, Debug)]
pub enum Affinity {
    /// No preference has been recorded.
    Unassigned,
    /// The value wants a stack slot.
    Stack,
    /// The value wants a register of the class with this number.
    Reg(u8),
}

impl Default for Affinity {
    fn default() -> (r: Affinity)
        ensures
            r == Affinity::Unassigned,
    {
        Affinity::Unassigned
    }
}

impl Affinity {
    /// Has no preference been recorded?
    pub fn is_unassigned(self) -> (r: bool)
        ensures
            r == (self == Affinity::Unassigned),
    {
        match self {
            Affinity::Unassigned => true,
            _ => false,
        }
    }

    /// Does the value want a register?
    pub fn is_reg(self) -> (r: bool)
        ensures
            r == (self is Reg),
    {
        match self {
            Affinity::Reg(_) => true,
            _ => false,
        }
    }

    /// Does the value want a stack slot?
    pub fn is_stack(self) -> (r: bool)
        ensures
            r == (self == Affinity::Stack),
    {
        match self {
            Affinity::Stack => true,
            _ => false,
        }
    }
}

} // verus!
