//! Densely numbered entity references.
//!
//! Instructions, extended basic blocks and SSA values are referred to by small
//! integer handles. A handle is only meaningful within the function it belongs to.

use crate::text::push_decimal;
use vstd::prelude::*;
use vstd::string::StringExecFns;

verus! {

/// A reference to an instruction.
#[derive(Copy, Clone, PartialEq, Eq, Structural, Debug, Hash)]
pub struct Inst(pub u32);

/// A reference to an extended basic block.
#[derive(Copy, Clone, PartialEq, Eq, Structural, Debug, Hash)]
pub struct Ebb(pub u32);

/// A reference to an SSA value.
#[derive(Copy, Clone, PartialEq, Eq, Structural, Debug, Hash)]
pub struct Value(pub u32);

/// A reference to a jump table.
#[derive(Copy, Clone, PartialEq, Eq, Structural, Debug, Hash)]
pub struct JumpTable(pub u32);

impl Inst {
    /// Create an instruction reference from its number.
    pub fn new(index: usize) -> (r: Inst)
        requires
            index < u32::MAX,
        ensures
            r.0 == index,
    {
        Inst(index as u32)
    }

    /// The number of this instruction.
    pub fn index(self) -> (r: usize)
        ensures
            r == self.0,
    {
        self.0 as usize
    }
}

impl Ebb {
    /// Create a block reference from its number.
    pub fn new(index: usize) -> (r: Ebb)
        requires
            index < u32::MAX,
        ensures
            r.0 == index,
    {
        Ebb(index as u32)
    }

    /// The number of this block.
    pub fn index(self) -> (r: usize)
        ensures
            r == self.0,
    {
        self.0 as usize
    }
}

impl Value {
    /// Create a value reference from its number.
    pub fn new(index: usize) -> (r: Value)
        requires
            index < u32::MAX,
        ensures
            r.0 == index,
    {
        Value(index as u32)
    }

    /// The number of this value.
    pub fn index(self) -> (r: usize)
        ensures
            r == self.0,
    {
        self.0 as usize
    }
}

/// The text of a value: `v` and its number.
pub open spec fn value_text(v: Value) -> Seq<char> {
    "v"@ + crate::text::decimal_text(v.0 as nat)
}

/// The text of a block: `ebb` and its number.
pub open spec fn ebb_text(ebb: Ebb) -> Seq<char> {
    "ebb"@ + crate::text::decimal_text(ebb.0 as nat)
}

/// The text of an instruction: `inst` and its number.
pub open spec fn inst_text(inst: Inst) -> Seq<char> {
    "inst"@ + crate::text::decimal_text(inst.0 as nat)
}

impl Value {
    /// Write the value: `v` and its number.
    pub fn to_string(&self) -> (r: String)
        ensures
            r@ == value_text(*self),
    {
        let mut out = String::from_str("v");
        push_decimal(&mut out, self.0 as u64);
        out
    }
}

impl Ebb {
    /// Write the block: `ebb` and its number.
    pub fn to_string(&self) -> (r: String)
        ensures
            r@ == ebb_text(*self),
    {
        let mut out = String::from_str("ebb");
        push_decimal(&mut out, self.0 as u64);
        out
    }
}

impl Inst {
    /// Write the instruction: `inst` and its number.
    pub fn to_string(&self) -> (r: String)
        ensures
            r@ == inst_text(*self),
    {
        let mut out = String::from_str("inst");
        push_decimal(&mut out, self.0 as u64);
        out
    }
}

} // verus!
