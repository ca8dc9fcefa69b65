//! The types of SSA values.

use vstd::prelude::*;

verus! {

/// The type of an SSA value.
#[derive(Copy, Clone, PartialEq, Eq, Structural, Debug, Hash)]
pub enum Type {
    /// No type: the type of the result of an instruction that has none.
    Void,
    /// A boolean.
    B1,
    /// An 8-bit integer.
    I8,
    /// A 16-bit integer.
    I16,
    /// A 32-bit integer.
    I32,
    /// A 64-bit integer.
    I64,
}

/// The number of bits of a value of a type; none for the void type.
pub open spec fn type_bits(ty: Type) -> u8 {
    match ty {
        Type::Void => 0,
        Type::B1 => 1,
        Type::I8 => 8,
        Type::I16 => 16,
        Type::I32 => 32,
        Type::I64 => 64,
    }
}

/// The number of a type.
pub open spec fn type_index(ty: Type) -> usize {
    match ty {
        Type::Void => 0,
        Type::B1 => 1,
        Type::I8 => 2,
        Type::I16 => 3,
        Type::I32 => 4,
        Type::I64 => 5,
    }
}

impl Type {
    /// The number of the type.
    pub fn index(self) -> (r: usize)
        ensures
            r == type_index(self),
    {
        match self {
            Type::Void => 0,
            Type::B1 => 1,
            Type::I8 => 2,
            Type::I16 => 3,
            Type::I32 => 4,
            Type::I64 => 5,
        }
    }

    /// The number of bits of a value of the type; none for the void type.
    pub fn bits(self) -> (r: u8)
        ensures
            r == type_bits(self),
    {
        match self {
            Type::Void => 0,
            Type::B1 => 1,
            Type::I8 => 8,
            Type::I16 => 16,
            Type::I32 => 32,
            Type::I64 => 64,
        }
    }

    /// Is this an integer type?
    pub fn is_int(self) -> (r: bool)
        ensures
            r == (type_bits(self) >= 8),
    {
        match self {
            Type::I8 | Type::I16 | Type::I32 | Type::I64 => true,
            _ => false,
        }
    }
}

impl crate::constant_hash::TableKey for Type {
    open spec fn key_eq(self, other: Self) -> bool {
        self == other
    }

    fn same_key(self, other: Self) -> (r: bool) {
        self == other
    }
}

/// The signature of a function: the types of its parameters and of its results.
#[derive(Debug)]
pub struct Signature {
    /// The types of the parameters.
    pub params: Vec<Type>,
    /// The types of the results.
    pub returns: Vec<Type>,
}

/// Are two lists of types the same?
fn same_types(a: &Vec<Type>, b: &Vec<Type>) -> (r: bool)
    ensures
        r == (a@ == b@),
{
    if a.len() != b.len() {
        return false;
    }
    let mut i: usize = 0;
    while i < a.len()
        invariant
            i <= a@.len(),
            a@.len() == b@.len(),
            forall|k: int| 0 <= k < i ==> a@[k] == b@[k],
        decreases a@.len() - i,
    {
        if a[i] != b[i] {
            return false;
        }
        i += 1;
    }
    assert(a@ =~= b@);
    true
}

impl Signature {
    /// Do the two signatures have the same parameters and the same results?
    pub open spec fn matches(&self, other: &Signature) -> bool {
        self.params@ == other.params@ && self.returns@ == other.returns@
    }

    /// Do the two signatures have the same parameters and the same results?
    pub fn same(&self, other: &Signature) -> (r: bool)
        ensures
            r == self.matches(other),
    {
        same_types(&self.params, &other.params) && same_types(&self.returns, &other.returns)
    }

    /// A copy of the signature.
    pub fn duplicate(&self) -> (r: Signature)
        ensures
            r.params@ == self.params@,
            r.returns@ == self.returns@,
    {
        Signature {
            params: vstd::slice::slice_to_vec(self.params.as_slice()),
            returns: vstd::slice::slice_to_vec(self.returns.as_slice()),
        }
    }
}

} // verus!
