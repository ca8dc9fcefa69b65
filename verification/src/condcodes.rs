//! Condition codes: the ways in which two numbers can be compared.

use vstd::prelude::*;

verus! {

/// A condition on two integers.
#[derive(Copy, Clone, PartialEq, Eq, Structural, Debug, Hash)]
pub enum IntCC {
    /// `==`.
    Equal,
    /// `!=`.
    NotEqual,
    /// Signed `<`.
    SignedLessThan,
    /// Signed `>=`.
    SignedGreaterThanOrEqual,
    /// Signed `>`.
    SignedGreaterThan,
    /// Signed `<=`.
    SignedLessThanOrEqual,
    /// Unsigned `<`.
    UnsignedLessThan,
    /// Unsigned `>=`.
    UnsignedGreaterThanOrEqual,
    /// Unsigned `>`.
    UnsignedGreaterThan,
    /// Unsigned `<=`.
    UnsignedLessThanOrEqual,
}

impl IntCC {
    /// Does the condition hold of `x` and `y`, two 64-bit numbers given by their
    /// signed reading? The unsigned conditions compare their bits.
    pub open spec fn holds(self, x: i64, y: i64) -> bool {
        let ux = crate::immediates::bits_of(x);
        let uy = crate::immediates::bits_of(y);
        match self {
            IntCC::Equal => x == y,
            IntCC::NotEqual => x != y,
            IntCC::SignedLessThan => x < y,
            IntCC::SignedGreaterThanOrEqual => x >= y,
            IntCC::SignedGreaterThan => x > y,
            IntCC::SignedLessThanOrEqual => x <= y,
            IntCC::UnsignedLessThan => ux < uy,
            IntCC::UnsignedGreaterThanOrEqual => ux >= uy,
            IntCC::UnsignedGreaterThan => ux > uy,
            IntCC::UnsignedLessThanOrEqual => ux <= uy,
        }
    }

    /// The condition that holds exactly where this one does not.
    pub open spec fn inverted(self) -> IntCC {
        match self {
            IntCC::Equal => IntCC::NotEqual,
            IntCC::NotEqual => IntCC::Equal,
            IntCC::SignedLessThan => IntCC::SignedGreaterThanOrEqual,
            IntCC::SignedGreaterThanOrEqual => IntCC::SignedLessThan,
            IntCC::SignedGreaterThan => IntCC::SignedLessThanOrEqual,
            IntCC::SignedLessThanOrEqual => IntCC::SignedGreaterThan,
            IntCC::UnsignedLessThan => IntCC::UnsignedGreaterThanOrEqual,
            IntCC::UnsignedGreaterThanOrEqual => IntCC::UnsignedLessThan,
            IntCC::UnsignedGreaterThan => IntCC::UnsignedLessThanOrEqual,
            IntCC::UnsignedLessThanOrEqual => IntCC::UnsignedGreaterThan,
        }
    }

    /// The condition that holds exactly where this one does not.
    pub fn inverse(self) -> (r: IntCC)
        ensures
            r == self.inverted(),
    {
        match self {
            IntCC::Equal => IntCC::NotEqual,
            IntCC::NotEqual => IntCC::Equal,
            IntCC::SignedLessThan => IntCC::SignedGreaterThanOrEqual,
            IntCC::SignedGreaterThanOrEqual => IntCC::SignedLessThan,
            IntCC::SignedGreaterThan => IntCC::SignedLessThanOrEqual,
            IntCC::SignedLessThanOrEqual => IntCC::SignedGreaterThan,
            IntCC::UnsignedLessThan => IntCC::UnsignedGreaterThanOrEqual,
            IntCC::UnsignedGreaterThanOrEqual => IntCC::UnsignedLessThan,
            IntCC::UnsignedGreaterThan => IntCC::UnsignedLessThanOrEqual,
            IntCC::UnsignedLessThanOrEqual => IntCC::UnsignedGreaterThan,
        }
    }
}

/// The inverse of a condition holds exactly where the condition does not, and
/// the inverse of the inverse is the condition itself.
pub proof fn lemma_int_inverse(cc: IntCC, x: i64, y: i64)
    ensures
        cc.inverted().holds(x, y) == !cc.holds(x, y),
        cc.inverted().inverted() == cc,
{
}

/// How two floating point numbers stand to each other.
#[derive(Copy, Clone, PartialEq, Eq, Structural, Debug, Hash)]
pub enum FloatOrder {
    /// One of them is not a number.
    Unordered,
    /// They are equal.
    Equal,
    /// The first is less than the second.
    Less,
    /// The first is greater than the second.
    Greater,
}

/// A condition on two floating point numbers.
#[derive(Copy, Clone, PartialEq, Eq, Structural, Debug, Hash)]
pub enum FloatCC {
    /// Both are numbers.
    Ordered,
    /// One of them is not a number.
    Unordered,
    /// `==`.
    Equal,
    /// Unordered or `!=`.
    NotEqual,
    /// `<` or `>`.
    OrderedNotEqual,
    /// Unordered or `==`.
    UnorderedOrEqual,
    /// `<`.
    LessThan,
    /// `<=`.
    LessThanOrEqual,
    /// `>`.
    GreaterThan,
    /// `>=`.
    GreaterThanOrEqual,
    /// Unordered or `<`.
    UnorderedOrLessThan,
    /// Unordered or `<=`.
    UnorderedOrLessThanOrEqual,
    /// Unordered or `>`.
    UnorderedOrGreaterThan,
    /// Unordered or `>=`.
    UnorderedOrGreaterThanOrEqual,
}

impl FloatCC {
    /// Does the condition hold of two numbers that stand to each other as `order` says?
    pub open spec fn holds(self, order: FloatOrder) -> bool {
        match self {
            FloatCC::Ordered => order != FloatOrder::Unordered,
            FloatCC::Unordered => order == FloatOrder::Unordered,
            FloatCC::Equal => order == FloatOrder::Equal,
            FloatCC::NotEqual => order != FloatOrder::Equal,
            FloatCC::OrderedNotEqual => order == FloatOrder::Less || order == FloatOrder::Greater,
            FloatCC::UnorderedOrEqual => order == FloatOrder::Unordered || order
                == FloatOrder::Equal,
            FloatCC::LessThan => order == FloatOrder::Less,
            FloatCC::LessThanOrEqual => order == FloatOrder::Less || order == FloatOrder::Equal,
            FloatCC::GreaterThan => order == FloatOrder::Greater,
            FloatCC::GreaterThanOrEqual => order == FloatOrder::Greater || order
                == FloatOrder::Equal,
            FloatCC::UnorderedOrLessThan => order == FloatOrder::Unordered || order
                == FloatOrder::Less,
            FloatCC::UnorderedOrLessThanOrEqual => order != FloatOrder::Greater,
            FloatCC::UnorderedOrGreaterThan => order == FloatOrder::Unordered || order
                == FloatOrder::Greater,
            FloatCC::UnorderedOrGreaterThanOrEqual => order != FloatOrder::Less,
        }
    }

    /// The condition that holds exactly where this one does not.
    pub open spec fn inverted(self) -> FloatCC {
        match self {
            FloatCC::Ordered => FloatCC::Unordered,
            FloatCC::Unordered => FloatCC::Ordered,
            FloatCC::Equal => FloatCC::NotEqual,
            FloatCC::NotEqual => FloatCC::Equal,
            FloatCC::OrderedNotEqual => FloatCC::UnorderedOrEqual,
            FloatCC::UnorderedOrEqual => FloatCC::OrderedNotEqual,
            FloatCC::LessThan => FloatCC::UnorderedOrGreaterThanOrEqual,
            FloatCC::LessThanOrEqual => FloatCC::UnorderedOrGreaterThan,
            FloatCC::GreaterThan => FloatCC::UnorderedOrLessThanOrEqual,
            FloatCC::GreaterThanOrEqual => FloatCC::UnorderedOrLessThan,
            FloatCC::UnorderedOrLessThan => FloatCC::GreaterThanOrEqual,
            FloatCC::UnorderedOrLessThanOrEqual => FloatCC::GreaterThan,
            FloatCC::UnorderedOrGreaterThan => FloatCC::LessThanOrEqual,
            FloatCC::UnorderedOrGreaterThanOrEqual => FloatCC::LessThan,
        }
    }

    /// The condition that holds exactly where this one does not.
    pub fn inverse(self) -> (r: FloatCC)
        ensures
            r == self.inverted(),
    {
        match self {
            FloatCC::Ordered => FloatCC::Unordered,
            FloatCC::Unordered => FloatCC::Ordered,
            FloatCC::Equal => FloatCC::NotEqual,
            FloatCC::NotEqual => FloatCC::Equal,
            FloatCC::OrderedNotEqual => FloatCC::UnorderedOrEqual,
            FloatCC::UnorderedOrEqual => FloatCC::OrderedNotEqual,
            FloatCC::LessThan => FloatCC::UnorderedOrGreaterThanOrEqual,
            FloatCC::LessThanOrEqual => FloatCC::UnorderedOrGreaterThan,
            FloatCC::GreaterThan => FloatCC::UnorderedOrLessThanOrEqual,
            FloatCC::GreaterThanOrEqual => FloatCC::UnorderedOrLessThan,
            FloatCC::UnorderedOrLessThan => FloatCC::GreaterThanOrEqual,
            FloatCC::UnorderedOrLessThanOrEqual => FloatCC::GreaterThan,
            FloatCC::UnorderedOrGreaterThan => FloatCC::LessThanOrEqual,
            FloatCC::UnorderedOrGreaterThanOrEqual => FloatCC::LessThan,
        }
    }
}

/// The inverse of a condition holds exactly where the condition does not, and
/// the inverse of the inverse is the condition itself.
pub proof fn lemma_float_inverse(cc: FloatCC, order: FloatOrder)
    ensures
        cc.inverted().holds(order) == !cc.holds(order),
        cc.inverted().inverted() == cc,
{
}

} // verus!
