//! What a test file holds besides the functions: the comments.

use crate::entity::{Ebb, Inst, JumpTable, Value};
use vstd::prelude::*;

verus! {

/// A reference to any of the entities of a function.
#[derive(Copy, Clone, PartialEq, Eq, Structural, Debug)]
pub enum AnyEntity {
    /// The function itself.
    Function,
    /// A block.
    Ebb(Ebb),
    /// An instruction.
    Inst(Inst),
    /// A value.
    Value(Value),
    /// A jump table.
    JumpTable(JumpTable),
}

/// A comment in a function that was read from text.
///
/// A comment belongs to the entity that comes just before it. Comments before
/// the first entity of a function, and those after the function, belong to the
/// function itself.
#[derive(Copy, Clone, PartialEq, Eq, Debug)]
pub struct Comment<'a> {
    /// The entity that the comment belongs to.
    pub entity: AnyEntity,
    /// The text of the comment, with the semicolon that begins it.
    pub text: &'a str,
}

} // verus!
