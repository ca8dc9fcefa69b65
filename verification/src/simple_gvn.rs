//! Global value numbering, the simple way.
//!
//! The blocks of a function are gone through in an order in which a block comes
//! after the blocks that dominate it. An instruction that computes what an
//! instruction before it has computed already, at a place that dominates it, is
//! replaced by the result of that one. What is decided for one instruction is
//! decided here; the pass over the function carries it out.

use crate::entity::Inst;
use crate::instructions::Opcode;
use vstd::prelude::*;

verus! {

/// Does an instruction with this opcode leave its block, or may it?
pub open spec fn is_branch(opcode: Opcode) -> bool {
    opcode == Opcode::Jump || opcode == Opcode::Fallthrough || opcode == Opcode::Brz || opcode
        == Opcode::Brnz || opcode == Opcode::Brif || opcode == Opcode::Brff || opcode
        == Opcode::BrTable
}

/// Does an instruction with this opcode end its block?
pub open spec fn is_terminator(opcode: Opcode) -> bool {
    opcode == Opcode::Jump || opcode == Opcode::Fallthrough || opcode == Opcode::BrTable
        || opcode == Opcode::Trap || opcode == Opcode::Return
}

/// May an instruction with this opcode trap?
pub open spec fn can_trap(opcode: Opcode) -> bool {
    opcode == Opcode::Trap || opcode == Opcode::Trapz || opcode == Opcode::Trapnz || opcode
        == Opcode::Udiv || opcode == Opcode::Sdiv || opcode == Opcode::Urem || opcode
        == Opcode::Srem || opcode == Opcode::UdivImm || opcode == Opcode::SdivImm || opcode
        == Opcode::UremImm || opcode == Opcode::SremImm
}

/// Must an instruction with this opcode stay where it is and as often as it is:
/// is it a call, a branch, a terminator or a return, or may it trap?
pub open spec fn is_unsafe_for_gvn(opcode: Opcode) -> bool {
    opcode == Opcode::Call || is_branch(opcode) || is_terminator(opcode) || can_trap(opcode)
}

/// Is an instruction with this opcode one that value numbering leaves alone
/// without a look at what it computes?
pub fn trivially_unsafe_for_gvn(opcode: Opcode) -> (r: bool)
    ensures
        r == is_unsafe_for_gvn(opcode),
{
    match opcode {
        Opcode::Call => true,
        Opcode::Jump
        | Opcode::Fallthrough
        | Opcode::Brz
        | Opcode::Brnz
        | Opcode::Brif
        | Opcode::Brff
        | Opcode::BrTable => true,
        Opcode::Trap | Opcode::Return => true,
        Opcode::Trapz | Opcode::Trapnz => true,
        Opcode::Udiv
        | Opcode::Sdiv
        | Opcode::Urem
        | Opcode::Srem
        | Opcode::UdivImm
        | Opcode::SdivImm
        | Opcode::UremImm
        | Opcode::SremImm => true,
        _ => false,
    }
}

/// What value numbering does with an instruction.
#[derive(Copy, Clone, PartialEq, Eq, Structural, Debug)]
pub enum GvnAction {
    /// The instruction is passed over.
    Skip,
    /// The instruction is the first that computes its value: it is kept in
    /// mind for those that follow.
    Remember,
    /// An instruction that dominates this one computes the same: the results of
    /// this one become aliases of its results, and this one is removed.
    ReplaceWith(Inst),
    /// An instruction computes the same, but does not dominate this one, nor
    /// any that follows: this one is kept in mind in its place.
    Supersede,
}

/// What value numbering does with an instruction, given its opcode, the
/// instruction that was kept in mind for the value that it computes, if there
/// is one, and whether that one dominates it.
pub open spec fn gvn_action_of(opcode: Opcode, prior: Option<Inst>, dominates: bool) -> GvnAction {
    if is_unsafe_for_gvn(opcode) {
        GvnAction::Skip
    } else {
        match prior {
            Some(inst) => if dominates {
                GvnAction::ReplaceWith(inst)
            } else {
                GvnAction::Supersede
            },
            None => GvnAction::Remember,
        }
    }
}

/// Decide what value numbering does with an instruction.
pub fn gvn_action(opcode: Opcode, prior: Option<Inst>, dominates: bool) -> (r: GvnAction)
    ensures
        r == gvn_action_of(opcode, prior, dominates),
{
    if trivially_unsafe_for_gvn(opcode) {
        return GvnAction::Skip;
    }
    match prior {
        Some(inst) => {
            if dominates {
                GvnAction::ReplaceWith(inst)
            } else {
                GvnAction::Supersede
            }
        },
        None => GvnAction::Remember,
    }
}

} // verus!
