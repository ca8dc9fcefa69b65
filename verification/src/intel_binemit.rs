//! Emitting binary machine code for Intel targets.

use crate::binemit::CodeSink;
use vstd::prelude::*;

verus! {

/// The number of a register unit.
pub type RegUnit = u16;

/// The opcode byte of an encoding with a one-byte opcode: the low byte of the
/// encoding bits.
pub open spec fn op1_byte(bits: u16) -> u8 {
    (bits & 0xff) as u8
}

/// The ModR/M byte for two registers: both mode bits set, then the three low
/// bits of `reg`, then the three low bits of `rm`.
pub open spec fn modrm_byte(rm: u16, reg: u16) -> u8 {
    (0xc0 | ((reg & 7) << 3) | (rm & 7)) as u8
}

/// The three bits of the encoding bits that stand in the register field of the
/// ModR/M byte where the opcode reaches into it: bits 12 to 14.
pub open spec fn opcode_reg_bits(bits: u16) -> u16 {
    (bits >> 12) & 7
}

/// Emit the opcode byte of an encoding with a one-byte opcode.
pub fn put_op1<CS: CodeSink>(bits: u16, sink: &mut CS)
    requires
        bits & 0x0f00 == 0,
        old(sink).written().len() + 1 <= u32::MAX,
    ensures
        final(sink).written() == old(sink).written().push(op1_byte(bits)),
{
    let low: u16 = bits & 0xff;
    assert(low <= 0xff) by (bit_vector)
        requires
            low == bits & 0xff,
    ;
    sink.put1(low as u8);
}

/// Emit a ModR/M byte for two register operands.
pub fn modrm_rr<CS: CodeSink>(rm: RegUnit, reg: RegUnit, sink: &mut CS)
    requires
        old(sink).written().len() + 1 <= u32::MAX,
    ensures
        final(sink).written() == old(sink).written().push(modrm_byte(rm, reg)),
{
    let b: u16 = 0xc0 | ((reg & 7) << 3) | (rm & 7);
    assert(b <= 0xff) by (bit_vector)
        requires
            b == 0xc0 | ((reg & 7) << 3) | (rm & 7),
    ;
    sink.put1(b as u8);
}

/// Emit a ModR/M byte whose register field is part of the opcode.
pub fn modrm_r_bits<CS: CodeSink>(rm: RegUnit, bits: u16, sink: &mut CS)
    requires
        old(sink).written().len() + 1 <= u32::MAX,
    ensures
        final(sink).written() == old(sink).written().push(modrm_byte(rm, opcode_reg_bits(bits))),
{
    let reg: u16 = (bits >> 12) & 7;
    modrm_rr(rm, reg, sink);
}

/// Emit an instruction with a one-byte opcode and two register operands. `bits`
/// are the encoding bits of the instruction, and `rm` and `reg` the registers of
/// its first and second operand.
pub fn recipe_op1rr<CS: CodeSink>(bits: u16, rm: RegUnit, reg: RegUnit, sink: &mut CS)
    requires
        bits & 0x0f00 == 0,
        old(sink).written().len() + 2 <= u32::MAX,
    ensures
        final(sink).written() == old(sink).written().push(op1_byte(bits)).push(
            modrm_byte(rm, reg),
        ),
{
    put_op1(bits, sink);
    modrm_rr(rm, reg, sink);
}

/// Emit an instruction with a one-byte opcode that reaches into the ModR/M
/// byte, and one register operand.
pub fn recipe_op1rc<CS: CodeSink>(bits: u16, rm: RegUnit, sink: &mut CS)
    requires
        bits & 0x0f00 == 0,
        old(sink).written().len() + 2 <= u32::MAX,
    ensures
        final(sink).written() == old(sink).written().push(op1_byte(bits)).push(
            modrm_byte(rm, opcode_reg_bits(bits)),
        ),
{
    put_op1(bits, sink);
    modrm_r_bits(rm, bits, sink);
}

} // verus!
