//! Opcodes, instruction formats and the data of an instruction.

use crate::constant_hash::{probe, simple_hash, Table};
use crate::entity::{Ebb, JumpTable, Value};
use crate::immediates::{Ieee32, Ieee64, Imm64};
use crate::types::Type;
use vstd::prelude::*;
use vstd::string::StringExecFns;

verus! {

/// The shape of an instruction: which operands it has.
#[derive(Copy, Clone, PartialEq, Eq, Structural, Debug, Hash)]
pub enum InstructionFormat {
    /// No operands.
    Nullary,
    /// One value.
    Unary,
    /// One integer immediate.
    UnaryImm,
    /// One 32-bit floating point immediate.
    UnaryIeee32,
    /// One 64-bit floating point immediate.
    UnaryIeee64,
    /// One vector immediate.
    UnaryImmVector,
    /// Two values.
    Binary,
    /// A value and an integer immediate.
    BinaryImm,
    /// An integer immediate and a value.
    BinaryImmRev,
    /// Three values.
    Ternary,
    /// A condition and two values that are compared.
    IntCompare,
    /// A destination block with its arguments.
    Jump,
    /// A value that is tested, and a destination block with its arguments.
    Branch,
    /// An integer condition, flags, and a destination block with its arguments.
    BranchInt,
    /// A floating point condition, flags, and a destination block with its arguments.
    BranchFloat,
    /// A value that selects an entry of a jump table.
    BranchTable,
    /// A callee with its arguments.
    Call,
    /// A value that is tested, and a trap code.
    CondTrap,
}

/// An operation that an instruction can perform.
#[derive(Copy, Clone, PartialEq, Eq, Structural, Debug, Hash)]
pub enum Opcode {
    /// No operation at all: this stands for an empty entry in a table.
    NotAnOpcode,
    /// `jump`.
    Jump,
    /// `fallthrough`.
    Fallthrough,
    /// `brz`.
    Brz,
    /// `brnz`.
    Brnz,
    /// `brif`.
    Brif,
    /// `brff`.
    Brff,
    /// `br_table`.
    BrTable,
    /// `trap`.
    Trap,
    /// `trapz`.
    Trapz,
    /// `trapnz`.
    Trapnz,
    /// `return`.
    Return,
    /// `call`.
    Call,
    /// `iconst`.
    Iconst,
    /// `f32const`.
    F32const,
    /// `f64const`.
    F64const,
    /// `vconst`.
    Vconst,
    /// `select`.
    Select,
    /// `copy`.
    Copy,
    /// `bint`.
    Bint,
    /// `icmp`.
    Icmp,
    /// `iadd`.
    Iadd,
    /// `isub`.
    Isub,
    /// `imul`.
    Imul,
    /// `umulhi`.
    Umulhi,
    /// `smulhi`.
    Smulhi,
    /// `udiv`.
    Udiv,
    /// `sdiv`.
    Sdiv,
    /// `urem`.
    Urem,
    /// `srem`.
    Srem,
    /// `iadd_imm`.
    IaddImm,
    /// `imul_imm`.
    ImulImm,
    /// `udiv_imm`.
    UdivImm,
    /// `sdiv_imm`.
    SdivImm,
    /// `urem_imm`.
    UremImm,
    /// `srem_imm`.
    SremImm,
    /// `irsub_imm`.
    IrsubImm,
    /// `band`.
    Band,
    /// `bor`.
    Bor,
    /// `bxor`.
    Bxor,
    /// `band_imm`.
    BandImm,
    /// `bor_imm`.
    BorImm,
    /// `bxor_imm`.
    BxorImm,
    /// `rotl`.
    Rotl,
    /// `rotr`.
    Rotr,
    /// `rotl_imm`.
    RotlImm,
    /// `rotr_imm`.
    RotrImm,
    /// `ishl`.
    Ishl,
    /// `ushr`.
    Ushr,
    /// `sshr`.
    Sshr,
    /// `ishl_imm`.
    IshlImm,
    /// `ushr_imm`.
    UshrImm,
    /// `sshr_imm`.
    SshrImm,
    /// `ifcmp_imm`.
    IfcmpImm,
}

/// The number of opcodes, `NotAnOpcode` not counted.
pub const OPCODE_COUNT: usize = 53;

/// The number of entries in the hash table of opcode names.
pub const OPCODE_TABLE_SIZE: usize = 64;

/// The name of an opcode as it is written in the text of a function.
pub fn opcode_name(opcode: Opcode) -> (r: &'static str)
    ensures
        r == name_of(opcode),
{
    match opcode {
        Opcode::NotAnOpcode => "<not an opcode>",
        Opcode::Jump => "jump",
        Opcode::Fallthrough => "fallthrough",
        Opcode::Brz => "brz",
        Opcode::Brnz => "brnz",
        Opcode::Brif => "brif",
        Opcode::Brff => "brff",
        Opcode::BrTable => "br_table",
        Opcode::Trap => "trap",
        Opcode::Trapz => "trapz",
        Opcode::Trapnz => "trapnz",
        Opcode::Return => "return",
        Opcode::Call => "call",
        Opcode::Iconst => "iconst",
        Opcode::F32const => "f32const",
        Opcode::F64const => "f64const",
        Opcode::Vconst => "vconst",
        Opcode::Select => "select",
        Opcode::Copy => "copy",
        Opcode::Bint => "bint",
        Opcode::Icmp => "icmp",
        Opcode::Iadd => "iadd",
        Opcode::Isub => "isub",
        Opcode::Imul => "imul",
        Opcode::Umulhi => "umulhi",
        Opcode::Smulhi => "smulhi",
        Opcode::Udiv => "udiv",
        Opcode::Sdiv => "sdiv",
        Opcode::Urem => "urem",
        Opcode::Srem => "srem",
        Opcode::IaddImm => "iadd_imm",
        Opcode::ImulImm => "imul_imm",
        Opcode::UdivImm => "udiv_imm",
        Opcode::SdivImm => "sdiv_imm",
        Opcode::UremImm => "urem_imm",
        Opcode::SremImm => "srem_imm",
        Opcode::IrsubImm => "irsub_imm",
        Opcode::Band => "band",
        Opcode::Bor => "bor",
        Opcode::Bxor => "bxor",
        Opcode::BandImm => "band_imm",
        Opcode::BorImm => "bor_imm",
        Opcode::BxorImm => "bxor_imm",
        Opcode::Rotl => "rotl",
        Opcode::Rotr => "rotr",
        Opcode::RotlImm => "rotl_imm",
        Opcode::RotrImm => "rotr_imm",
        Opcode::Ishl => "ishl",
        Opcode::Ushr => "ushr",
        Opcode::Sshr => "sshr",
        Opcode::IshlImm => "ishl_imm",
        Opcode::UshrImm => "ushr_imm",
        Opcode::SshrImm => "sshr_imm",
        Opcode::IfcmpImm => "ifcmp_imm",
    }
}

/// The name of an opcode as it is written in the text of a function.
pub open spec fn name_of(opcode: Opcode) -> &'static str {
    match opcode {
        Opcode::NotAnOpcode => "<not an opcode>",
        Opcode::Jump => "jump",
        Opcode::Fallthrough => "fallthrough",
        Opcode::Brz => "brz",
        Opcode::Brnz => "brnz",
        Opcode::Brif => "brif",
        Opcode::Brff => "brff",
        Opcode::BrTable => "br_table",
        Opcode::Trap => "trap",
        Opcode::Trapz => "trapz",
        Opcode::Trapnz => "trapnz",
        Opcode::Return => "return",
        Opcode::Call => "call",
        Opcode::Iconst => "iconst",
        Opcode::F32const => "f32const",
        Opcode::F64const => "f64const",
        Opcode::Vconst => "vconst",
        Opcode::Select => "select",
        Opcode::Copy => "copy",
        Opcode::Bint => "bint",
        Opcode::Icmp => "icmp",
        Opcode::Iadd => "iadd",
        Opcode::Isub => "isub",
        Opcode::Imul => "imul",
        Opcode::Umulhi => "umulhi",
        Opcode::Smulhi => "smulhi",
        Opcode::Udiv => "udiv",
        Opcode::Sdiv => "sdiv",
        Opcode::Urem => "urem",
        Opcode::Srem => "srem",
        Opcode::IaddImm => "iadd_imm",
        Opcode::ImulImm => "imul_imm",
        Opcode::UdivImm => "udiv_imm",
        Opcode::SdivImm => "sdiv_imm",
        Opcode::UremImm => "urem_imm",
        Opcode::SremImm => "srem_imm",
        Opcode::IrsubImm => "irsub_imm",
        Opcode::Band => "band",
        Opcode::Bor => "bor",
        Opcode::Bxor => "bxor",
        Opcode::BandImm => "band_imm",
        Opcode::BorImm => "bor_imm",
        Opcode::BxorImm => "bxor_imm",
        Opcode::Rotl => "rotl",
        Opcode::Rotr => "rotr",
        Opcode::RotlImm => "rotl_imm",
        Opcode::RotrImm => "rotr_imm",
        Opcode::Ishl => "ishl",
        Opcode::Ushr => "ushr",
        Opcode::Sshr => "sshr",
        Opcode::IshlImm => "ishl_imm",
        Opcode::UshrImm => "ushr_imm",
        Opcode::SshrImm => "sshr_imm",
        Opcode::IfcmpImm => "ifcmp_imm",
    }
}

/// The format of the instructions with the given opcode.
pub open spec fn format_of(opcode: Opcode) -> InstructionFormat {
    match opcode {
        Opcode::NotAnOpcode => InstructionFormat::Nullary,
        Opcode::Jump => InstructionFormat::Jump,
        Opcode::Fallthrough => InstructionFormat::Jump,
        Opcode::Brz => InstructionFormat::Branch,
        Opcode::Brnz => InstructionFormat::Branch,
        Opcode::Brif => InstructionFormat::BranchInt,
        Opcode::Brff => InstructionFormat::BranchFloat,
        Opcode::BrTable => InstructionFormat::BranchTable,
        Opcode::Trap => InstructionFormat::Nullary,
        Opcode::Trapz => InstructionFormat::CondTrap,
        Opcode::Trapnz => InstructionFormat::CondTrap,
        Opcode::Return => InstructionFormat::Nullary,
        Opcode::Call => InstructionFormat::Call,
        Opcode::Iconst => InstructionFormat::UnaryImm,
        Opcode::F32const => InstructionFormat::UnaryIeee32,
        Opcode::F64const => InstructionFormat::UnaryIeee64,
        Opcode::Vconst => InstructionFormat::UnaryImmVector,
        Opcode::Select => InstructionFormat::Ternary,
        Opcode::Copy => InstructionFormat::Unary,
        Opcode::Bint => InstructionFormat::Unary,
        Opcode::Icmp => InstructionFormat::IntCompare,
        Opcode::Iadd => InstructionFormat::Binary,
        Opcode::Isub => InstructionFormat::Binary,
        Opcode::Imul => InstructionFormat::Binary,
        Opcode::Umulhi => InstructionFormat::Binary,
        Opcode::Smulhi => InstructionFormat::Binary,
        Opcode::Udiv => InstructionFormat::Binary,
        Opcode::Sdiv => InstructionFormat::Binary,
        Opcode::Urem => InstructionFormat::Binary,
        Opcode::Srem => InstructionFormat::Binary,
        Opcode::IaddImm => InstructionFormat::BinaryImm,
        Opcode::ImulImm => InstructionFormat::BinaryImm,
        Opcode::UdivImm => InstructionFormat::BinaryImm,
        Opcode::SdivImm => InstructionFormat::BinaryImm,
        Opcode::UremImm => InstructionFormat::BinaryImm,
        Opcode::SremImm => InstructionFormat::BinaryImm,
        Opcode::IrsubImm => InstructionFormat::BinaryImm,
        Opcode::Band => InstructionFormat::Binary,
        Opcode::Bor => InstructionFormat::Binary,
        Opcode::Bxor => InstructionFormat::Binary,
        Opcode::BandImm => InstructionFormat::BinaryImm,
        Opcode::BorImm => InstructionFormat::BinaryImm,
        Opcode::BxorImm => InstructionFormat::BinaryImm,
        Opcode::Rotl => InstructionFormat::Binary,
        Opcode::Rotr => InstructionFormat::Binary,
        Opcode::RotlImm => InstructionFormat::BinaryImm,
        Opcode::RotrImm => InstructionFormat::BinaryImm,
        Opcode::Ishl => InstructionFormat::Binary,
        Opcode::Ushr => InstructionFormat::Binary,
        Opcode::Sshr => InstructionFormat::Binary,
        Opcode::IshlImm => InstructionFormat::BinaryImm,
        Opcode::UshrImm => InstructionFormat::BinaryImm,
        Opcode::SshrImm => InstructionFormat::BinaryImm,
        Opcode::IfcmpImm => InstructionFormat::BinaryImm,
    }
}

/// The opcode at an entry of the hash table of opcode names; `NotAnOpcode` where
/// the entry is empty.
pub open spec fn table_opcode(idx: usize) -> Opcode {
    match idx {
        0 => Opcode::Imul,
        3 => Opcode::Brif,
        4 => Opcode::Bint,
        7 => Opcode::Sshr,
        8 => Opcode::Urem,
        9 => Opcode::Iconst,
        10 => Opcode::Srem,
        11 => Opcode::SdivImm,
        13 => Opcode::Sdiv,
        14 => Opcode::Brnz,
        15 => Opcode::Fallthrough,
        16 => Opcode::Isub,
        17 => Opcode::UshrImm,
        18 => Opcode::Brff,
        19 => Opcode::Trap,
        20 => Opcode::BandImm,
        21 => Opcode::SshrImm,
        22 => Opcode::Return,
        23 => Opcode::UremImm,
        24 => Opcode::Trapz,
        25 => Opcode::Trapnz,
        26 => Opcode::Udiv,
        27 => Opcode::IaddImm,
        28 => Opcode::SremImm,
        29 => Opcode::Bxor,
        32 => Opcode::Smulhi,
        33 => Opcode::Rotl,
        34 => Opcode::Jump,
        35 => Opcode::BxorImm,
        36 => Opcode::Copy,
        37 => Opcode::IfcmpImm,
        38 => Opcode::Umulhi,
        39 => Opcode::Ushr,
        40 => Opcode::F32const,
        41 => Opcode::UdivImm,
        43 => Opcode::Rotr,
        44 => Opcode::BrTable,
        45 => Opcode::F64const,
        46 => Opcode::Iadd,
        47 => Opcode::IrsubImm,
        48 => Opcode::Bor,
        49 => Opcode::Ishl,
        50 => Opcode::Vconst,
        51 => Opcode::Call,
        52 => Opcode::IshlImm,
        53 => Opcode::Icmp,
        54 => Opcode::ImulImm,
        56 => Opcode::RotrImm,
        59 => Opcode::Band,
        60 => Opcode::Select,
        61 => Opcode::Brz,
        62 => Opcode::BorImm,
        63 => Opcode::RotlImm,
        _ => Opcode::NotAnOpcode,
    }
}

/// The opcode at an entry of the hash table of opcode names.
fn hash_table_entry(idx: usize) -> (r: Opcode)
    ensures
        r == table_opcode(idx),
{
    match idx {
        0 => Opcode::Imul,
        3 => Opcode::Brif,
        4 => Opcode::Bint,
        7 => Opcode::Sshr,
        8 => Opcode::Urem,
        9 => Opcode::Iconst,
        10 => Opcode::Srem,
        11 => Opcode::SdivImm,
        13 => Opcode::Sdiv,
        14 => Opcode::Brnz,
        15 => Opcode::Fallthrough,
        16 => Opcode::Isub,
        17 => Opcode::UshrImm,
        18 => Opcode::Brff,
        19 => Opcode::Trap,
        20 => Opcode::BandImm,
        21 => Opcode::SshrImm,
        22 => Opcode::Return,
        23 => Opcode::UremImm,
        24 => Opcode::Trapz,
        25 => Opcode::Trapnz,
        26 => Opcode::Udiv,
        27 => Opcode::IaddImm,
        28 => Opcode::SremImm,
        29 => Opcode::Bxor,
        32 => Opcode::Smulhi,
        33 => Opcode::Rotl,
        34 => Opcode::Jump,
        35 => Opcode::BxorImm,
        36 => Opcode::Copy,
        37 => Opcode::IfcmpImm,
        38 => Opcode::Umulhi,
        39 => Opcode::Ushr,
        40 => Opcode::F32const,
        41 => Opcode::UdivImm,
        43 => Opcode::Rotr,
        44 => Opcode::BrTable,
        45 => Opcode::F64const,
        46 => Opcode::Iadd,
        47 => Opcode::IrsubImm,
        48 => Opcode::Bor,
        49 => Opcode::Ishl,
        50 => Opcode::Vconst,
        51 => Opcode::Call,
        52 => Opcode::IshlImm,
        53 => Opcode::Icmp,
        54 => Opcode::ImulImm,
        56 => Opcode::RotrImm,
        59 => Opcode::Band,
        60 => Opcode::Select,
        61 => Opcode::Brz,
        62 => Opcode::BorImm,
        63 => Opcode::RotlImm,
        _ => Opcode::NotAnOpcode,
    }
}

/// The hash table of opcode names.
pub struct OpcodeTable {}

impl<'a> Table<&'a str> for OpcodeTable {
    open spec fn entries(&self) -> Seq<Option<&'a str>> {
        Seq::new(
            OPCODE_TABLE_SIZE as nat,
            |i: int|
                if table_opcode(i as usize) == Opcode::NotAnOpcode {
                    None
                } else {
                    Some(name_of(table_opcode(i as usize)))
                },
        )
    }

    fn len(&self) -> (r: usize) {
        OPCODE_TABLE_SIZE
    }

    fn key(&self, idx: usize) -> (r: Option<&'a str>) {
        let entry = hash_table_entry(idx);
        match entry {
            Opcode::NotAnOpcode => None,
            _ => Some(opcode_name(entry)),
        }
    }
}

/// The opcode that the hash table gives for a name, if it gives one.
pub open spec fn opcode_of_text(s: &str) -> Option<Opcode> {
    match crate::constant_hash::probe_from(
        (OpcodeTable {}).entries(),
        s,
        crate::constant_hash::hash_of(s@) as usize,
        0,
    ) {
        Ok(idx) => Some(table_opcode(idx)),
        Err(_) => None,
    }
}

impl Opcode {
    /// The format of the instructions with this opcode; none for `NotAnOpcode`.
    pub fn format(self) -> (r: Option<InstructionFormat>)
        ensures
            r == (if self == Opcode::NotAnOpcode {
                None
            } else {
                Some(format_of(self))
            }),
    {
        match self {
            Opcode::NotAnOpcode => None,
        Opcode::Jump => Some(InstructionFormat::Jump),
        Opcode::Fallthrough => Some(InstructionFormat::Jump),
        Opcode::Brz => Some(InstructionFormat::Branch),
        Opcode::Brnz => Some(InstructionFormat::Branch),
        Opcode::Brif => Some(InstructionFormat::BranchInt),
        Opcode::Brff => Some(InstructionFormat::BranchFloat),
        Opcode::BrTable => Some(InstructionFormat::BranchTable),
        Opcode::Trap => Some(InstructionFormat::Nullary),
        Opcode::Trapz => Some(InstructionFormat::CondTrap),
        Opcode::Trapnz => Some(InstructionFormat::CondTrap),
        Opcode::Return => Some(InstructionFormat::Nullary),
        Opcode::Call => Some(InstructionFormat::Call),
        Opcode::Iconst => Some(InstructionFormat::UnaryImm),
        Opcode::F32const => Some(InstructionFormat::UnaryIeee32),
        Opcode::F64const => Some(InstructionFormat::UnaryIeee64),
        Opcode::Vconst => Some(InstructionFormat::UnaryImmVector),
        Opcode::Select => Some(InstructionFormat::Ternary),
        Opcode::Copy => Some(InstructionFormat::Unary),
        Opcode::Bint => Some(InstructionFormat::Unary),
        Opcode::Icmp => Some(InstructionFormat::IntCompare),
        Opcode::Iadd => Some(InstructionFormat::Binary),
        Opcode::Isub => Some(InstructionFormat::Binary),
        Opcode::Imul => Some(InstructionFormat::Binary),
        Opcode::Umulhi => Some(InstructionFormat::Binary),
        Opcode::Smulhi => Some(InstructionFormat::Binary),
        Opcode::Udiv => Some(InstructionFormat::Binary),
        Opcode::Sdiv => Some(InstructionFormat::Binary),
        Opcode::Urem => Some(InstructionFormat::Binary),
        Opcode::Srem => Some(InstructionFormat::Binary),
        Opcode::IaddImm => Some(InstructionFormat::BinaryImm),
        Opcode::ImulImm => Some(InstructionFormat::BinaryImm),
        Opcode::UdivImm => Some(InstructionFormat::BinaryImm),
        Opcode::SdivImm => Some(InstructionFormat::BinaryImm),
        Opcode::UremImm => Some(InstructionFormat::BinaryImm),
        Opcode::SremImm => Some(InstructionFormat::BinaryImm),
        Opcode::IrsubImm => Some(InstructionFormat::BinaryImm),
        Opcode::Band => Some(InstructionFormat::Binary),
        Opcode::Bor => Some(InstructionFormat::Binary),
        Opcode::Bxor => Some(InstructionFormat::Binary),
        Opcode::BandImm => Some(InstructionFormat::BinaryImm),
        Opcode::BorImm => Some(InstructionFormat::BinaryImm),
        Opcode::BxorImm => Some(InstructionFormat::BinaryImm),
        Opcode::Rotl => Some(InstructionFormat::Binary),
        Opcode::Rotr => Some(InstructionFormat::Binary),
        Opcode::RotlImm => Some(InstructionFormat::BinaryImm),
        Opcode::RotrImm => Some(InstructionFormat::BinaryImm),
        Opcode::Ishl => Some(InstructionFormat::Binary),
        Opcode::Ushr => Some(InstructionFormat::Binary),
        Opcode::Sshr => Some(InstructionFormat::Binary),
        Opcode::IshlImm => Some(InstructionFormat::BinaryImm),
        Opcode::UshrImm => Some(InstructionFormat::BinaryImm),
        Opcode::SshrImm => Some(InstructionFormat::BinaryImm),
        Opcode::IfcmpImm => Some(InstructionFormat::BinaryImm,)
        }
    }

    /// The name of the opcode.
    pub fn to_string(&self) -> (r: String)
        ensures
            r@ == name_of(*self)@,
    {
        String::from_str(opcode_name(*self))
    }

    /// Read an opcode from its name.
    ///
    /// The name is looked up in the hash table of opcode names. An opcode that is
    /// returned has the name that was given, and is never `NotAnOpcode`.
    pub fn from_name(s: &str) -> (r: Result<Opcode, &'static str>)
        ensures
            (match opcode_of_text(s) {
                Some(opcode) => r == Ok::<Opcode, &'static str>(opcode),
                None => r is Err && r->Err_0@ == "Unknown opcode"@,
            }),
            r is Ok ==> r->Ok_0 != Opcode::NotAnOpcode && name_of(r->Ok_0)@ == s@,
    {
        let table = OpcodeTable {};
        assert(64usize & 63usize == 0) by (bit_vector);
        assert(table.entries().len() == OPCODE_TABLE_SIZE);
        match probe(&table, s, simple_hash(s) as usize) {
            Ok(idx) => Ok(hash_table_entry(idx)),
            Err(_) => Err("Unknown opcode"),
        }
    }
}

impl std::str::FromStr for Opcode {
    type Err = &'static str;

    /// Read an opcode from its name: the opcode that the hash table of opcode
    /// names gives for it, which has the name that was given, or `Unknown opcode`
    /// where the table gives none.
    fn from_str(s: &str) -> (r: Result<Opcode, &'static str>)
        ensures
            (match opcode_of_text(s) {
                Some(opcode) => r == Ok::<Opcode, &'static str>(opcode),
                None => r is Err && r->Err_0@ == "Unknown opcode"@,
            }),
            r is Ok ==> r->Ok_0 != Opcode::NotAnOpcode && name_of(r->Ok_0)@ == s@,
    {
        Opcode::from_name(s)
    }
}

/// The value that stands where no value is.
pub const NO_VALUE: u32 = 0xffff_ffff;

/// A variable list of values: the arguments of a call, or those passed to a block.
#[derive(Debug)]
pub struct VariableArgs(pub Vec<Value>);

/// The text of a list of values: the values between round brackets, with a comma
/// and a space between two of them. `count` values are written.
pub open spec fn values_text(values: Seq<Value>, count: nat) -> Seq<char>
    decreases count,
{
    if count == 0 {
        Seq::empty()
    } else if count == 1 {
        crate::entity::value_text(values[0])
    } else {
        values_text(values, (count - 1) as nat) + ", "@ + crate::entity::value_text(
            values[count - 1],
        )
    }
}

impl VariableArgs {
    /// Create an empty list.
    pub fn new() -> (r: VariableArgs)
        ensures
            r.0@ == Seq::<Value>::empty(),
    {
        VariableArgs(Vec::new())
    }

    /// Add a value at the end of the list.
    pub fn push(&mut self, v: Value)
        ensures
            final(self).0@ == old(self).0@.push(v),
    {
        self.0.push(v);
    }

    /// The number of values in the list.
    pub fn len(&self) -> (r: usize)
        ensures
            r == self.0@.len(),
    {
        self.0.len()
    }

    /// The text of the list.
    pub open spec fn text(self) -> Seq<char> {
        "("@ + values_text(self.0@, self.0@.len()) + ")"@
    }

    /// Write the list: its values between round brackets.
    pub fn to_string(&self) -> (r: String)
        ensures
            r@ == self.text(),
    {
        let mut out = String::from_str("(");
        let mut i: usize = 0;
        while i < self.0.len()
            invariant
                i <= self.0@.len(),
                out@ == "("@ + values_text(self.0@, i as nat),
            decreases self.0@.len() - i,
        {
            if i != 0 {
                out.append(", ");
            }
            let v = self.0[i].to_string();
            out.append(v.as_str());
            assert(out@ =~= "("@ + values_text(self.0@, (i + 1) as nat));
            i += 1;
        }
        out.append(")");
        out
    }
}

impl Default for VariableArgs {
    fn default() -> (r: VariableArgs)
        ensures
            r.0@ == Seq::<Value>::empty(),
    {
        VariableArgs::new()
    }
}

/// What a jump carries: the destination and the arguments passed to it.
#[derive(Debug)]
pub struct JumpData {
    /// The block that is jumped to.
    pub destination: Ebb,
    /// The arguments passed to the block.
    pub arguments: VariableArgs,
}

impl JumpData {
    /// Write the jump: the destination, then the arguments.
    pub fn to_string(&self) -> (r: String)
        ensures
            r@ == crate::entity::ebb_text(self.destination) + self.arguments.text(),
    {
        let out = self.destination.to_string();
        out.concat(self.arguments.to_string().as_str())
    }
}

/// What a branch carries: the value it tests, the destination and the arguments
/// passed to it.
#[derive(Debug)]
pub struct BranchData {
    /// The value that is tested.
    pub arg: Value,
    /// The block that is branched to.
    pub destination: Ebb,
    /// The arguments passed to the block.
    pub arguments: VariableArgs,
}

impl BranchData {
    /// Write the branch: the tested value, a comma, the destination, then the arguments.
    pub fn to_string(&self) -> (r: String)
        ensures
            r@ == crate::entity::value_text(self.arg) + ", "@ + crate::entity::ebb_text(
                self.destination,
            ) + self.arguments.text(),
    {
        let mut out = self.arg.to_string();
        out.append(", ");
        out.append(self.destination.to_string().as_str());
        out.append(self.arguments.to_string().as_str());
        out
    }
}

/// What a call carries.
#[derive(Debug)]
pub struct CallData {
    /// The second result of a call that returns more than one value.
    pub second_result: Value,
    /// The arguments of the call.
    pub arguments: VariableArgs,
}

impl CallData {
    /// Write the call: the callee is not known yet, so `TBD` stands for it.
    pub fn to_string(&self) -> (r: String)
        ensures
            r@ == "TBD"@ + self.arguments.text(),
    {
        String::from_str("TBD").concat(self.arguments.to_string().as_str())
    }
}

/// The contents of an instruction. Every variant has the opcode and the type of
/// the first result, which is the void type where there is no result.
#[derive(Debug)]
#[allow(inconsistent_fields)]
pub enum InstructionData {
    /// No operands.
    Nullary { opcode: Opcode, ty: Type },
    /// One value.
    Unary { opcode: Opcode, ty: Type, arg: Value },
    /// One integer immediate.
    UnaryImm { opcode: Opcode, ty: Type, imm: Imm64 },
    /// One 32-bit floating point immediate.
    UnaryIeee32 { opcode: Opcode, ty: Type, imm: Ieee32 },
    /// One 64-bit floating point immediate.
    UnaryIeee64 { opcode: Opcode, ty: Type, imm: Ieee64 },
    /// One vector immediate.
    UnaryImmVector { opcode: Opcode, ty: Type },
    /// Two values.
    Binary { opcode: Opcode, ty: Type, args: [Value; 2] },
    /// A value and an integer immediate.
    BinaryImm { opcode: Opcode, ty: Type, lhs: Value, rhs: Imm64 },
    /// An integer immediate and a value.
    BinaryImmRev { opcode: Opcode, ty: Type, rhs: Value, lhs: Imm64 },
    /// A jump.
    Jump { opcode: Opcode, ty: Type, data: Box<JumpData> },
    /// A branch.
    Branch { opcode: Opcode, ty: Type, data: Box<BranchData> },
    /// A branch through a jump table.
    BranchTable { opcode: Opcode, ty: Type, arg: Value, table: JumpTable },
    /// A call.
    Call { opcode: Opcode, ty: Type, data: Box<CallData> },
}

impl InstructionData {
    /// The data of a call instruction that has no arguments yet.
    pub fn call(opc: Opcode, return_type: Type) -> (r: InstructionData)
        ensures
            r matches InstructionData::Call { opcode, ty, data } && opcode == opc && ty
                == return_type && data.second_result == Value(NO_VALUE)
                && data.arguments.0@.len() == 0,
    {
        InstructionData::Call {
            opcode: opc,
            ty: return_type,
            data: Box::new(
                CallData { second_result: Value(NO_VALUE), arguments: VariableArgs::new() },
            ),
        }
    }

    /// The opcode of the instruction.
    pub fn opcode(&self) -> (r: Opcode)
        ensures
            r == self.opcode_spec(),
    {
        match self {
            InstructionData::Nullary { opcode, .. } => *opcode,
            InstructionData::Unary { opcode, .. } => *opcode,
            InstructionData::UnaryImm { opcode, .. } => *opcode,
            InstructionData::UnaryIeee32 { opcode, .. } => *opcode,
            InstructionData::UnaryIeee64 { opcode, .. } => *opcode,
            InstructionData::UnaryImmVector { opcode, .. } => *opcode,
            InstructionData::Binary { opcode, .. } => *opcode,
            InstructionData::BinaryImm { opcode, .. } => *opcode,
            InstructionData::BinaryImmRev { opcode, .. } => *opcode,
            InstructionData::Jump { opcode, .. } => *opcode,
            InstructionData::Branch { opcode, .. } => *opcode,
            InstructionData::BranchTable { opcode, .. } => *opcode,
            InstructionData::Call { opcode, .. } => *opcode,
        }
    }

    /// The opcode of the instruction.
    pub open spec fn opcode_spec(&self) -> Opcode {
        match self {
            InstructionData::Nullary { opcode, .. } => *opcode,
            InstructionData::Unary { opcode, .. } => *opcode,
            InstructionData::UnaryImm { opcode, .. } => *opcode,
            InstructionData::UnaryIeee32 { opcode, .. } => *opcode,
            InstructionData::UnaryIeee64 { opcode, .. } => *opcode,
            InstructionData::UnaryImmVector { opcode, .. } => *opcode,
            InstructionData::Binary { opcode, .. } => *opcode,
            InstructionData::BinaryImm { opcode, .. } => *opcode,
            InstructionData::BinaryImmRev { opcode, .. } => *opcode,
            InstructionData::Jump { opcode, .. } => *opcode,
            InstructionData::Branch { opcode, .. } => *opcode,
            InstructionData::BranchTable { opcode, .. } => *opcode,
            InstructionData::Call { opcode, .. } => *opcode,
        }
    }
}

/// The number of an opcode: they are numbered from one in the order in which
/// they are declared, and `NotAnOpcode` is number zero.
pub open spec fn opcode_number(opcode: Opcode) -> usize {
    match opcode {
        Opcode::NotAnOpcode => 0,
        Opcode::Jump => 1,
        Opcode::Fallthrough => 2,
        Opcode::Brz => 3,
        Opcode::Brnz => 4,
        Opcode::Brif => 5,
        Opcode::Brff => 6,
        Opcode::BrTable => 7,
        Opcode::Trap => 8,
        Opcode::Trapz => 9,
        Opcode::Trapnz => 10,
        Opcode::Return => 11,
        Opcode::Call => 12,
        Opcode::Iconst => 13,
        Opcode::F32const => 14,
        Opcode::F64const => 15,
        Opcode::Vconst => 16,
        Opcode::Select => 17,
        Opcode::Copy => 18,
        Opcode::Bint => 19,
        Opcode::Icmp => 20,
        Opcode::Iadd => 21,
        Opcode::Isub => 22,
        Opcode::Imul => 23,
        Opcode::Umulhi => 24,
        Opcode::Smulhi => 25,
        Opcode::Udiv => 26,
        Opcode::Sdiv => 27,
        Opcode::Urem => 28,
        Opcode::Srem => 29,
        Opcode::IaddImm => 30,
        Opcode::ImulImm => 31,
        Opcode::UdivImm => 32,
        Opcode::SdivImm => 33,
        Opcode::UremImm => 34,
        Opcode::SremImm => 35,
        Opcode::IrsubImm => 36,
        Opcode::Band => 37,
        Opcode::Bor => 38,
        Opcode::Bxor => 39,
        Opcode::BandImm => 40,
        Opcode::BorImm => 41,
        Opcode::BxorImm => 42,
        Opcode::Rotl => 43,
        Opcode::Rotr => 44,
        Opcode::RotlImm => 45,
        Opcode::RotrImm => 46,
        Opcode::Ishl => 47,
        Opcode::Ushr => 48,
        Opcode::Sshr => 49,
        Opcode::IshlImm => 50,
        Opcode::UshrImm => 51,
        Opcode::SshrImm => 52,
        Opcode::IfcmpImm => 53,
    }
}

impl Opcode {
    /// The number of the opcode.
    pub fn index(self) -> (r: usize)
        ensures
            r == opcode_number(self),
    {
        match self {
            Opcode::NotAnOpcode => 0,
            Opcode::Jump => 1,
            Opcode::Fallthrough => 2,
            Opcode::Brz => 3,
            Opcode::Brnz => 4,
            Opcode::Brif => 5,
            Opcode::Brff => 6,
            Opcode::BrTable => 7,
            Opcode::Trap => 8,
            Opcode::Trapz => 9,
            Opcode::Trapnz => 10,
            Opcode::Return => 11,
            Opcode::Call => 12,
            Opcode::Iconst => 13,
            Opcode::F32const => 14,
            Opcode::F64const => 15,
            Opcode::Vconst => 16,
            Opcode::Select => 17,
            Opcode::Copy => 18,
            Opcode::Bint => 19,
            Opcode::Icmp => 20,
            Opcode::Iadd => 21,
            Opcode::Isub => 22,
            Opcode::Imul => 23,
            Opcode::Umulhi => 24,
            Opcode::Smulhi => 25,
            Opcode::Udiv => 26,
            Opcode::Sdiv => 27,
            Opcode::Urem => 28,
            Opcode::Srem => 29,
            Opcode::IaddImm => 30,
            Opcode::ImulImm => 31,
            Opcode::UdivImm => 32,
            Opcode::SdivImm => 33,
            Opcode::UremImm => 34,
            Opcode::SremImm => 35,
            Opcode::IrsubImm => 36,
            Opcode::Band => 37,
            Opcode::Bor => 38,
            Opcode::Bxor => 39,
            Opcode::BandImm => 40,
            Opcode::BorImm => 41,
            Opcode::BxorImm => 42,
            Opcode::Rotl => 43,
            Opcode::Rotr => 44,
            Opcode::RotlImm => 45,
            Opcode::RotrImm => 46,
            Opcode::Ishl => 47,
            Opcode::Ushr => 48,
            Opcode::Sshr => 49,
            Opcode::IshlImm => 50,
            Opcode::UshrImm => 51,
            Opcode::SshrImm => 52,
            Opcode::IfcmpImm => 53,
        }
    }
}

impl crate::constant_hash::TableKey for Opcode {
    open spec fn key_eq(self, other: Self) -> bool {
        self == other
    }

    fn same_key(self, other: Self) -> (r: bool) {
        self == other
    }
}

} // verus!
