use cretonne::instructions::{
    opcode_name, CallData, InstructionData, InstructionFormat, JumpData, Opcode, VariableArgs,
    BranchData, NO_VALUE,
};
use cretonne::entity::{Ebb, Value};
use cretonne::testfile::{AnyEntity, Comment};
use cretonne::types::Type;

#[test]
fn opcodes() {
    let x = Opcode::Iadd;
    let mut y = Opcode::Isub;

    assert!(x != y);
    y = Opcode::Iadd;
    assert_eq!(x, y);
    assert_eq!(x.format(), Some(InstructionFormat::Binary));

    assert_eq!(format!("{:?}", Opcode::IaddImm), "IaddImm");
    assert_eq!(Opcode::IaddImm.to_string(), "iadd_imm");

    // Check the matcher.
    assert_eq!("iadd".parse::<Opcode>(), Ok(Opcode::Iadd));
    assert_eq!("iadd_imm".parse::<Opcode>(), Ok(Opcode::IaddImm));
    assert_eq!("iadd\0".parse::<Opcode>(), Err("Unknown opcode"));
    assert_eq!("".parse::<Opcode>(), Err("Unknown opcode"));
    assert_eq!("\0".parse::<Opcode>(), Err("Unknown opcode"));
}

#[test]
fn every_opcode_is_found_by_its_name() {
    let all = [
        Opcode::Jump, Opcode::Fallthrough, Opcode::Brz, Opcode::Brnz, Opcode::Brif, Opcode::Brff,
        Opcode::BrTable, Opcode::Trap, Opcode::Trapz, Opcode::Trapnz, Opcode::Return,
        Opcode::Call, Opcode::Iconst, Opcode::F32const, Opcode::F64const, Opcode::Vconst,
        Opcode::Select, Opcode::Copy, Opcode::Bint, Opcode::Icmp, Opcode::Iadd, Opcode::Isub,
        Opcode::Imul, Opcode::Umulhi, Opcode::Smulhi, Opcode::Udiv, Opcode::Sdiv, Opcode::Urem,
        Opcode::Srem, Opcode::IaddImm, Opcode::ImulImm, Opcode::UdivImm, Opcode::SdivImm,
        Opcode::UremImm, Opcode::SremImm, Opcode::IrsubImm, Opcode::Band, Opcode::Bor,
        Opcode::Bxor, Opcode::BandImm, Opcode::BorImm, Opcode::BxorImm, Opcode::Rotl,
        Opcode::Rotr, Opcode::RotlImm, Opcode::RotrImm, Opcode::Ishl, Opcode::Ushr, Opcode::Sshr,
        Opcode::IshlImm, Opcode::UshrImm, Opcode::SshrImm, Opcode::IfcmpImm,
    ];
    assert_eq!(all.len(), cretonne::instructions::OPCODE_COUNT);
    for op in all.iter() {
        assert_eq!(Opcode::from_name(opcode_name(*op)), Ok(*op));
        assert!(op.format().is_some());
    }
    assert_eq!(Opcode::NotAnOpcode.format(), None);
    assert_eq!(Opcode::from_name("<not an opcode>"), Err("Unknown opcode"));
    assert_eq!(Opcode::from_name("IADD"), Err("Unknown opcode"));
}

#[test]
fn variable_args_text() {
    let mut args = VariableArgs::new();
    assert_eq!(args.to_string(), "()");
    args.push(Value::new(1));
    assert_eq!(args.to_string(), "(v1)");
    args.push(Value::new(20));
    assert_eq!(args.to_string(), "(v1, v20)");
    assert_eq!(args.len(), 2);
    assert_eq!(VariableArgs::default().len(), 0);

    let jump = JumpData { destination: Ebb::new(3), arguments: VariableArgs::new() };
    assert_eq!(jump.to_string(), "ebb3()");
    let branch = BranchData { arg: Value::new(7), destination: Ebb::new(3), arguments: args };
    assert_eq!(branch.to_string(), "v7, ebb3(v1, v20)");
    let call = CallData { second_result: Value(NO_VALUE), arguments: VariableArgs::new() };
    assert_eq!(call.to_string(), "TBD()");
}

#[test]
fn call_data() {
    let data = InstructionData::call(Opcode::Call, Type::I32);
    assert_eq!(data.opcode(), Opcode::Call);
    match data {
        InstructionData::Call { opcode, ty, data } => {
            assert_eq!(opcode, Opcode::Call);
            assert_eq!(ty, Type::I32);
            assert_eq!(data.second_result, Value(NO_VALUE));
            assert_eq!(data.arguments.len(), 0);
        }
        _ => panic!("not a call"),
    }
}

#[test]
fn comments_belong_to_entities() {
    let a = Comment { entity: AnyEntity::Ebb(Ebb::new(1)), text: "; the loop" };
    let b = a;
    assert_eq!(a, b);
    assert_ne!(a, Comment { entity: AnyEntity::Function, text: "; the loop" });
    assert_ne!(a, Comment { entity: AnyEntity::Ebb(Ebb::new(1)), text: "; the exit" });
    assert_eq!(format!("{:?}", AnyEntity::Value(Value::new(3))), "Value(Value(3))");
}
