use cretonne::constant_hash::{probe, simple_hash};
use cretonne::instructions::OpcodeTable;
use cretonne::operands::{Operand, OperandKind, OperandKindBuilder, OperandKindFields, TypeVar};
use cretonne::text::{
    camel_case, digit_str, parse_digits, parse_hex_u64, parse_i16, push_decimal, push_hex,
    push_hex_fixed, push_signed_decimal, starts_with_from, str_eq,
};

fn type_var(name: &str) -> TypeVar {
    TypeVar { name: name.to_string(), doc: format!("the type {}", name) }
}

#[test]
fn build_operand_kinds() {
    let imm = OperandKindBuilder::new_imm("imm64").build();
    assert_eq!(imm.name, "imm64");
    assert_eq!(imm.default_member, Some("imm"));
    assert_eq!(imm.rust_type, "ir::immediates::Imm64");
    assert_eq!(imm.doc(), None);
    assert_eq!(imm.imm_name(), Some("imm64"));

    let cc = OperandKindBuilder::new_enum("intcc", vec![("eq", "Equal"), ("ne", "NotEqual")])
        .doc("An integer condition")
        .default_member("cond")
        .rust_type("ir::condcodes::IntCC")
        .build();
    assert_eq!(cc.default_member, Some("cond"));
    assert_eq!(cc.rust_type, "ir::condcodes::IntCC");
    assert_eq!(cc.doc(), Some("An integer condition"));
    assert_eq!(cc.imm_name(), Some("intcc"));

    let ebb = OperandKindBuilder::new("ebb", OperandKindFields::EntityRef).build();
    assert_eq!(ebb.default_member, Some("ebb"));
    assert_eq!(ebb.rust_type, "ir::Ebb");
    assert_eq!(ebb.imm_name(), Some("ebb"));

    let jt = OperandKindBuilder::new("jump_table", OperandKindFields::EntityRef).build();
    assert_eq!(jt.rust_type, "ir::JumpTable");

    let va = OperandKindBuilder::new("variable_args", OperandKindFields::VariableArgs).build();
    assert_eq!(va.default_member, None);
    assert_eq!(va.rust_type, "&[Value]");
    assert_eq!(va.imm_name(), None);
    assert_eq!(va.doc(), None);

    let copy = cc.duplicate();
    assert_eq!(copy.name, "intcc");
    assert_eq!(copy.doc(), Some("An integer condition"));
    assert_eq!(copy.rust_type, "ir::condcodes::IntCC");
    match copy.fields {
        OperandKindFields::ImmEnum(values) => {
            assert_eq!(values, vec![("eq", "Equal"), ("ne", "NotEqual")])
        }
        _ => panic!("not an enumeration"),
    }

    let value = OperandKind::from_type_var(type_var("Int").duplicate());
    assert_eq!(value.name, "value");
    assert_eq!(value.default_member, Some("value"));
    assert_eq!(value.rust_type, "ir::Value");
    assert_eq!(value.doc(), Some("the type Int"));
    assert_eq!(value.imm_name(), None);
}

#[test]
fn operands() {
    let x = Operand::new("x", OperandKind::from_type_var(type_var("Int")));
    assert!(x.is_value());
    assert!(!x.is_varargs());
    assert!(!x.is_immediate());
    assert!(!x.is_immediate_or_entityref());
    assert!(!x.is_cpu_flags());
    assert_eq!(x.type_var().unwrap().name, "Int");
    assert_eq!(x.doc(), Some("the type Int"));
    let x = x.with_doc("the first operand");
    assert_eq!(x.doc(), Some("the first operand"));

    let flags = Operand::new("f", OperandKind::from_type_var(type_var("iflags")));
    assert!(flags.is_cpu_flags());
    let flags = Operand::new("f", OperandKind::from_type_var(type_var("fflags")));
    assert!(flags.is_cpu_flags());
    let flags = Operand::new("f", OperandKind::from_type_var(type_var("flags")));
    assert!(!flags.is_cpu_flags());

    let imm = Operand::new("N", OperandKindBuilder::new_imm("imm64").doc("A number").build());
    assert!(imm.is_immediate());
    assert!(imm.is_immediate_or_entityref());
    assert!(!imm.is_value());
    assert!(imm.type_var().is_none());
    assert_eq!(imm.doc(), Some("A number"));

    let e = Operand::new("e", OperandKindBuilder::new_enum("cc", vec![]).build());
    assert!(e.is_immediate());
    assert_eq!(e.doc(), None);

    let r = Operand::new("EBB", OperandKindBuilder::new("ebb", OperandKindFields::EntityRef).build());
    assert!(!r.is_immediate());
    assert!(r.is_immediate_or_entityref());

    let va = Operand::new(
        "args",
        OperandKindBuilder::new("variable_args", OperandKindFields::VariableArgs).build(),
    );
    assert!(va.is_varargs());
    assert!(!va.is_immediate_or_entityref());
}

#[test]
fn camel_cases() {
    assert_eq!(camel_case("imm64"), "Imm64");
    assert_eq!(camel_case("jump_table"), "JumpTable");
    assert_eq!(camel_case("_a__b_"), "AB");
    assert_eq!(camel_case(""), "");
    assert_eq!(camel_case("aBc_dEf"), "ABcDEf");
    assert_eq!(camel_case("x_9y"), "X9y");
    assert_eq!(camel_case("z_{_é"), "Z{é");
    assert_eq!(camel_case("été_été"), "étéété");
}

#[test]
fn numbers_as_text() {
    let mut s = String::from("n=");
    push_decimal(&mut s, 0);
    s.push(' ');
    push_decimal(&mut s, u64::MAX);
    s.push(' ');
    push_signed_decimal(&mut s, i64::MIN);
    s.push(' ');
    push_signed_decimal(&mut s, -7);
    s.push(' ');
    push_hex(&mut s, 0xdead_beef);
    s.push(' ');
    push_hex(&mut s, 0);
    s.push(' ');
    push_hex_fixed(&mut s, 0x1abc, 6);
    s.push(' ');
    push_hex_fixed(&mut s, 0x1abc, 2);
    push_hex_fixed(&mut s, 0x1abc, 0);
    assert_eq!(
        s,
        "n=0 18446744073709551615 -9223372036854775808 -7 deadbeef 0 001abc bc"
    );
    assert_eq!(digit_str(0), "0");
    assert_eq!(digit_str(9), "9");
    assert_eq!(digit_str(10), "a");
    assert_eq!(digit_str(15), "f");
}

#[test]
fn text_as_numbers() {
    assert!(str_eq("abc", "abc"));
    assert!(!str_eq("abc", "abd"));
    assert!(!str_eq("abc", "ab"));
    assert!(str_eq("", ""));
    assert!(str_eq("héllo", "héllo"));
    assert!(starts_with_from("abcdef", 2, "cd"));
    assert!(starts_with_from("abcdef", 6, ""));
    assert!(!starts_with_from("abcdef", 5, "fg"));
    assert!(!starts_with_from("abcdef", 0, "b"));
    assert_eq!(parse_digits("x123y", 1, 4, 10, 200), Some(123));
    assert_eq!(parse_digits("x123y", 1, 4, 10, 122), None);
    assert_eq!(parse_digits("x123y", 1, 5, 10, 200), None);
    assert_eq!(parse_digits("x123y", 1, 1, 10, 200), None);
    assert_eq!(parse_digits("ff", 0, 2, 16, 255), Some(255));
    assert_eq!(parse_digits("FF", 0, 2, 16, 254), None);
    assert_eq!(parse_digits("19", 0, 2, 8, 255), None);
    assert_eq!(parse_digits("18446744073709551615", 0, 20, 10, u64::MAX), Some(u64::MAX));
    assert_eq!(parse_digits("18446744073709551616", 0, 20, 10, u64::MAX), None);
    assert_eq!(parse_hex_u64("0x+1f", 2), Some(0x1f));
    assert_eq!(parse_hex_u64("ffffffffffffffff", 0), Some(u64::MAX));
    assert_eq!(parse_hex_u64("10000000000000000", 0), None);
    assert_eq!(parse_hex_u64("+", 0), None);
    assert_eq!(parse_hex_u64("-1", 0), None);
    assert_eq!(parse_hex_u64("", 0), None);
    assert_eq!(parse_i16("p-32768", 1), Some(-32768));
    assert_eq!(parse_i16("p32767", 1), Some(32767));
    assert_eq!(parse_i16("p+5", 1), Some(5));
    assert_eq!(parse_i16("p-0", 1), Some(0));
    assert_eq!(parse_i16("p32768", 1), None);
    assert_eq!(parse_i16("p-32769", 1), None);
    assert_eq!(parse_i16("p", 1), None);
    assert_eq!(parse_i16("p-", 1), None);
    assert_eq!(parse_i16("p+-1", 1), None);
}

#[test]
fn hashing_and_probing() {
    assert_eq!(simple_hash(""), 5381);
    assert_eq!(simple_hash("iadd"), 3295927022);
    let table = OpcodeTable {};
    let found = probe(&table, "iadd", simple_hash("iadd") as usize);
    assert!(found.is_ok());
    assert!(probe(&table, "nothing", simple_hash("nothing") as usize).is_err());
}
