use cretonne::binemit::{
    CodeInfo, CodeSink, ExternalName, MemoryCodeSink, NullRelocSink, NullTrapSink, Reloc,
    RelocLog, RelocTarget, SourceLoc, TrapCode, TrapLog,
};
use cretonne::entity::JumpTable;
use cretonne::enc_tables::{
    general_encoding, lookup_enclist, Encoding, Legalize, Level1Entry, Level2Entry, CODE_FAIL,
};
use cretonne::instructions::Opcode;
use cretonne::intel_binemit::{modrm_r_bits, modrm_rr, put_op1, recipe_op1rc, recipe_op1rr};
use cretonne::settings::PredicateView;
use cretonne::types::Type;

#[test]
fn bytes_least_significant_first() {
    let mut sink = MemoryCodeSink::new(NullRelocSink {}, NullTrapSink {});
    assert_eq!(sink.offset(), 0);
    sink.put1(0x12);
    sink.put2(0x3456);
    assert_eq!(sink.offset(), 3);
    sink.put4(0x789a_bcde);
    sink.put8(0x0102_0304_0506_0708);
    assert_eq!(
        sink.data,
        vec![0x12, 0x56, 0x34, 0xde, 0xbc, 0x9a, 0x78, 8, 7, 6, 5, 4, 3, 2, 1]
    );
    assert_eq!(sink.offset(), 15);
}

#[test]
fn relocations_and_traps_carry_the_offset() {
    let mut sink = MemoryCodeSink::new(RelocLog::new(), TrapLog::new());
    sink.reloc_ebb(Reloc(1), 40);
    sink.put4(0);
    let name = ExternalName::User { namespace: 0, index: 7 };
    sink.reloc_external(Reloc(2), &name, -4);
    sink.put2(0);
    sink.reloc_jt(Reloc(3), JumpTable(5));
    sink.trap(TrapCode::HeapOutOfBounds, SourceLoc(99));
    assert_eq!(
        sink.relocs.entries,
        vec![
            (0, Reloc(1), RelocTarget::Ebb(40)),
            (4, Reloc(2), RelocTarget::External(name, -4)),
            (6, Reloc(3), RelocTarget::JumpTable(JumpTable(5))),
        ]
    );
    assert_eq!(sink.traps.entries, vec![(6, SourceLoc(99), TrapCode::HeapOutOfBounds)]);
    assert_eq!(sink.data.len(), 6);
}

#[test]
fn sizes_of_the_parts() {
    let mut sink = MemoryCodeSink::new(NullRelocSink {}, NullTrapSink {});
    sink.put8(0);
    sink.put2(0);
    sink.begin_jumptables();
    assert_eq!(sink.info.code_size, 10);
    sink.put4(0);
    sink.begin_rodata();
    assert_eq!(sink.info.jumptables_size, 4);
    sink.put1(0);
    sink.end_codegen();
    assert_eq!(
        sink.info,
        CodeInfo { code_size: 10, jumptables_size: 4, rodata_size: 11, total_size: 15 }
    );
}

#[test]
fn intel_bytes() {
    let mut sink = MemoryCodeSink::new(NullRelocSink {}, NullTrapSink {});
    put_op1(0x0001, &mut sink);
    put_op1(0x70ab, &mut sink);
    modrm_rr(1, 2, &mut sink);
    modrm_rr(0xffff, 0, &mut sink);
    modrm_rr(8, 15, &mut sink);
    modrm_r_bits(3, 0x5000, &mut sink);
    assert_eq!(sink.data, vec![0x01, 0xab, 0xd1, 0xc7, 0xf8, 0xeb]);
    let mut sink = MemoryCodeSink::new(NullRelocSink {}, NullTrapSink {});
    recipe_op1rr(0x0029, 3, 1, &mut sink);
    recipe_op1rc(0x40d3, 2, &mut sink);
    assert_eq!(sink.data, vec![0x29, 0xcb, 0xd3, 0xe2]);
}

// Put an entry into a hash table the way it is looked for.
fn place<T: Copy>(table: &mut Vec<Option<T>>, hash: usize, entry: T) {
    let mask = table.len() - 1;
    let mut idx = hash & mask;
    let mut step = 0;
    while table[idx].is_some() {
        step += 1;
        idx = (idx + step) & mask;
    }
    table[idx] = Some(entry);
}

fn tables() -> (Vec<Level1Entry>, Vec<Level2Entry>) {
    // Two types: I32 with a level 2 table of four entries, I64 with one of two.
    let mut l1: Vec<Option<Level1Entry>> = vec![None; 4];
    place(&mut l1, Type::I32.index(), Level1Entry { ty: Type::I32, log2len: 2, offset: 0 });
    place(&mut l1, Type::I64.index(), Level1Entry { ty: Type::I64, log2len: 1, offset: 4 });
    let l1 = l1
        .into_iter()
        .map(|e| e.unwrap_or(Level1Entry { ty: Type::Void, log2len: 0, offset: 0 }))
        .collect();
    let mut first: Vec<Option<Level2Entry>> = vec![None; 4];
    for (op, off) in [(Opcode::Iadd, 10u32), (Opcode::Isub, 20), (Opcode::Udiv, 30)] {
        place(&mut first, op.index(), Level2Entry { opcode: Some(op), offset: off });
    }
    let mut second: Vec<Option<Level2Entry>> = vec![None; 2];
    place(&mut second, Opcode::Iadd.index(), Level2Entry { opcode: Some(Opcode::Iadd), offset: 40 });
    let l2 = first
        .into_iter()
        .chain(second.into_iter())
        .map(|e| e.unwrap_or(Level2Entry { opcode: None, offset: 0 }))
        .collect();
    (l1, l2)
}

#[test]
fn two_level_lookup() {
    let (l1, l2) = tables();
    assert_eq!(lookup_enclist(Type::I32, Opcode::Iadd, &l1, &l2), Ok(10));
    assert_eq!(lookup_enclist(Type::I32, Opcode::Isub, &l1, &l2), Ok(20));
    assert_eq!(lookup_enclist(Type::I32, Opcode::Udiv, &l1, &l2), Ok(30));
    assert_eq!(lookup_enclist(Type::I64, Opcode::Iadd, &l1, &l2), Ok(40));
    // The opcode is not in the table of the type.
    assert_eq!(lookup_enclist(Type::I64, Opcode::Isub, &l1, &l2), Err(Legalize::Expand));
    assert_eq!(lookup_enclist(Type::I32, Opcode::Imul, &l1, &l2), Err(Legalize::Expand));
    // The type is not in the table at all.
    assert_eq!(lookup_enclist(Type::I8, Opcode::Iadd, &l1, &l2), Err(Legalize::Expand));
    let only64: Vec<Level1Entry> = vec![
        Level1Entry { ty: Type::Void, log2len: 0, offset: 0 },
        Level1Entry { ty: Type::Void, log2len: 0, offset: 0 },
    ];
    assert_eq!(lookup_enclist(Type::I64, Opcode::Iadd, &only64, &l2), Err(Legalize::Narrow));
    assert_eq!(lookup_enclist(Type::I32, Opcode::Iadd, &only64, &l2), Err(Legalize::Expand));
}

#[test]
fn most_general_encoding() {
    // Predicate 1 on the instruction holds, predicate 2 does not. Predicate 0
    // on the target holds, predicate 3 does not.
    let instp = [0b0000_0010u8];
    let isap = [0b0000_0001u8];
    let instp = PredicateView::new(&instp);
    let isap = PredicateView::new(&isap);
    let always = 0x0fff;
    // An encoding that always matches, then one whose predicate fails.
    let list = [always, 1, 0x11, 2, 2, 0x22, CODE_FAIL];
    assert_eq!(general_encoding(0, &list, instp, isap), Some(Encoding::new(1, 0x11)));
    // The last one that matches wins.
    let list = [always, 1, 0x11, 1, 2, 0x22, CODE_FAIL];
    assert_eq!(general_encoding(0, &list, instp, isap), Some(Encoding::new(2, 0x22)));
    // Nothing matches.
    let list = [2, 2, 0x22, CODE_FAIL];
    assert_eq!(general_encoding(0, &list, instp, isap), None);
    assert_eq!(general_encoding(3, &list, instp, isap), None);
    // A predicate on the target that fails passes over the next two encodings.
    let skip2_if_not_3 = 0x2000 | 3;
    let list = [always, 1, 0x11, skip2_if_not_3, always, 2, 0x22, always, 3, 0x33, CODE_FAIL];
    assert_eq!(general_encoding(0, &list, instp, isap), Some(Encoding::new(1, 0x11)));
    // One that holds passes over nothing.
    let skip2_if_not_0 = 0x2000;
    let list = [always, 1, 0x11, skip2_if_not_0, always, 2, 0x22, 2, 3, 0x33, CODE_FAIL];
    assert_eq!(general_encoding(0, &list, instp, isap), Some(Encoding::new(2, 0x22)));
    // The walk can begin in the middle of the table.
    assert_eq!(general_encoding(7, &list, instp, isap), None);
    assert_eq!(Encoding::new(4, 5).recipe(), 4);
    assert_eq!(Encoding::new(4, 5).bits(), 5);
}
