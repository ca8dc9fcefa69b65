use cretonne::runtime::{
    folded, name_fold, DummyRuntime, Global, GlobalPlace, HeapData, Memory, Table,
};
use cretonne::settings::{builder, Configurable, Flags, OptLevel};
use cretonne::types::{Signature, Type};

#[test]
fn fold_names() {
    assert_eq!(name_fold(b'a'), b'a');
    assert_eq!(name_fold(b'Z'), b'Z');
    assert_eq!(name_fold(b'7'), b'7');
    assert_eq!(name_fold(b'_'), b'_');
    assert_eq!(name_fold(b'.'), b'_');
    assert_eq!(name_fold(b' '), b'_');
    assert_eq!(name_fold(0), b'_');
    // Bytes above 127 are read as the characters with their numbers.
    assert_eq!(name_fold(0xe9), 0xe9);
    assert_eq!(name_fold(0xd7), b'_');
    assert_eq!(folded(b'x', true), b'x');
    assert_eq!(folded(b'x', false), b'_');
}

#[test]
fn fresh_runtime() {
    let rt = DummyRuntime::default();
    assert!(rt.signatures.is_empty());
    assert!(rt.globals.is_empty());
    assert!(rt.func_types.is_empty());
    assert!(rt.imported_funcs.is_empty());
    assert_eq!(rt.start_func, None);
    assert_eq!(rt.get_num_func_imports(), 0);
    assert_eq!(rt.flags().opt_level(), OptLevel::Default);
    let mut b = builder();
    b.set("opt_level", "fastest").unwrap();
    let rt = DummyRuntime::with_flags(Flags::new(b));
    assert_eq!(rt.flags().opt_level(), OptLevel::Fastest);
    assert!(rt.func_types.is_empty());
}

#[test]
fn declarations_are_kept() {
    let mut rt = DummyRuntime::default();
    rt.declare_signature(&Signature { params: vec![Type::I32], returns: vec![] });
    rt.declare_signature(&Signature { params: vec![], returns: vec![Type::I64] });
    assert_eq!(rt.get_signature(1).returns, vec![Type::I64]);
    assert_eq!(rt.get_signature(0).params, vec![Type::I32]);

    rt.declare_func_import(1, b"env", b"get-time!");
    rt.declare_func_import(0, b"", b"");
    rt.declare_func_type(0);
    assert_eq!(rt.get_num_func_imports(), 2);
    assert_eq!(rt.imported_funcs[0], b"env_get_time_".to_vec());
    assert_eq!(rt.imported_funcs[1], b"_".to_vec());
    assert_eq!(rt.get_func_type(0), 1);
    assert_eq!(rt.get_func_type(2), 0);

    let import = rt.make_direct_func(0);
    assert_eq!(import.name, b"env_get_time_".to_vec());
    assert_eq!(import.signature.returns, vec![Type::I64]);
    let local = rt.make_direct_func(2);
    assert_eq!(local.name, b"localfunc2".to_vec());
    assert_eq!(local.signature.params, vec![Type::I32]);
    assert_eq!(rt.make_indirect_sig(0).params, vec![Type::I32]);

    rt.declare_global(Global { ty: Type::I32, mutability: false });
    rt.declare_global(Global { ty: Type::I64, mutability: true });
    assert_eq!(*rt.get_global(1), Global { ty: Type::I64, mutability: true });
    assert_eq!(rt.make_global(0), GlobalPlace { offset: 8, ty: Type::I32 });
    assert_eq!(rt.make_global(1), GlobalPlace { offset: 16, ty: Type::I64 });

    rt.declare_start_func(2);
    assert_eq!(rt.start_func, Some(2));
}

#[test]
fn nothing_is_done() {
    let mut rt = DummyRuntime::default();
    rt.declare_func_type(3);
    rt.declare_table(Table { size: 10, maximum: None });
    rt.declare_table_elements(0, 0, &[1, 2]);
    rt.declare_memory(Memory { pages_count: 1, maximum: Some(2) });
    assert_eq!(rt.declare_data_initialization(0, 0, b"abc"), Ok(()));
    rt.begin_translation();
    rt.next_function();
    assert_eq!(rt.func_types, vec![3]);
    assert!(rt.signatures.is_empty());
    assert!(rt.globals.is_empty());
    assert_eq!(
        rt.make_heap(0),
        HeapData { min_size: 0, guard_size: 0x8000_0000, bound: 0x1_0000_0000 }
    );
    assert_eq!(rt.translate_grow_memory(0), (Type::I32, -1));
    assert_eq!(rt.translate_current_memory(0), (Type::I32, -1));
}
