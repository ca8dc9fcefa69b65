use cretonne::binemit::ExternalName;
use cretonne::module::{
    DataDeclaration, DataId, FuncId, FuncOrDataId, Linkage, Module, ModuleError,
};
use cretonne::types::{Signature, Type};

fn sig(params: &[Type]) -> Signature {
    Signature { params: params.to_vec(), returns: vec![Type::I32] }
}

#[test]
fn linkage() {
    let all = [Linkage::Import, Linkage::Local, Linkage::Preemptible, Linkage::Export];
    // Merging gives the later of the two in this order, whichever comes first.
    for (i, a) in all.iter().enumerate() {
        for (j, b) in all.iter().enumerate() {
            let want = all[i.max(j)];
            assert!(Linkage::merge(*a, *b) == want);
            assert!(Linkage::merge(*b, *a) == want);
        }
    }
    assert!(!Linkage::Import.is_definable());
    assert!(Linkage::Local.is_definable());
    assert!(Linkage::Preemptible.is_definable());
    assert!(Linkage::Export.is_definable());
    assert!(!Linkage::Import.is_final());
    assert!(Linkage::Local.is_final());
    assert!(!Linkage::Preemptible.is_final());
    assert!(Linkage::Export.is_final());
}

#[test]
fn identifiers() {
    assert_eq!(FuncId::new(3).index(), 3);
    assert_eq!(DataId::new(4).index(), 4);
    assert_eq!(FuncId::new(12).to_string(), "funcid12");
    assert_eq!(DataId::new(0).to_string(), "dataid0");
    assert_eq!(
        ExternalName::from(FuncId::new(5)),
        ExternalName::User { namespace: 0, index: 5 }
    );
    assert_eq!(
        ExternalName::from(DataId::new(5)),
        ExternalName::User { namespace: 1, index: 5 }
    );
    assert_eq!(
        ExternalName::from(FuncOrDataId::Data(DataId::new(2))),
        ExternalName::User { namespace: 1, index: 2 }
    );
    assert_eq!(FuncOrDataId::Func(FuncId::new(2)).namespace(), 0);
    assert_eq!(FuncOrDataId::Func(FuncId::new(2)).index(), 2);
}

#[test]
fn data_declaration_merge() {
    let mut d = DataDeclaration { name: "d".to_string(), linkage: Linkage::Local, writable: false };
    d.merge(Linkage::Import, false);
    assert!(d.linkage == Linkage::Local);
    assert!(!d.writable);
    d.merge(Linkage::Export, true);
    assert!(d.linkage == Linkage::Export);
    assert!(d.writable);
    d.merge(Linkage::Local, false);
    assert!(d.linkage == Linkage::Export);
    assert!(d.writable);
}

#[test]
fn declare_functions_and_data() {
    let mut m = Module::new();
    assert_eq!(m.get_name("f"), None);
    let f = m.declare_function("f", Linkage::Import, &sig(&[Type::I32])).unwrap();
    let g = m.declare_function("g", Linkage::Local, &sig(&[])).unwrap();
    let d = m.declare_data("d", Linkage::Export, false).unwrap();
    assert_eq!(f, FuncId::new(0));
    assert_eq!(g, FuncId::new(1));
    assert_eq!(d, DataId::new(0));
    assert_eq!(m.get_name("f"), Some(FuncOrDataId::Func(f)));
    assert_eq!(m.get_name("d"), Some(FuncOrDataId::Data(d)));
    assert_eq!(m.get_name("h"), None);

    // Declared again, a function keeps its number and gets the stronger linkage.
    assert_eq!(m.declare_function("f", Linkage::Export, &sig(&[Type::I32])).unwrap(), f);
    assert!(m.functions[0].decl.linkage == Linkage::Export);
    assert_eq!(m.declare_function("f", Linkage::Local, &sig(&[Type::I32])).unwrap(), f);
    assert!(m.functions[0].decl.linkage == Linkage::Export);

    // With another signature it is refused, after the linkage was merged.
    match m.declare_function("g", Linkage::Preemptible, &sig(&[Type::I64])) {
        Err(ModuleError::IncompatibleDeclaration(name)) => assert_eq!(name, "g"),
        _ => panic!("the declaration was taken"),
    }
    assert!(m.functions[1].decl.linkage == Linkage::Preemptible);

    // A function is no data object, and the other way round.
    match m.declare_data("f", Linkage::Local, true) {
        Err(e) => assert_eq!(e.to_string(), "Incompatible declaration of identifier: f"),
        Ok(_) => panic!("the declaration was taken"),
    }
    match m.declare_function("d", Linkage::Local, &sig(&[])) {
        Err(e) => assert_eq!(e.to_string(), "Incompatible declaration of identifier: d"),
        Ok(_) => panic!("the declaration was taken"),
    }

    // Declared again, a data object is writable if either declaration says so.
    assert_eq!(m.declare_data("d", Linkage::Local, true).unwrap(), d);
    assert!(m.data_objects[0].decl.writable);
    assert!(m.data_objects[0].decl.linkage == Linkage::Export);
    assert_eq!(m.functions.len(), 2);
    assert_eq!(m.data_objects.len(), 1);
    assert_eq!(m.names.len(), 3);
}

#[test]
fn define_and_finalize() {
    let mut m = Module::new();
    let imp = m.declare_function("imp", Linkage::Import, &sig(&[])).unwrap();
    let f = m.declare_function("f", Linkage::Export, &sig(&[])).unwrap();
    let g = m.declare_function("g", Linkage::Local, &sig(&[])).unwrap();
    let d = m.declare_data("d", Linkage::Local, true).unwrap();
    let e = m.declare_data("e", Linkage::Import, true).unwrap();

    match m.define_function(imp) {
        Err(err) => assert_eq!(
            err.to_string(),
            "Invalid to define identifier declared as an import: imp"
        ),
        Ok(()) => panic!("an import was defined"),
    }
    assert!(m.check_function_definable(f).is_ok());
    assert!(m.define_function(f).is_ok());
    assert!(m.functions[1].compiled);
    match m.define_function(f) {
        Err(err) => assert_eq!(err.to_string(), "Duplicate definition of identifier: f"),
        Ok(()) => panic!("a function was defined twice"),
    }
    assert!(m.define_function(g).is_ok());
    assert!(m.define_data(d).is_ok());
    assert!(matches!(m.define_data(d), Err(ModuleError::DuplicateDefinition(_))));
    assert!(matches!(m.define_data(e), Err(ModuleError::InvalidImportDefinition(_))));
    assert!(matches!(m.check_data_definable(e), Err(ModuleError::InvalidImportDefinition(_))));

    assert_eq!(m.finalize_all(), (vec![f, g], vec![d]));
    m.finalize_function(f);
    assert!(m.functions[1].finalized);
    assert_eq!(m.finalize_all(), (vec![g], vec![d]));
    m.finalize_data(d);
    m.finalize_function(g);
    assert_eq!(m.finalize_all(), (vec![], vec![]));
}

#[test]
fn names_in_code() {
    let mut m = Module::new();
    let f = m.declare_function("f", Linkage::Export, &sig(&[])).unwrap();
    let p = m.declare_function("p", Linkage::Preemptible, &sig(&[])).unwrap();
    let d = m.declare_data("d", Linkage::Import, false).unwrap();
    let fname = ExternalName::User { namespace: 0, index: 0 };
    let dname = ExternalName::User { namespace: 1, index: 0 };
    assert_eq!(m.declare_func_in_func(f), (fname, true));
    assert_eq!(m.declare_func_in_func(p).1, false);
    assert_eq!(m.declare_data_in_func(d), (dname, false));
    assert_eq!(m.declare_func_in_data(f), fname);
    assert_eq!(m.declare_data_in_data(d), dname);
    assert!(m.is_function(&fname));
    assert!(!m.is_function(&dname));
    assert_eq!(m.get_function_decl(&fname).name, "f");
    assert_eq!(m.get_data_decl(&dname).name, "d");
}

#[test]
fn error_messages() {
    let s = |t: &str| t.to_string();
    assert_eq!(ModuleError::Undeclared(s("x")).to_string(), "Undeclared identifier: x");
    assert_eq!(ModuleError::Compilation(s("bad")).to_string(), "Compilation error: bad");
    assert_eq!(ModuleError::Backend(s("io")).to_string(), "Backend error: io");
}
