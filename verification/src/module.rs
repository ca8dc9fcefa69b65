//! Names of the functions and data objects of a module, and how they are linked.

use crate::binemit::ExternalName;
use crate::text::{push_decimal, str_eq};
use crate::types::Signature;
use vstd::prelude::*;
use vstd::string::StringExecFns;

verus! {

/// A function identifier within a module.
#[derive(Copy, Clone, PartialEq, Eq, Structural, Hash, PartialOrd, Ord, Debug)]
pub struct FuncId(pub u32);

/// A data object identifier within a module.
#[derive(Copy, Clone, PartialEq, Eq, Structural, Hash, PartialOrd, Ord, Debug)]
pub struct DataId(pub u32);

impl FuncId {
    /// Create a function identifier from its number.
    pub fn new(index: usize) -> (r: FuncId)
        requires
            index < u32::MAX,
        ensures
            r.0 == index,
    {
        FuncId(index as u32)
    }

    /// The number of this function.
    pub fn index(self) -> (r: usize)
        ensures
            r == self.0,
    {
        self.0 as usize
    }

    /// The name of the identifier: `funcid` and its number.
    pub fn to_string(&self) -> (r: String)
        ensures
            r@ == "funcid"@ + crate::text::decimal_text(self.0 as nat),
    {
        let mut out = String::from_str("funcid");
        push_decimal(&mut out, self.0 as u64);
        out
    }
}

impl DataId {
    /// Create a data object identifier from its number.
    pub fn new(index: usize) -> (r: DataId)
        requires
            index < u32::MAX,
        ensures
            r.0 == index,
    {
        DataId(index as u32)
    }

    /// The number of this data object.
    pub fn index(self) -> (r: usize)
        ensures
            r == self.0,
    {
        self.0 as usize
    }

    /// The name of the identifier: `dataid` and its number.
    pub fn to_string(&self) -> (r: String)
        ensures
            r@ == "dataid"@ + crate::text::decimal_text(self.0 as nat),
    {
        let mut out = String::from_str("dataid");
        push_decimal(&mut out, self.0 as u64);
        out
    }
}

/// Where an entity is defined and who can see it.
#[derive(Copy, Clone, PartialEq, Eq, Structural, Debug)]
pub enum Linkage {
    /// Defined outside of the module.
    Import,
    /// Defined inside the module, but not visible outside it.
    Local,
    /// Defined inside the module, visible outside it, and may be preempted.
    Preemptible,
    /// Defined inside the module, and visible outside it.
    Export,
}

impl Linkage {
    /// How much a linkage promises: an import least, an export most.
    pub open spec fn strength(self) -> int {
        match self {
            Linkage::Import => 0,
            Linkage::Local => 1,
            Linkage::Preemptible => 2,
            Linkage::Export => 3,
        }
    }

    /// The linkage of an entity that was declared twice: the stronger of the two.
    pub fn merge(a: Linkage, b: Linkage) -> (r: Linkage)
        ensures
            r == (if a.strength() >= b.strength() {
                a
            } else {
                b
            }),
    {
        match a {
            Linkage::Export => Linkage::Export,
            Linkage::Preemptible => match b {
                Linkage::Export => Linkage::Export,
                _ => Linkage::Preemptible,
            },
            Linkage::Local => match b {
                Linkage::Export => Linkage::Export,
                Linkage::Preemptible => Linkage::Preemptible,
                _ => Linkage::Local,
            },
            Linkage::Import => b,
        }
    }

    /// Can an entity with this linkage have a definition in the module?
    pub fn is_definable(self) -> (r: bool)
        ensures
            r == (self != Linkage::Import),
    {
        match self {
            Linkage::Import => false,
            Linkage::Local | Linkage::Preemptible | Linkage::Export => true,
        }
    }

    /// Will an entity with this linkage have a definition that cannot be preempted?
    pub fn is_final(self) -> (r: bool)
        ensures
            r == (self == Linkage::Local || self == Linkage::Export),
    {
        match self {
            Linkage::Import | Linkage::Preemptible => false,
            Linkage::Local | Linkage::Export => true,
        }
    }
}

/// Merging linkages is commutative and associative, and a linkage merged with
/// itself stays as it is.
pub proof fn lemma_merge_laws(a: Linkage, b: Linkage, c: Linkage)
    ensures
        merged(a, a) == a,
        merged(a, b) == merged(b, a),
        merged(merged(a, b), c) == merged(a, merged(b, c)),
        merged(a, b).strength() >= a.strength(),
{
}

/// The stronger of two linkages.
pub open spec fn merged(a: Linkage, b: Linkage) -> Linkage {
    if a.strength() >= b.strength() {
        a
    } else {
        b
    }
}

/// A declared name refers to a function or to a data object.
#[derive(Copy, Clone, PartialEq, Eq, Structural, Hash, PartialOrd, Ord, Debug)]
pub enum FuncOrDataId {
    /// The name of a function.
    Func(FuncId),
    /// The name of a data object.
    Data(DataId),
}

impl FuncOrDataId {
    /// The namespace of external names that the identifier lives in: 0 for
    /// functions, 1 for data objects.
    pub fn namespace(self) -> (r: u32)
        ensures
            r == (if self is Func {
                0u32
            } else {
                1u32
            }),
    {
        match self {
            FuncOrDataId::Func(_) => 0,
            FuncOrDataId::Data(_) => 1,
        }
    }

    /// The number of the identifier within its namespace.
    pub fn index(self) -> (r: u32)
        ensures
            r == (match self {
                FuncOrDataId::Func(id) => id.0,
                FuncOrDataId::Data(id) => id.0,
            }),
    {
        match self {
            FuncOrDataId::Func(id) => id.0,
            FuncOrDataId::Data(id) => id.0,
        }
    }
}

/// What is known about a data object that can be accessed.
pub struct DataDeclaration {
    /// The name of the data object.
    pub name: String,
    /// Its linkage.
    pub linkage: Linkage,
    /// May it be written to?
    pub writable: bool,
}

impl DataDeclaration {
    /// Take in a further declaration of the same data object: the linkage becomes
    /// the stronger of the two, and the object is writable if either says so.
    pub fn merge(&mut self, linkage: Linkage, writable: bool)
        ensures
            final(self).name == old(self).name,
            final(self).linkage == merged(old(self).linkage, linkage),
            final(self).writable == (old(self).writable || writable),
    {
        self.linkage = Linkage::merge(self.linkage, linkage);
        self.writable = self.writable || writable;
    }
}

/// What is known about a function that can be called.
pub struct FunctionDeclaration {
    /// The name of the function.
    pub name: String,
    /// Its linkage.
    pub linkage: Linkage,
    /// Its signature.
    pub signature: Signature,
}

/// Why a declaration or a definition was refused.
#[derive(Debug)]
pub enum ModuleError {
    /// An identifier was used before it was declared.
    Undeclared(String),
    /// An identifier was used contrary to the way it was declared.
    IncompatibleDeclaration(String),
    /// An identifier was defined more than once.
    DuplicateDefinition(String),
    /// An identifier was defined, but was declared as an import.
    InvalidImportDefinition(String),
    /// The function could not be compiled.
    Compilation(String),
    /// The backend failed.
    Backend(String),
}

impl ModuleError {
    /// The message of the error: what went wrong, and the identifier or the
    /// cause.
    pub open spec fn message_text(self) -> Seq<char> {
        match self {
            ModuleError::Undeclared(s) => "Undeclared identifier: "@ + s@,
            ModuleError::IncompatibleDeclaration(s) => "Incompatible declaration of identifier: "@
                + s@,
            ModuleError::DuplicateDefinition(s) => "Duplicate definition of identifier: "@ + s@,
            ModuleError::InvalidImportDefinition(s) =>
                "Invalid to define identifier declared as an import: "@ + s@,
            ModuleError::Compilation(s) => "Compilation error: "@ + s@,
            ModuleError::Backend(s) => "Backend error: "@ + s@,
        }
    }

    /// The message of the error.
    pub fn to_string(&self) -> (r: String)
        ensures
            r@ == self.message_text(),
    {
        match self {
            ModuleError::Undeclared(s) => String::from_str("Undeclared identifier: ").concat(
                s.as_str(),
            ),
            ModuleError::IncompatibleDeclaration(s) => String::from_str(
                "Incompatible declaration of identifier: ",
            ).concat(s.as_str()),
            ModuleError::DuplicateDefinition(s) => String::from_str(
                "Duplicate definition of identifier: ",
            ).concat(s.as_str()),
            ModuleError::InvalidImportDefinition(s) => String::from_str(
                "Invalid to define identifier declared as an import: ",
            ).concat(s.as_str()),
            ModuleError::Compilation(s) => String::from_str("Compilation error: ").concat(
                s.as_str(),
            ),
            ModuleError::Backend(s) => String::from_str("Backend error: ").concat(s.as_str()),
        }
    }
}

/// A function that belongs to a module.
pub struct ModuleFunction {
    /// The declaration of the function.
    pub decl: FunctionDeclaration,
    /// Has the function been defined?
    pub compiled: bool,
    /// Has the function been finalized?
    pub finalized: bool,
}

/// A data object that belongs to a module.
pub struct ModuleData {
    /// The declaration of the data object.
    pub decl: DataDeclaration,
    /// Has the data object been defined?
    pub compiled: bool,
    /// Has the data object been finalized?
    pub finalized: bool,
}

/// The functions and data objects of a module, and the names under which they
/// were declared.
pub struct Module {
    /// The names that were declared, each with what it refers to.
    pub names: Vec<(String, FuncOrDataId)>,
    /// The functions, by their numbers.
    pub functions: Vec<ModuleFunction>,
    /// The data objects, by their numbers.
    pub data_objects: Vec<ModuleData>,
}

/// What the first `count` of the names give for `name`: what the first of them
/// with this name refers to.
pub open spec fn name_lookup(
    names: Seq<(String, FuncOrDataId)>,
    name: Seq<char>,
    count: nat,
) -> Option<FuncOrDataId>
    decreases count,
{
    if count == 0 {
        None
    } else {
        match name_lookup(names, name, (count - 1) as nat) {
            Some(id) => Some(id),
            None => if names[count - 1].0@ == name {
                Some(names[count - 1].1)
            } else {
                None
            },
        }
    }
}

impl Module {
    /// What `name` refers to in the module, if it was declared.
    pub open spec fn named(&self, name: Seq<char>) -> Option<FuncOrDataId> {
        name_lookup(self.names@, name, self.names@.len())
    }

    /// The invariant of a module: every name refers to a function or a data
    /// object that the module has, and the numbers of the functions and of the
    /// data objects fit in 32 bits.
    pub open spec fn wf(&self) -> bool {
        &&& self.functions@.len() < u32::MAX
        &&& self.data_objects@.len() < u32::MAX
        &&& forall|i: int|
            0 <= i < self.names@.len() ==> match (#[trigger] self.names@[i]).1 {
                FuncOrDataId::Func(id) => id.0 < self.functions@.len(),
                FuncOrDataId::Data(id) => id.0 < self.data_objects@.len(),
            }
    }

    /// A name that the module gives refers to something that the module has.
    pub proof fn lemma_named_in_range(&self, name: Seq<char>, count: nat)
        requires
            self.wf(),
            count <= self.names@.len(),
        ensures
            (match name_lookup(self.names@, name, count) {
                Some(FuncOrDataId::Func(id)) => id.0 < self.functions@.len(),
                Some(FuncOrDataId::Data(id)) => id.0 < self.data_objects@.len(),
                None => true,
            }),
        decreases count,
    {
        if count > 0 {
            self.lemma_named_in_range(name, (count - 1) as nat);
            let entry = self.names@[count - 1];
            assert(match entry.1 {
                FuncOrDataId::Func(id) => id.0 < self.functions@.len(),
                FuncOrDataId::Data(id) => id.0 < self.data_objects@.len(),
            });
        }
    }

    /// Create a module without functions and data objects.
    pub fn new() -> (r: Module)
        ensures
            r.wf(),
            r.names@.len() == 0,
            r.functions@.len() == 0,
            r.data_objects@.len() == 0,
    {
        Module { names: Vec::new(), functions: Vec::new(), data_objects: Vec::new() }
    }

    /// What `name` refers to, if it was declared.
    pub fn get_name(&self, name: &str) -> (r: Option<FuncOrDataId>)
        ensures
            r == self.named(name@),
    {
        let mut i: usize = 0;
        while i < self.names.len()
            invariant
                i <= self.names@.len(),
                name_lookup(self.names@, name@, i as nat) is None,
            decreases self.names@.len() - i,
        {
            if str_eq(self.names[i].0.as_str(), name) {
                proof {
                    lemma_lookup_found(self.names@, name@, (i + 1) as nat, self.names@.len());
                }
                return Some(self.names[i].1);
            }
            i += 1;
        }
        None
    }
}

/// Once a name was found among the first of the names, more names change
/// nothing.
proof fn lemma_lookup_found(
    names: Seq<(String, FuncOrDataId)>,
    name: Seq<char>,
    k: nat,
    count: nat,
)
    requires
        k <= count,
        name_lookup(names, name, k) is Some,
    ensures
        name_lookup(names, name, count) == name_lookup(names, name, k),
    decreases count,
{
    if k < count {
        lemma_lookup_found(names, name, k, (count - 1) as nat);
    }
}

/// What a name gives does not change where a name is added at the end, unless
/// the name was not declared and is the one that is added.
proof fn lemma_lookup_push(
    names: Seq<(String, FuncOrDataId)>,
    entry: (String, FuncOrDataId),
    name: Seq<char>,
    count: nat,
)
    requires
        count <= names.len(),
    ensures
        name_lookup(names.push(entry), name, count) == name_lookup(names, name, count),
    decreases count,
{
    if count > 0 {
        lemma_lookup_push(names, entry, name, (count - 1) as nat);
    }
}

impl Module {
    /// Declare a function.
    ///
    /// A name that is declared for the first time gets the next number. A
    /// function that was declared before keeps its number, and its linkage
    /// becomes the stronger of the two; the signatures have to be the same. A
    /// name that stands for a data object cannot be declared as a function.
    #[verifier::rlimit(40)]
    pub fn declare_function(&mut self, name: &str, linkage: Linkage, signature: &Signature) -> (r:
        Result<FuncId, ModuleError>)
        requires
            old(self).wf(),
            old(self).functions@.len() + 1 < u32::MAX,
        ensures
            final(self).wf(),
            final(self).data_objects == old(self).data_objects,
            (match old(self).named(name@) {
                Some(FuncOrDataId::Func(id)) => {
                    let before = old(self).functions@[id.0 as int];
                    let after = final(self).functions@[id.0 as int];
                    &&& final(self).names == old(self).names
                    &&& final(self).functions@.len() == old(self).functions@.len()
                    &&& forall|i: int|
                        0 <= i < old(self).functions@.len() && i != id.0 ==> final(self).functions@[i] == old(self).functions@[i]
                    &&& after.decl.linkage == merged(before.decl.linkage, linkage)
                    &&& after.decl.name == before.decl.name
                    &&& after.decl.signature == before.decl.signature
                    &&& after.compiled == before.compiled
                    &&& after.finalized == before.finalized
                    &&& if before.decl.signature.matches(signature) {
                        r == Ok::<FuncId, ModuleError>(id)
                    } else {
                        r matches Err(ModuleError::IncompatibleDeclaration(s)) && s@ == name@
                    }
                },
                Some(FuncOrDataId::Data(_)) => {
                    &&& *final(self) == *old(self)
                    &&& r matches Err(ModuleError::IncompatibleDeclaration(s)) && s@ == name@
                },
                None => {
                    let id = FuncId(old(self).functions@.len() as u32);
                    &&& r == Ok::<FuncId, ModuleError>(id)
                    &&& final(self).names@.len() == old(self).names@.len() + 1
                    &&& final(self).named(name@) == Some(FuncOrDataId::Func(id))
                    &&& final(self).functions@.len() == old(self).functions@.len() + 1
                    &&& forall|i: int|
                        0 <= i < old(self).functions@.len() ==> final(self).functions@[i] == old(self).functions@[i]
                    &&& final(self).functions@.last().decl.name@ == name@
                    &&& final(self).functions@.last().decl.linkage == linkage
                    &&& final(self).functions@.last().decl.signature.matches(signature)
                    &&& !final(self).functions@.last().compiled
                    &&& !final(self).functions@.last().finalized
                },
            }),
    {
        proof {
            self.lemma_named_in_range(name@, self.names@.len() as nat);
        }
        match self.get_name(name) {
            Some(FuncOrDataId::Func(id)) => {
                let index = id.index();
                let merged_linkage = Linkage::merge(self.functions[index].decl.linkage, linkage);
                self.functions[index].decl.linkage = merged_linkage;
                if !self.functions[index].decl.signature.same(signature) {
                    return Err(ModuleError::IncompatibleDeclaration(String::from_str(name)));
                }
                Ok(id)
            },
            Some(FuncOrDataId::Data(_)) => Err(
                ModuleError::IncompatibleDeclaration(String::from_str(name)),
            ),
            None => {
                let id = FuncId::new(self.functions.len());
                self.functions.push(
                    ModuleFunction {
                        decl: FunctionDeclaration {
                            name: String::from_str(name),
                            linkage,
                            signature: signature.duplicate(),
                        },
                        compiled: false,
                        finalized: false,
                    },
                );
                let ghost before = self.names@;
                let entry = (String::from_str(name), FuncOrDataId::Func(id));
                proof {
                    lemma_lookup_push(before, entry, name@, before.len());
                }
                self.names.push(entry);
                Ok(id)
            },
        }
    }

    /// Declare a data object.
    ///
    /// A name that is declared for the first time gets the next number. A data
    /// object that was declared before keeps its number; its linkage becomes
    /// the stronger of the two, and it is writable if either declaration says
    /// so. A name that stands for a function cannot be declared as a data
    /// object.
    #[verifier::rlimit(40)]
    pub fn declare_data(&mut self, name: &str, linkage: Linkage, writable: bool) -> (r: Result<
        DataId,
        ModuleError,
    >)
        requires
            old(self).wf(),
            old(self).data_objects@.len() + 1 < u32::MAX,
        ensures
            final(self).wf(),
            final(self).functions == old(self).functions,
            (match old(self).named(name@) {
                Some(FuncOrDataId::Data(id)) => {
                    let before = old(self).data_objects@[id.0 as int];
                    let after = final(self).data_objects@[id.0 as int];
                    &&& r == Ok::<DataId, ModuleError>(id)
                    &&& final(self).names == old(self).names
                    &&& final(self).data_objects@.len() == old(self).data_objects@.len()
                    &&& forall|i: int|
                        0 <= i < old(self).data_objects@.len() && i != id.0 ==> final(self).data_objects@[i] == old(self).data_objects@[i]
                    &&& after.decl.linkage == merged(before.decl.linkage, linkage)
                    &&& after.decl.writable == (before.decl.writable || writable)
                    &&& after.decl.name == before.decl.name
                    &&& after.compiled == before.compiled
                    &&& after.finalized == before.finalized
                },
                Some(FuncOrDataId::Func(_)) => {
                    &&& *final(self) == *old(self)
                    &&& r matches Err(ModuleError::IncompatibleDeclaration(s)) && s@ == name@
                },
                None => {
                    let id = DataId(old(self).data_objects@.len() as u32);
                    &&& r == Ok::<DataId, ModuleError>(id)
                    &&& final(self).names@.len() == old(self).names@.len() + 1
                    &&& final(self).named(name@) == Some(FuncOrDataId::Data(id))
                    &&& final(self).data_objects@.len() == old(self).data_objects@.len() + 1
                    &&& forall|i: int|
                        0 <= i < old(self).data_objects@.len() ==> final(self).data_objects@[i]
                            == old(self).data_objects@[i]
                    &&& final(self).data_objects@.last().decl.name@ == name@
                    &&& final(self).data_objects@.last().decl.linkage == linkage
                    &&& final(self).data_objects@.last().decl.writable == writable
                    &&& !final(self).data_objects@.last().compiled
                    &&& !final(self).data_objects@.last().finalized
                },
            }),
    {
        proof {
            self.lemma_named_in_range(name@, self.names@.len() as nat);
        }
        match self.get_name(name) {
            Some(FuncOrDataId::Data(id)) => {
                let index = id.index();
                let merged_linkage = Linkage::merge(
                    self.data_objects[index].decl.linkage,
                    linkage,
                );
                let merged_writable = self.data_objects[index].decl.writable || writable;
                self.data_objects[index].decl.linkage = merged_linkage;
                self.data_objects[index].decl.writable = merged_writable;
                Ok(id)
            },
            Some(FuncOrDataId::Func(_)) => Err(
                ModuleError::IncompatibleDeclaration(String::from_str(name)),
            ),
            None => {
                let id = DataId::new(self.data_objects.len());
                self.data_objects.push(
                    ModuleData {
                        decl: DataDeclaration { name: String::from_str(name), linkage, writable },
                        compiled: false,
                        finalized: false,
                    },
                );
                let ghost before = self.names@;
                let entry = (String::from_str(name), FuncOrDataId::Data(id));
                proof {
                    lemma_lookup_push(before, entry, name@, before.len());
                }
                self.names.push(entry);
                Ok(id)
            },
        }
    }
}

impl From<FuncId> for ExternalName {
    fn from(id: FuncId) -> (r: ExternalName) {
        ExternalName::User { namespace: 0, index: id.0 }
    }
}

impl vstd::std_specs::convert::FromSpecImpl<FuncId> for ExternalName {
    open spec fn obeys_from_spec() -> bool {
        true
    }

    open spec fn from_spec(id: FuncId) -> ExternalName {
        ExternalName::User { namespace: 0, index: id.0 }
    }
}

impl From<DataId> for ExternalName {
    fn from(id: DataId) -> (r: ExternalName) {
        ExternalName::User { namespace: 1, index: id.0 }
    }
}

impl vstd::std_specs::convert::FromSpecImpl<DataId> for ExternalName {
    open spec fn obeys_from_spec() -> bool {
        true
    }

    open spec fn from_spec(id: DataId) -> ExternalName {
        ExternalName::User { namespace: 1, index: id.0 }
    }
}

impl From<FuncOrDataId> for ExternalName {
    fn from(id: FuncOrDataId) -> (r: ExternalName) {
        ExternalName::User { namespace: id.namespace(), index: id.index() }
    }
}

impl vstd::std_specs::convert::FromSpecImpl<FuncOrDataId> for ExternalName {
    open spec fn obeys_from_spec() -> bool {
        true
    }

    open spec fn from_spec(id: FuncOrDataId) -> ExternalName {
        match id {
            FuncOrDataId::Func(f) => ExternalName::User { namespace: 0, index: f.0 },
            FuncOrDataId::Data(d) => ExternalName::User { namespace: 1, index: d.0 },
        }
    }
}

/// Why a function or data object with this declaration and this state cannot
/// be defined now, if it cannot: it is defined already, or it is an import.
pub open spec fn definition_error(name: String, linkage: Linkage, compiled: bool) -> Option<
    ModuleError,
> {
    if compiled {
        Some(ModuleError::DuplicateDefinition(name))
    } else if linkage == Linkage::Import {
        Some(ModuleError::InvalidImportDefinition(name))
    } else {
        None
    }
}

/// Is the error that was returned the one that is wanted: of the same kind,
/// with the same text?
pub open spec fn same_error(got: ModuleError, want: ModuleError) -> bool {
    match (got, want) {
        (ModuleError::Undeclared(a), ModuleError::Undeclared(b)) => a@ == b@,
        (
            ModuleError::IncompatibleDeclaration(a),
            ModuleError::IncompatibleDeclaration(b),
        ) => a@ == b@,
        (ModuleError::DuplicateDefinition(a), ModuleError::DuplicateDefinition(b)) => a@ == b@,
        (
            ModuleError::InvalidImportDefinition(a),
            ModuleError::InvalidImportDefinition(b),
        ) => a@ == b@,
        (ModuleError::Compilation(a), ModuleError::Compilation(b)) => a@ == b@,
        (ModuleError::Backend(a), ModuleError::Backend(b)) => a@ == b@,
        _ => false,
    }
}

impl Module {
    /// The name that refers to a function in the code of a function or in a data
    /// object: the number of the function, in namespace 0.
    pub fn declare_func_in_data(&self, func: FuncId) -> (r: ExternalName)
        ensures
            r == (ExternalName::User { namespace: 0, index: func.0 }),
    {
        ExternalName::User { namespace: 0, index: func.0 }
    }

    /// The name that refers to a data object in the code of a function or in a
    /// data object: the number of the data object, in namespace 1.
    pub fn declare_data_in_data(&self, data: DataId) -> (r: ExternalName)
        ensures
            r == (ExternalName::User { namespace: 1, index: data.0 }),
    {
        ExternalName::User { namespace: 1, index: data.0 }
    }

    /// How the code of a function refers to the function `func`: by its name,
    /// and as to a function that lies in the same code where its definition is
    /// final.
    pub fn declare_func_in_func(&self, func: FuncId) -> (r: (ExternalName, bool))
        requires
            func.0 < self.functions@.len(),
        ensures
            r.0 == (ExternalName::User { namespace: 0, index: func.0 }),
            r.1 == (self.functions@[func.0 as int].decl.linkage == Linkage::Local
                || self.functions@[func.0 as int].decl.linkage == Linkage::Export),
    {
        let colocated = self.functions[func.index()].decl.linkage.is_final();
        (ExternalName::User { namespace: 0, index: func.0 }, colocated)
    }

    /// How the code of a function refers to the data object `data`: by its
    /// name, and as to one that lies in the same code where its definition is
    /// final.
    pub fn declare_data_in_func(&self, data: DataId) -> (r: (ExternalName, bool))
        requires
            data.0 < self.data_objects@.len(),
        ensures
            r.0 == (ExternalName::User { namespace: 1, index: data.0 }),
            r.1 == (self.data_objects@[data.0 as int].decl.linkage == Linkage::Local
                || self.data_objects@[data.0 as int].decl.linkage == Linkage::Export),
    {
        let colocated = self.data_objects[data.index()].decl.linkage.is_final();
        (ExternalName::User { namespace: 1, index: data.0 }, colocated)
    }

    /// Does the name refer to a function, not to a data object? The name has to
    /// be a user name; those of functions are in namespace 0.
    pub fn is_function(&self, name: &ExternalName) -> (r: bool)
        requires
            *name is User,
        ensures
            r == (name->namespace == 0),
    {
        match *name {
            ExternalName::User { namespace, .. } => namespace == 0,
            _ => false,
        }
    }

    /// The declaration of the function that `name` refers to.
    pub fn get_function_decl(&self, name: &ExternalName) -> (r: &FunctionDeclaration)
        requires
            *name is User,
            name->namespace == 0,
            name->index < self.functions@.len(),
        ensures
            *r == self.functions@[name->index as int].decl,
    {
        match *name {
            ExternalName::User { index, .. } => &self.functions[index as usize].decl,
            _ => &self.functions[0].decl,
        }
    }

    /// The declaration of the data object that `name` refers to.
    pub fn get_data_decl(&self, name: &ExternalName) -> (r: &DataDeclaration)
        requires
            *name is User,
            name->namespace == 1,
            name->index < self.data_objects@.len(),
        ensures
            *r == self.data_objects@[name->index as int].decl,
    {
        match *name {
            ExternalName::User { index, .. } => &self.data_objects[index as usize].decl,
            _ => &self.data_objects[0].decl,
        }
    }

    /// See whether the function can be defined now: it has no definition yet,
    /// and it is no import.
    pub fn check_function_definable(&self, func: FuncId) -> (r: Result<(), ModuleError>)
        requires
            func.0 < self.functions@.len(),
        ensures
            (match definition_error(
                self.functions@[func.0 as int].decl.name,
                self.functions@[func.0 as int].decl.linkage,
                self.functions@[func.0 as int].compiled,
            ) {
                Some(e) => r is Err && same_error(r->Err_0, e),
                None => r is Ok,
            }),
    {
        let info = &self.functions[func.index()];
        if info.compiled {
            return Err(ModuleError::DuplicateDefinition(info.decl.name.clone()));
        }
        if !info.decl.linkage.is_definable() {
            return Err(ModuleError::InvalidImportDefinition(info.decl.name.clone()));
        }
        Ok(())
    }

    /// Define a function: where it can be defined, it counts as defined from
    /// now on. The body is the business of the backend, which is asked for it
    /// once `check_function_definable` has found nothing in the way.
    pub fn define_function(&mut self, func: FuncId) -> (r: Result<(), ModuleError>)
        requires
            old(self).wf(),
            func.0 < old(self).functions@.len(),
        ensures
            final(self).wf(),
            final(self).names == old(self).names,
            final(self).data_objects == old(self).data_objects,
            final(self).functions@.len() == old(self).functions@.len(),
            forall|i: int|
                0 <= i < old(self).functions@.len() && i != func.0 ==> final(self).functions@[i]
                    == old(self).functions@[i],
            final(self).functions@[func.0 as int].decl == old(self).functions@[func.0 as int].decl,
            final(self).functions@[func.0 as int].finalized == old(self).functions@[func.0 as int].finalized,
            (match definition_error(
                old(self).functions@[func.0 as int].decl.name,
                old(self).functions@[func.0 as int].decl.linkage,
                old(self).functions@[func.0 as int].compiled,
            ) {
                Some(e) => r is Err && same_error(r->Err_0, e) && final(self).functions@[func.0 as int].compiled == old(self).functions@[func.0 as int].compiled,
                None => r is Ok && final(self).functions@[func.0 as int].compiled,
            }),
    {
        match self.check_function_definable(func) {
            Err(e) => Err(e),
            Ok(()) => {
                self.functions[func.index()].compiled = true;
                Ok(())
            },
        }
    }

    /// See whether the data object can be defined now: it has no definition
    /// yet, and it is no import.
    pub fn check_data_definable(&self, data: DataId) -> (r: Result<(), ModuleError>)
        requires
            data.0 < self.data_objects@.len(),
        ensures
            (match definition_error(
                self.data_objects@[data.0 as int].decl.name,
                self.data_objects@[data.0 as int].decl.linkage,
                self.data_objects@[data.0 as int].compiled,
            ) {
                Some(e) => r is Err && same_error(r->Err_0, e),
                None => r is Ok,
            }),
    {
        let info = &self.data_objects[data.index()];
        if info.compiled {
            return Err(ModuleError::DuplicateDefinition(info.decl.name.clone()));
        }
        if !info.decl.linkage.is_definable() {
            return Err(ModuleError::InvalidImportDefinition(info.decl.name.clone()));
        }
        Ok(())
    }

    /// Define a data object: where it can be defined, it counts as defined from
    /// now on.
    pub fn define_data(&mut self, data: DataId) -> (r: Result<(), ModuleError>)
        requires
            old(self).wf(),
            data.0 < old(self).data_objects@.len(),
        ensures
            final(self).wf(),
            final(self).names == old(self).names,
            final(self).functions == old(self).functions,
            final(self).data_objects@.len() == old(self).data_objects@.len(),
            forall|i: int|
                0 <= i < old(self).data_objects@.len() && i != data.0 ==> final(self).data_objects@[i] == old(self).data_objects@[i],
            final(self).data_objects@[data.0 as int].decl == old(self).data_objects@[data.0 as int].decl,
            final(self).data_objects@[data.0 as int].finalized == old(self).data_objects@[data.0 as int].finalized,
            (match definition_error(
                old(self).data_objects@[data.0 as int].decl.name,
                old(self).data_objects@[data.0 as int].decl.linkage,
                old(self).data_objects@[data.0 as int].compiled,
            ) {
                Some(e) => r is Err && same_error(r->Err_0, e) && final(self).data_objects@[data.0 as int].compiled == old(self).data_objects@[data.0 as int].compiled,
                None => r is Ok && final(self).data_objects@[data.0 as int].compiled,
            }),
    {
        match self.check_data_definable(data) {
            Err(e) => Err(e),
            Ok(()) => {
                self.data_objects[data.index()].compiled = true;
                Ok(())
            },
        }
    }

    /// Finalize a function: it is defined, no import, and was not finalized before.
    pub fn finalize_function(&mut self, func: FuncId)
        requires
            old(self).wf(),
            func.0 < old(self).functions@.len(),
            old(self).functions@[func.0 as int].decl.linkage != Linkage::Import,
            old(self).functions@[func.0 as int].compiled,
            !old(self).functions@[func.0 as int].finalized,
        ensures
            final(self).wf(),
            final(self).names == old(self).names,
            final(self).data_objects == old(self).data_objects,
            final(self).functions@.len() == old(self).functions@.len(),
            forall|i: int|
                0 <= i < old(self).functions@.len() && i != func.0 ==> final(self).functions@[i]
                    == old(self).functions@[i],
            final(self).functions@[func.0 as int].decl == old(self).functions@[func.0 as int].decl,
            final(self).functions@[func.0 as int].compiled,
            final(self).functions@[func.0 as int].finalized,
    {
        self.functions[func.index()].finalized = true;
    }

    /// Finalize a data object: it is defined, no import, and was not finalized
    /// before.
    pub fn finalize_data(&mut self, data: DataId)
        requires
            old(self).wf(),
            data.0 < old(self).data_objects@.len(),
            old(self).data_objects@[data.0 as int].decl.linkage != Linkage::Import,
            old(self).data_objects@[data.0 as int].compiled,
            !old(self).data_objects@[data.0 as int].finalized,
        ensures
            final(self).wf(),
            final(self).names == old(self).names,
            final(self).functions == old(self).functions,
            final(self).data_objects@.len() == old(self).data_objects@.len(),
            forall|i: int|
                0 <= i < old(self).data_objects@.len() && i != data.0 ==> final(self).data_objects@[i] == old(self).data_objects@[i],
            final(self).data_objects@[data.0 as int].decl == old(self).data_objects@[data.0 as int].decl,
            final(self).data_objects@[data.0 as int].compiled,
            final(self).data_objects@[data.0 as int].finalized,
    {
        self.data_objects[data.index()].finalized = true;
    }

    /// Is function number `i` one that is still to be finalized: no import, and
    /// not finalized yet?
    pub open spec fn function_is_open(&self, i: int) -> bool {
        self.functions@[i].decl.linkage != Linkage::Import && !self.functions@[i].finalized
    }

    /// Is data object number `i` one that is still to be finalized?
    pub open spec fn data_is_open(&self, i: int) -> bool {
        self.data_objects@[i].decl.linkage != Linkage::Import && !self.data_objects@[i].finalized
    }

    /// The functions and the data objects that are still to be finalized, each
    /// in the order of their numbers. All of them have to be defined.
    #[verifier::rlimit(40)]
    pub fn finalize_all(&self) -> (r: (Vec<FuncId>, Vec<DataId>))
        requires
            self.wf(),
            forall|i: int|
                0 <= i < self.functions@.len() && self.function_is_open(i)
                    ==> self.functions@[i].compiled,
            forall|i: int|
                0 <= i < self.data_objects@.len() && self.data_is_open(i)
                    ==> self.data_objects@[i].compiled,
        ensures
            r.0@ == Seq::new(self.functions@.len(), |i: int| FuncId(i as u32)).filter(
                |id: FuncId| self.function_is_open(id.0 as int),
            ),
            r.1@ == Seq::new(self.data_objects@.len(), |i: int| DataId(i as u32)).filter(
                |id: DataId| self.data_is_open(id.0 as int),
            ),
    {
        let mut funcs: Vec<FuncId> = Vec::new();
        let ghost all_funcs = Seq::new(self.functions@.len(), |i: int| FuncId(i as u32));
        let ghost open_func = |id: FuncId| self.function_is_open(id.0 as int);
        let mut i: usize = 0;
        assert(all_funcs.subrange(0, 0) =~= Seq::<FuncId>::empty());
        while i < self.functions.len()
            invariant
                self.wf(),
                i <= self.functions@.len(),
                all_funcs == Seq::new(self.functions@.len(), |i: int| FuncId(i as u32)),
                open_func == |id: FuncId| self.function_is_open(id.0 as int),
                funcs@ == all_funcs.subrange(0, i as int).filter(open_func),
            decreases self.functions@.len() - i,
        {
            let info = &self.functions[i];
            let ghost prefix = all_funcs.subrange(0, i + 1);
            proof {
                assert(prefix.drop_last() =~= all_funcs.subrange(0, i as int));
                assert(prefix.last() == FuncId(i as u32));
                reveal(Seq::filter);
            }
            if info.decl.linkage.is_definable() && !info.finalized {
                funcs.push(FuncId::new(i));
            }
            i += 1;
        }
        assert(all_funcs.subrange(0, self.functions@.len() as int) =~= all_funcs);
        let mut datas: Vec<DataId> = Vec::new();
        let ghost all_datas = Seq::new(self.data_objects@.len(), |i: int| DataId(i as u32));
        let ghost open_data = |id: DataId| self.data_is_open(id.0 as int);
        let mut j: usize = 0;
        assert(all_datas.subrange(0, 0) =~= Seq::<DataId>::empty());
        while j < self.data_objects.len()
            invariant
                self.wf(),
                j <= self.data_objects@.len(),
                all_datas == Seq::new(self.data_objects@.len(), |i: int| DataId(i as u32)),
                open_data == |id: DataId| self.data_is_open(id.0 as int),
                datas@ == all_datas.subrange(0, j as int).filter(open_data),
            decreases self.data_objects@.len() - j,
        {
            let info = &self.data_objects[j];
            let ghost prefix = all_datas.subrange(0, j + 1);
            proof {
                assert(prefix.drop_last() =~= all_datas.subrange(0, j as int));
                assert(prefix.last() == DataId(j as u32));
                reveal(Seq::filter);
            }
            if info.decl.linkage.is_definable() && !info.finalized {
                datas.push(DataId::new(j));
            }
            j += 1;
        }
        assert(all_datas.subrange(0, self.data_objects@.len() as int) =~= all_datas);
        (funcs, datas)
    }
}

} // verus!
