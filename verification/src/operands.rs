//! Descriptions of instruction operands.
//!
//! An operand of an instruction is an SSA value, an immediate that is encoded in
//! the instruction itself, or a reference to another entity of the function. The
//! kind of an operand says which, and under which Rust type it is held.

use crate::text::{camel_case, str_eq};
use vstd::prelude::*;
use vstd::string::StringExecFns;

verus! {

/// A type variable: an operand of this kind is an SSA value whose type the
/// instruction is polymorphic over.
pub struct TypeVar {
    /// The name of the type variable.
    pub name: String,
    /// What the type variable stands for.
    pub doc: String,
}

impl TypeVar {
    /// A copy of the type variable.
    pub fn duplicate(&self) -> (r: TypeVar)
        ensures
            r == *self,
    {
        TypeVar { name: self.name.clone(), doc: self.doc.clone() }
    }
}

/// The names of the members of an enumerated immediate, each with the name of
/// the Rust value that stands for it.
pub type EnumValues = Vec<(&'static str, &'static str)>;

/// What kind of thing an operand is.
pub enum OperandKindFields {
    /// A reference to another entity of the function.
    EntityRef,
    /// A variable number of SSA values.
    VariableArgs,
    /// An immediate value.
    ImmValue,
    /// An immediate that is one of a list of named values.
    ImmEnum(EnumValues),
    /// An SSA value.
    TypeVar(TypeVar),
}

impl OperandKindFields {
    /// Do the two say the same kind of thing, with the same members or the same
    /// type variable?
    pub open spec fn same_as(self, other: OperandKindFields) -> bool {
        match (self, other) {
            (OperandKindFields::EntityRef, OperandKindFields::EntityRef) => true,
            (OperandKindFields::VariableArgs, OperandKindFields::VariableArgs) => true,
            (OperandKindFields::ImmValue, OperandKindFields::ImmValue) => true,
            (OperandKindFields::ImmEnum(a), OperandKindFields::ImmEnum(b)) => a@ == b@,
            (OperandKindFields::TypeVar(a), OperandKindFields::TypeVar(b)) => a == b,
            _ => false,
        }
    }

    /// A copy of the fields.
    pub fn duplicate(&self) -> (r: OperandKindFields)
        ensures
            r.same_as(*self),
    {
        match self {
            OperandKindFields::EntityRef => OperandKindFields::EntityRef,
            OperandKindFields::VariableArgs => OperandKindFields::VariableArgs,
            OperandKindFields::ImmValue => OperandKindFields::ImmValue,
            OperandKindFields::ImmEnum(values) => OperandKindFields::ImmEnum(
                vstd::slice::slice_to_vec(values.as_slice()),
            ),
            OperandKindFields::TypeVar(tv) => OperandKindFields::TypeVar(tv.duplicate()),
        }
    }

    /// Is this an immediate, plain or enumerated?
    pub open spec fn is_imm(self) -> bool {
        self is ImmEnum || self is ImmValue
    }

    /// The documentation that the kind of thing brings with it: only a type
    /// variable has some.
    pub open spec fn own_doc(self) -> Option<Seq<char>> {
        match self {
            OperandKindFields::TypeVar(tv) => Some(tv.doc@),
            _ => None,
        }
    }
}

/// A kind of operand.
pub struct OperandKind {
    /// The name of the kind.
    pub name: &'static str,
    /// Documentation of the kind, where it has some of its own.
    pub doc: Option<String>,
    /// The name of the member of an instruction's data that holds such an operand.
    pub default_member: Option<&'static str>,
    /// The Rust type that holds such an operand.
    pub rust_type: String,
    /// What kind of thing the operand is.
    pub fields: OperandKindFields,
}

impl OperandKind {
    /// The documentation of the kind: its own, or else that of its type variable.
    pub open spec fn doc_text(self) -> Option<Seq<char>> {
        match self.doc {
            Some(doc) => Some(doc@),
            None => self.fields.own_doc(),
        }
    }

    /// The documentation of the kind: its own, or else that of its type variable.
    pub fn doc(&self) -> (r: Option<&str>)
        ensures
            (match r {
                Some(text) => self.doc_text() == Some(text@),
                None => self.doc_text() is None,
            }),
    {
        if let Some(doc) = &self.doc {
            return Some(doc.as_str());
        }
        match &self.fields {
            OperandKindFields::TypeVar(type_var) => Some(type_var.doc.as_str()),
            OperandKindFields::ImmEnum(_)
            | OperandKindFields::ImmValue
            | OperandKindFields::EntityRef
            | OperandKindFields::VariableArgs => None,
        }
    }

    /// The name of the kind, where it is an immediate or an entity reference.
    pub fn imm_name(&self) -> (r: Option<&str>)
        ensures
            r == (if self.fields.is_imm() || self.fields is EntityRef {
                Some(self.name)
            } else {
                None
            }),
    {
        match self.fields {
            OperandKindFields::ImmEnum(_)
            | OperandKindFields::ImmValue
            | OperandKindFields::EntityRef => Some(self.name),
            _ => None,
        }
    }

    /// A copy of the kind.
    pub fn duplicate(&self) -> (r: OperandKind)
        ensures
            r.name == self.name,
            r.doc == self.doc,
            r.default_member == self.default_member,
            r.rust_type == self.rust_type,
            r.fields.same_as(self.fields),
    {
        OperandKind {
            name: self.name,
            doc: match &self.doc {
                Some(doc) => Some(doc.clone()),
                None => None,
            },
            default_member: self.default_member,
            rust_type: self.rust_type.clone(),
            fields: self.fields.duplicate(),
        }
    }

    /// The kind of an SSA value operand with the given type variable.
    pub fn from_type_var(type_var: TypeVar) -> (r: OperandKind)
        ensures
            r == OperandKindBuilder::fresh("value", OperandKindFields::TypeVar(type_var)).built(
                r.rust_type,
            ),
            r.rust_type@ == "ir::"@ + crate::text::camel_case_text("value"@),
    {
        OperandKindBuilder::new("value", OperandKindFields::TypeVar(type_var)).build()
    }
}

/// An operand of an instruction: a name and a kind.
pub struct Operand {
    /// The name of the operand.
    pub name: &'static str,
    /// Documentation of this operand, where it has some of its own.
    pub doc: Option<&'static str>,
    /// The kind of the operand.
    pub kind: OperandKind,
}

impl Operand {
    /// The documentation of the operand: its own, or else that of its type
    /// variable, or else that of its kind.
    pub open spec fn doc_text(self) -> Option<Seq<char>> {
        match self.doc {
            Some(doc) => Some(doc@),
            None => match self.kind.fields {
                OperandKindFields::TypeVar(tv) => Some(tv.doc@),
                _ => self.kind.doc_text(),
            },
        }
    }

    /// Create an operand without documentation of its own.
    pub fn new(name: &'static str, kind: OperandKind) -> (r: Operand)
        ensures
            r == (Operand { name, doc: None, kind }),
    {
        Operand { name, doc: None, kind }
    }

    /// Give the operand documentation of its own.
    pub fn with_doc(self, doc: &'static str) -> (r: Operand)
        ensures
            r == (Operand { doc: Some(doc), ..self }),
    {
        let mut this = self;
        this.doc = Some(doc);
        this
    }

    /// The documentation of the operand: its own, or else that of its type
    /// variable, or else that of its kind.
    pub fn doc(&self) -> (r: Option<&str>)
        ensures
            (match r {
                Some(text) => self.doc_text() == Some(text@),
                None => self.doc_text() is None,
            }),
    {
        if let Some(doc) = self.doc {
            return Some(doc);
        }
        match &self.kind.fields {
            OperandKindFields::TypeVar(tvar) => Some(tvar.doc.as_str()),
            _ => self.kind.doc(),
        }
    }

    /// Is the operand an SSA value?
    pub fn is_value(&self) -> (r: bool)
        ensures
            r == (self.kind.fields is TypeVar),
    {
        match self.kind.fields {
            OperandKindFields::TypeVar(_) => true,
            _ => false,
        }
    }

    /// The type variable of the operand, where it is an SSA value.
    pub fn type_var(&self) -> (r: Option<&TypeVar>)
        ensures
            (match r {
                Some(tv) => self.kind.fields == OperandKindFields::TypeVar(*tv),
                None => !(self.kind.fields is TypeVar),
            }),
    {
        match &self.kind.fields {
            OperandKindFields::TypeVar(typevar) => Some(typevar),
            _ => None,
        }
    }

    /// Is the operand a variable number of SSA values?
    pub fn is_varargs(&self) -> (r: bool)
        ensures
            r == (self.kind.fields is VariableArgs),
    {
        match self.kind.fields {
            OperandKindFields::VariableArgs => true,
            _ => false,
        }
    }

    /// Is the operand an immediate or an entity reference?
    pub fn is_immediate_or_entityref(&self) -> (r: bool)
        ensures
            r == (self.kind.fields.is_imm() || self.kind.fields is EntityRef),
    {
        match self.kind.fields {
            OperandKindFields::ImmEnum(_)
            | OperandKindFields::ImmValue
            | OperandKindFields::EntityRef => true,
            _ => false,
        }
    }

    /// Is the operand an immediate?
    pub fn is_immediate(&self) -> (r: bool)
        ensures
            r == self.kind.fields.is_imm(),
    {
        match self.kind.fields {
            OperandKindFields::ImmEnum(_) | OperandKindFields::ImmValue => true,
            _ => false,
        }
    }

    /// Is the operand a value of CPU flags: an SSA value whose type variable is
    /// named `iflags` or `fflags`?
    pub fn is_cpu_flags(&self) -> (r: bool)
        ensures
            r == (match self.kind.fields {
                OperandKindFields::TypeVar(tv) => tv.name@ == "iflags"@ || tv.name@ == "fflags"@,
                _ => false,
            }),
    {
        match &self.kind.fields {
            OperandKindFields::TypeVar(type_var) => {
                str_eq(type_var.name.as_str(), "iflags") || str_eq(
                    type_var.name.as_str(),
                    "fflags",
                )
            },
            _ => false,
        }
    }
}

/// Builds an `OperandKind` step by step.
pub struct OperandKindBuilder {
    /// The name of the kind.
    pub name: &'static str,
    /// Documentation, once it was given.
    pub doc: Option<String>,
    /// The member name, once it was given.
    pub default_member: Option<&'static str>,
    /// The Rust type, once it was given.
    pub rust_type: Option<String>,
    /// What kind of thing the operand is.
    pub fields: OperandKindFields,
}

impl OperandKindBuilder {
    /// A builder to which only the name and the kind of thing were given.
    pub open spec fn fresh(name: &'static str, fields: OperandKindFields) -> OperandKindBuilder {
        OperandKindBuilder { name, doc: None, default_member: None, rust_type: None, fields }
    }

    /// The member name of the kind that is built: the one that was given, or else
    /// `imm` for an immediate, the kind's name for a value or an entity
    /// reference, and none for variable arguments.
    pub open spec fn built_member(self) -> Option<&'static str> {
        match self.default_member {
            Some(member) => Some(member),
            None => match self.fields {
                OperandKindFields::ImmEnum(_) | OperandKindFields::ImmValue => Some("imm"),
                OperandKindFields::TypeVar(_) | OperandKindFields::EntityRef => Some(self.name),
                OperandKindFields::VariableArgs => None,
            },
        }
    }

    /// The Rust type of the kind that is built: the one that was given, or else
    /// the camel-cased name of the kind in the module of immediates or of the
    /// intermediate representation, or a slice of values for variable arguments.
    pub open spec fn built_type(self) -> Seq<char> {
        match self.rust_type {
            Some(rust_type) => rust_type@,
            None => match self.fields {
                OperandKindFields::ImmEnum(_) | OperandKindFields::ImmValue => "ir::immediates::"@
                    + crate::text::camel_case_text(self.name@),
                OperandKindFields::VariableArgs => "&[Value]"@,
                OperandKindFields::TypeVar(_) | OperandKindFields::EntityRef => "ir::"@
                    + crate::text::camel_case_text(self.name@),
            },
        }
    }

    /// The kind that is built, given the string that holds its Rust type.
    pub open spec fn built(self, rust_type: String) -> OperandKind {
        OperandKind {
            name: self.name,
            doc: self.doc,
            default_member: self.built_member(),
            rust_type,
            fields: self.fields,
        }
    }

    /// Start to build a kind with the given name.
    pub fn new(name: &'static str, fields: OperandKindFields) -> (r: OperandKindBuilder)
        ensures
            r == Self::fresh(name, fields),
    {
        OperandKindBuilder { name, doc: None, default_member: None, rust_type: None, fields }
    }

    /// Start to build an immediate kind.
    pub fn new_imm(name: &'static str) -> (r: OperandKindBuilder)
        ensures
            r == Self::fresh(name, OperandKindFields::ImmValue),
    {
        OperandKindBuilder {
            name,
            doc: None,
            default_member: None,
            rust_type: None,
            fields: OperandKindFields::ImmValue,
        }
    }

    /// Start to build an enumerated immediate kind.
    pub fn new_enum(name: &'static str, values: EnumValues) -> (r: OperandKindBuilder)
        ensures
            r == Self::fresh(name, OperandKindFields::ImmEnum(values)),
    {
        OperandKindBuilder {
            name,
            doc: None,
            default_member: None,
            rust_type: None,
            fields: OperandKindFields::ImmEnum(values),
        }
    }

    /// Give the kind its documentation. It can be given once.
    pub fn doc(self, doc: &'static str) -> (r: OperandKindBuilder)
        requires
            self.doc is None,
        ensures
            r.doc is Some,
            r.doc.unwrap()@ == doc@,
            r == (OperandKindBuilder { doc: r.doc, ..self }),
    {
        let mut this = self;
        this.doc = Some(String::from_str(doc));
        this
    }

    /// Give the kind its member name. It can be given once.
    pub fn default_member(self, default_member: &'static str) -> (r: OperandKindBuilder)
        requires
            self.default_member is None,
        ensures
            r == (OperandKindBuilder { default_member: Some(default_member), ..self }),
    {
        let mut this = self;
        this.default_member = Some(default_member);
        this
    }

    /// Give the kind its Rust type. It can be given once.
    pub fn rust_type(self, rust_type: &'static str) -> (r: OperandKindBuilder)
        requires
            self.rust_type is None,
        ensures
            r.rust_type is Some,
            r.rust_type.unwrap()@ == rust_type@,
            r == (OperandKindBuilder { rust_type: r.rust_type, ..self }),
    {
        let mut this = self;
        this.rust_type = Some(String::from_str(rust_type));
        this
    }

    /// Finish the kind, filling in the member name and the Rust type where none
    /// was given.
    pub fn build(self) -> (r: OperandKind)
        ensures
            r == self.built(r.rust_type),
            r.rust_type@ == self.built_type(),
    {
        let default_member = match self.default_member {
            Some(default_member) => Some(default_member),
            None => match &self.fields {
                OperandKindFields::ImmEnum(_) | OperandKindFields::ImmValue => Some("imm"),
                OperandKindFields::TypeVar(_) | OperandKindFields::EntityRef => Some(self.name),
                OperandKindFields::VariableArgs => None,
            },
        };
        let rust_type = match self.rust_type {
            Some(rust_type) => rust_type,
            None => match &self.fields {
                OperandKindFields::ImmEnum(_) | OperandKindFields::ImmValue => {
                    String::from_str("ir::immediates::").concat(camel_case(self.name).as_str())
                },
                OperandKindFields::VariableArgs => String::from_str("&[Value]"),
                OperandKindFields::TypeVar(_) | OperandKindFields::EntityRef => {
                    String::from_str("ir::").concat(camel_case(self.name).as_str())
                },
            },
        };
        OperandKind {
            name: self.name,
            doc: self.doc,
            default_member,
            rust_type,
            fields: self.fields,
        }
    }
}

} // verus!
