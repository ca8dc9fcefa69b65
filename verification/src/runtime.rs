//! A runtime for the translation of WebAssembly that does next to nothing.
//!
//! It keeps what a module declares and hands it back, and where the
//! translation needs something from it, it gives the simplest thing that will
//! do. Code that was translated with it is good for looking at, not for running.

use crate::settings::Flags;
use crate::text::{char_is_alphanumeric, push_decimal};
use crate::types::{Signature, Type};
use vstd::prelude::*;
use vstd::string::StringExecFns;

verus! {

/// The index of a function of a module.
pub type FunctionIndex = usize;

/// The index of a signature of a module.
pub type SignatureIndex = usize;

/// The index of a global of a module.
pub type GlobalIndex = usize;

/// The index of a table of a module.
pub type TableIndex = usize;

/// The index of a linear memory of a module.
pub type MemoryIndex = usize;

/// A global variable of a module.
#[derive(Copy, Clone, PartialEq, Eq, Structural, Debug)]
pub struct Global {
    /// The type of the variable.
    pub ty: Type,
    /// Can the variable be written to?
    pub mutability: bool,
}

/// A table of a module.
#[derive(Copy, Clone, PartialEq, Eq, Structural, Debug)]
pub struct Table {
    /// The number of entries that the table begins with.
    pub size: usize,
    /// The number of entries that it may grow to, if it is limited.
    pub maximum: Option<usize>,
}

/// A linear memory of a module.
#[derive(Copy, Clone, PartialEq, Eq, Structural, Debug)]
pub struct Memory {
    /// The number of pages that the memory begins with.
    pub pages_count: usize,
    /// The number of pages that it may grow to, if it is limited.
    pub maximum: Option<usize>,
}

/// Where a global variable lives: at an offset in the context of the virtual
/// machine.
#[derive(Copy, Clone, PartialEq, Eq, Structural, Debug)]
pub struct GlobalPlace {
    /// The offset from the context pointer.
    pub offset: i32,
    /// The type of the variable.
    pub ty: Type,
}

/// The shape of a heap: its least size, the size of the guard pages after it,
/// and the bound of a heap of fixed size.
#[derive(Copy, Clone, PartialEq, Eq, Structural, Debug)]
pub struct HeapData {
    /// The least size of the heap.
    pub min_size: i64,
    /// The size of the guard pages.
    pub guard_size: i64,
    /// The size that the heap is bound to.
    pub bound: i64,
}

/// A function that the translated code refers to: its name and its signature.
#[derive(Debug)]
pub struct ExtFunc {
    /// The name of the function.
    pub name: Vec<u8>,
    /// The signature of the function.
    pub signature: Signature,
}

/// The runtime that does next to nothing.
pub struct DummyRuntime {
    /// The signatures, just as they were declared.
    pub signatures: Vec<Signature>,
    /// The globals.
    pub globals: Vec<Global>,
    /// The index of the signature of each function, imported or local.
    pub func_types: Vec<SignatureIndex>,
    /// The names of the imported functions.
    pub imported_funcs: Vec<Vec<u8>>,
    /// The settings of the compilation.
    pub flags: Flags,
    /// The start function.
    pub start_func: Option<FunctionIndex>,
}

/// A byte of a name made fit for print: a letter or a number stays, and
/// anything else becomes an underscore. `alphanumeric` says which the byte is.
pub fn folded(c: u8, alphanumeric: bool) -> (r: u8)
    ensures
        r == (if alphanumeric {
            c
        } else {
            0x5fu8
        }),
{
    if alphanumeric {
        c
    } else {
        0x5f
    }
}

/// A byte of a name made fit for print: the byte is read as the character with
/// its number, which stays if it is a letter or a number and else becomes an
/// underscore.
pub open spec fn name_folded(c: u8) -> u8 {
    if crate::text::is_alphanumeric_char(c as char) {
        c
    } else {
        0x5fu8
    }
}

/// Make a byte of a name fit for print.
pub fn name_fold(c: u8) -> (r: u8)
    ensures
        r == name_folded(c),
{
    folded(c, char_is_alphanumeric(c as char))
}

/// The name of an imported function: the name of the module and the name of
/// the field, each made fit for print, with an underscore between them.
pub open spec fn import_name(module: Seq<u8>, field: Seq<u8>) -> Seq<u8> {
    module.map_values(|c: u8| name_folded(c)).push(0x5fu8) + field.map_values(
        |c: u8| name_folded(c),
    )
}

/// Append the bytes of `part`, made fit for print, to `name`.
fn push_folded(name: &mut Vec<u8>, part: &[u8])
    ensures
        final(name)@ == old(name)@ + part@.map_values(|c: u8| name_folded(c)),
{
    let mut i: usize = 0;
    while i < part.len()
        invariant
            i <= part@.len(),
            name@ == old(name)@ + part@.subrange(0, i as int).map_values(|c: u8| name_folded(c)),
        decreases part@.len() - i,
    {
        name.push(name_fold(part[i]));
        assert(name@ =~= old(name)@ + part@.subrange(0, i + 1).map_values(
            |c: u8| name_folded(c),
        ));
        i += 1;
    }
    assert(part@.subrange(0, part@.len() as int) =~= part@);
}

/// The name of a function that is local to the module: `localfunc` and its index.
pub open spec fn local_name(index: usize) -> Seq<char> {
    "localfunc"@ + crate::text::decimal_text(index as nat)
}

impl DummyRuntime {
    /// Create a runtime with the default settings.
    pub fn default() -> (r: DummyRuntime)
        ensures
            r.is_fresh(),
            r.flags.state() == seq![0u8, 0u8, 0u8, 12u8, 0x81u8, 0x16u8],
    {
        Self::with_flags(Flags::new(crate::settings::builder()))
    }

    /// Has the runtime been told nothing yet?
    pub open spec fn is_fresh(&self) -> bool {
        &&& self.signatures@.len() == 0
        &&& self.globals@.len() == 0
        &&& self.func_types@.len() == 0
        &&& self.imported_funcs@.len() == 0
        &&& self.start_func is None
    }

    /// Create a runtime with the given settings.
    pub fn with_flags(flags: Flags) -> (r: DummyRuntime)
        ensures
            r.is_fresh(),
            r.flags == flags,
    {
        DummyRuntime {
            signatures: Vec::new(),
            globals: Vec::new(),
            func_types: Vec::new(),
            imported_funcs: Vec::new(),
            flags,
            start_func: None,
        }
    }

    /// The settings of the compilation.
    pub fn flags(&self) -> (r: &Flags)
        ensures
            *r == self.flags,
    {
        &self.flags
    }

    /// Where the global with the given index lives: the globals lie one after
    /// the other, eight bytes each, after the first eight bytes of the context.
    pub fn make_global(&self, index: GlobalIndex) -> (r: GlobalPlace)
        requires
            index < self.globals@.len(),
            index * 8 + 8 <= i32::MAX,
        ensures
            r.offset == index * 8 + 8,
            r.ty == self.globals@[index as int].ty,
    {
        let offset: i32 = (index * 8) as i32 + 8;
        GlobalPlace { offset, ty: self.globals[index].ty }
    }

    /// The shape of the heap of any memory: none at least, a bound of four
    /// gigabytes, and two gigabytes of guard pages.
    pub fn make_heap(&self, _index: MemoryIndex) -> (r: HeapData)
        ensures
            r == (HeapData { min_size: 0, guard_size: 0x8000_0000, bound: 0x1_0000_0000 }),
    {
        HeapData { min_size: 0, guard_size: 0x8000_0000, bound: 0x1_0000_0000 }
    }

    /// The signature for indirect calls with the given index, as it was declared.
    pub fn make_indirect_sig(&self, index: SignatureIndex) -> (r: Signature)
        requires
            index < self.signatures@.len(),
        ensures
            r.params@ == self.signatures@[index as int].params@,
            r.returns@ == self.signatures@[index as int].returns@,
    {
        self.signatures[index].duplicate()
    }

    /// The function with the given index as the translated code refers to it:
    /// an imported function under the name of its import, a local one under
    /// `localfunc` and its index.
    pub fn make_direct_func(&self, index: FunctionIndex) -> (r: ExtFunc)
        requires
            index < self.func_types@.len(),
            self.func_types@[index as int] < self.signatures@.len(),
        ensures
            r.signature.params@ == self.signatures@[self.func_types@[index as int] as int].params@,
            r.signature.returns@
                == self.signatures@[self.func_types@[index as int] as int].returns@,
            index < self.imported_funcs@.len() ==> r.name@ == self.imported_funcs@[index as int]@,
            index >= self.imported_funcs@.len() ==> vstd::utf8::decode_utf8(r.name@) == local_name(
                index,
            ),
    {
        let sigidx = self.func_types[index];
        let signature = self.signatures[sigidx].duplicate();
        let name = if index < self.imported_funcs.len() {
            vstd::slice::slice_to_vec(self.imported_funcs[index].as_slice())
        } else {
            let mut text = String::from_str("localfunc");
            push_decimal(&mut text, index as u64);
            proof {
                vstd::utf8::encode_utf8_decode_utf8(text@);
            }
            vstd::slice::slice_to_vec(text.as_str().as_bytes())
        };
        ExtFunc { name, signature }
    }

    /// Take in a signature.
    pub fn declare_signature(&mut self, sig: &Signature)
        requires
            old(self).signatures@.len() < usize::MAX,
        ensures
            final(self).signatures@.len() == old(self).signatures@.len() + 1,
            forall|i: int|
                0 <= i < old(self).signatures@.len() ==> final(self).signatures@[i] == old(
                    self,
                ).signatures@[i],
            final(self).signatures@.last().params@ == sig.params@,
            final(self).signatures@.last().returns@ == sig.returns@,
            final(self).globals == old(self).globals,
            final(self).func_types == old(self).func_types,
            final(self).imported_funcs == old(self).imported_funcs,
            final(self).flags == old(self).flags,
            final(self).start_func == old(self).start_func,
    {
        self.signatures.push(sig.duplicate());
    }

    /// The signature with the given index.
    pub fn get_signature(&self, sig_index: SignatureIndex) -> (r: &Signature)
        requires
            sig_index < self.signatures@.len(),
        ensures
            *r == self.signatures@[sig_index as int],
    {
        &self.signatures[sig_index]
    }

    /// Take in an imported function. The imported functions are declared
    /// before the local ones.
    pub fn declare_func_import(&mut self, sig_index: SignatureIndex, module: &[u8], field: &[u8])
        requires
            old(self).func_types@.len() == old(self).imported_funcs@.len(),
            old(self).func_types@.len() < usize::MAX,
        ensures
            final(self).func_types@ == old(self).func_types@.push(sig_index),
            final(self).imported_funcs@.len() == old(self).imported_funcs@.len() + 1,
            forall|i: int|
                0 <= i < old(self).imported_funcs@.len() ==> final(self).imported_funcs@[i] == old(
                    self,
                ).imported_funcs@[i],
            final(self).imported_funcs@.last()@ == import_name(module@, field@),
            final(self).signatures == old(self).signatures,
            final(self).globals == old(self).globals,
            final(self).flags == old(self).flags,
            final(self).start_func == old(self).start_func,
    {
        self.func_types.push(sig_index);
        let mut name: Vec<u8> = Vec::new();
        push_folded(&mut name, module);
        name.push(0x5f);
        push_folded(&mut name, field);
        assert(name@ =~= import_name(module@, field@));
        self.imported_funcs.push(name);
    }

    /// The number of imported functions.
    pub fn get_num_func_imports(&self) -> (r: usize)
        ensures
            r == self.imported_funcs@.len(),
    {
        self.imported_funcs.len()
    }

    /// Take in the signature of a local function.
    pub fn declare_func_type(&mut self, sig_index: SignatureIndex)
        ensures
            final(self).func_types@ == old(self).func_types@.push(sig_index),
            final(self).signatures == old(self).signatures,
            final(self).globals == old(self).globals,
            final(self).imported_funcs == old(self).imported_funcs,
            final(self).flags == old(self).flags,
            final(self).start_func == old(self).start_func,
    {
        self.func_types.push(sig_index);
    }

    /// The index of the signature of a function.
    pub fn get_func_type(&self, func_index: FunctionIndex) -> (r: SignatureIndex)
        requires
            func_index < self.func_types@.len(),
        ensures
            r == self.func_types@[func_index as int],
    {
        self.func_types[func_index]
    }

    /// Take in a global.
    pub fn declare_global(&mut self, global: Global)
        ensures
            final(self).globals@ == old(self).globals@.push(global),
            final(self).signatures == old(self).signatures,
            final(self).func_types == old(self).func_types,
            final(self).imported_funcs == old(self).imported_funcs,
            final(self).flags == old(self).flags,
            final(self).start_func == old(self).start_func,
    {
        self.globals.push(global);
    }

    /// The global with the given index.
    pub fn get_global(&self, global_index: GlobalIndex) -> (r: &Global)
        requires
            global_index < self.globals@.len(),
        ensures
            *r == self.globals@[global_index as int],
    {
        &self.globals[global_index]
    }

    /// Take note of a table: nothing is kept of it.
    pub fn declare_table(&mut self, _table: Table)
        ensures
            *final(self) == *old(self),
    {
    }

    /// Take note of the elements of a table: nothing is kept of them.
    pub fn declare_table_elements(
        &mut self,
        _table_index: TableIndex,
        _offset: usize,
        _elements: &[FunctionIndex],
    )
        ensures
            *final(self) == *old(self),
    {
    }

    /// Take note of a memory: nothing is kept of it.
    pub fn declare_memory(&mut self, _memory: Memory)
        ensures
            *final(self) == *old(self),
    {
    }

    /// Take note of the data that a memory begins with: nothing is kept of it,
    /// and nothing can go wrong.
    pub fn declare_data_initialization(
        &mut self,
        _memory_index: MemoryIndex,
        _offset: usize,
        _data: &[u8],
    ) -> (r: Result<(), String>)
        ensures
            r is Ok,
            *final(self) == *old(self),
    {
        Ok(())
    }

    /// Take in the start function. There can be one.
    pub fn declare_start_func(&mut self, func_index: FunctionIndex)
        requires
            old(self).start_func is None,
        ensures
            final(self).start_func == Some(func_index),
            final(self).signatures == old(self).signatures,
            final(self).globals == old(self).globals,
            final(self).func_types == old(self).func_types,
            final(self).imported_funcs == old(self).imported_funcs,
            final(self).flags == old(self).flags,
    {
        self.start_func = Some(func_index);
    }

    /// The translation begins: nothing is to be done.
    pub fn begin_translation(&mut self)
        ensures
            *final(self) == *old(self),
    {
    }

    /// The translation goes on to the next function: nothing is to be done.
    pub fn next_function(&mut self)
        ensures
            *final(self) == *old(self),
    {
    }

    /// What growing a memory gives: the constant -1 of 32 bits, which says that
    /// the memory could not grow.
    pub fn translate_grow_memory(&self, _index: MemoryIndex) -> (r: (Type, i64))
        ensures
            r == (Type::I32, -1i64),
    {
        (Type::I32, -1)
    }

    /// What the size of a memory is: the constant -1 of 32 bits.
    pub fn translate_current_memory(&self, _index: MemoryIndex) -> (r: (Type, i64))
        ensures
            r == (Type::I32, -1i64),
    {
        (Type::I32, -1)
    }
}

} // verus!
