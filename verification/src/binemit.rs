//! Emitting binary machine code.
//!
//! Machine code is written to a code sink byte by byte. A sink that writes
//! to memory hands the relocations and the traps that come with the code on to
//! two further sinks.

use crate::entity::JumpTable;
use vstd::prelude::*;

verus! {

/// An offset into the code of a function, in bytes.
pub type CodeOffset = u32;

/// A number that is added to the address that a relocation refers to.
pub type Addend = i64;

/// A number that names a kind of relocation; what it means is up to the target.
#[derive(Copy, Clone, PartialEq, Eq, Structural, Debug)]
pub struct Reloc(pub u16);

/// A place in the source that an instruction came from.
#[derive(Copy, Clone, PartialEq, Eq, Structural, Debug)]
pub struct SourceLoc(pub u32);

/// Why an instruction traps.
#[derive(Copy, Clone, PartialEq, Eq, Structural, Debug)]
pub enum TrapCode {
    /// The stack has run over.
    StackOverflow,
    /// An access outside of a heap.
    HeapOutOfBounds,
    /// An integer operation has run over.
    IntegerOverflow,
    /// A division by zero.
    IntegerDivisionByZero,
    /// A trap that the user of the code defines.
    User(u16),
}

/// The name of something outside of the function.
#[derive(Copy, Clone, PartialEq, Eq, Structural, Debug)]
pub enum ExternalName {
    /// A name that the user gives meaning to: a number in a namespace.
    User {
        /// The namespace.
        namespace: u32,
        /// The number within the namespace.
        index: u32,
    },
    /// A function of the runtime library, by its number.
    LibCall(u32),
}

/// The sizes of the parts of the code of a function.
#[derive(Copy, Clone, PartialEq, Eq, Structural, Debug)]
pub struct CodeInfo {
    /// The size of the machine code, in bytes.
    pub code_size: CodeOffset,
    /// The size of the jump tables.
    pub jumptables_size: CodeOffset,
    /// The size of the read-only data.
    pub rodata_size: CodeOffset,
    /// The size of all of them together.
    pub total_size: CodeOffset,
}

/// Receives the relocations of code that is written to memory.
pub trait RelocSink {
    /// Has the sink taken in a relocation against a block, as it is meant to?
    spec fn took_ebb(&self, before: &Self, at: CodeOffset, rel: Reloc, target: CodeOffset) -> bool;

    /// Has the sink taken in a relocation against an external name?
    spec fn took_external(
        &self,
        before: &Self,
        at: CodeOffset,
        rel: Reloc,
        name: ExternalName,
        addend: Addend,
    ) -> bool;

    /// Has the sink taken in a relocation against a jump table?
    spec fn took_jt(&self, before: &Self, at: CodeOffset, rel: Reloc, jt: JumpTable) -> bool;

    /// Add a relocation at `at` that refers to a block at the offset `target`.
    fn reloc_ebb(&mut self, at: CodeOffset, rel: Reloc, target: CodeOffset)
        ensures
            final(self).took_ebb(old(self), at, rel, target),
    ;

    /// Add a relocation at `at` that refers to an external name.
    fn reloc_external(&mut self, at: CodeOffset, rel: Reloc, name: &ExternalName, addend: Addend)
        ensures
            final(self).took_external(old(self), at, rel, *name, addend),
    ;

    /// Add a relocation at `at` that refers to a jump table.
    fn reloc_jt(&mut self, at: CodeOffset, rel: Reloc, jt: JumpTable)
        ensures
            final(self).took_jt(old(self), at, rel, jt),
    ;
}

/// Receives the traps of code that is written to memory.
pub trait TrapSink {
    /// Has the sink taken in a trap, as it is meant to?
    spec fn took_trap(&self, before: &Self, at: CodeOffset, srcloc: SourceLoc, code: TrapCode) -> bool;

    /// Add what is known about the trap at the offset `at`.
    fn trap(&mut self, at: CodeOffset, srcloc: SourceLoc, code: TrapCode)
        ensures
            final(self).took_trap(old(self), at, srcloc, code),
    ;
}

/// A trap sink that does nothing, for code whose traps nobody asks about.
pub struct NullTrapSink {}

impl TrapSink for NullTrapSink {
    open spec fn took_trap(
        &self,
        before: &Self,
        at: CodeOffset,
        srcloc: SourceLoc,
        code: TrapCode,
    ) -> bool {
        true
    }

    fn trap(&mut self, _offset: CodeOffset, _srcloc: SourceLoc, _code: TrapCode) {
    }
}

/// A relocation sink that does nothing.
pub struct NullRelocSink {}

impl RelocSink for NullRelocSink {
    open spec fn took_ebb(
        &self,
        before: &Self,
        at: CodeOffset,
        rel: Reloc,
        target: CodeOffset,
    ) -> bool {
        true
    }

    open spec fn took_external(
        &self,
        before: &Self,
        at: CodeOffset,
        rel: Reloc,
        name: ExternalName,
        addend: Addend,
    ) -> bool {
        true
    }

    open spec fn took_jt(&self, before: &Self, at: CodeOffset, rel: Reloc, jt: JumpTable) -> bool {
        true
    }

    fn reloc_ebb(&mut self, _at: CodeOffset, _rel: Reloc, _target: CodeOffset) {
    }

    fn reloc_external(
        &mut self,
        _at: CodeOffset,
        _rel: Reloc,
        _name: &ExternalName,
        _addend: Addend,
    ) {
    }

    fn reloc_jt(&mut self, _at: CodeOffset, _rel: Reloc, _jt: JumpTable) {
    }
}

/// What a relocation refers to.
#[derive(Copy, Clone, PartialEq, Eq, Structural, Debug)]
pub enum RelocTarget {
    /// A block at this offset.
    Ebb(CodeOffset),
    /// An external name, and an addend.
    External(ExternalName, Addend),
    /// A jump table.
    JumpTable(JumpTable),
}

/// A relocation sink that keeps the relocations in the order in which they
/// come: for each the offset, the kind and what it refers to.
pub struct RelocLog {
    /// The relocations that were taken in.
    pub entries: Vec<(CodeOffset, Reloc, RelocTarget)>,
}

impl RelocLog {
    /// Create an empty log.
    pub fn new() -> (r: RelocLog)
        ensures
            r.entries@.len() == 0,
    {
        RelocLog { entries: Vec::new() }
    }
}

impl RelocSink for RelocLog {
    open spec fn took_ebb(
        &self,
        before: &Self,
        at: CodeOffset,
        rel: Reloc,
        target: CodeOffset,
    ) -> bool {
        self.entries@ == before.entries@.push((at, rel, RelocTarget::Ebb(target)))
    }

    open spec fn took_external(
        &self,
        before: &Self,
        at: CodeOffset,
        rel: Reloc,
        name: ExternalName,
        addend: Addend,
    ) -> bool {
        self.entries@ == before.entries@.push((at, rel, RelocTarget::External(name, addend)))
    }

    open spec fn took_jt(&self, before: &Self, at: CodeOffset, rel: Reloc, jt: JumpTable) -> bool {
        self.entries@ == before.entries@.push((at, rel, RelocTarget::JumpTable(jt)))
    }

    fn reloc_ebb(&mut self, at: CodeOffset, rel: Reloc, target: CodeOffset) {
        self.entries.push((at, rel, RelocTarget::Ebb(target)));
    }

    fn reloc_external(&mut self, at: CodeOffset, rel: Reloc, name: &ExternalName, addend: Addend) {
        self.entries.push((at, rel, RelocTarget::External(*name, addend)));
    }

    fn reloc_jt(&mut self, at: CodeOffset, rel: Reloc, jt: JumpTable) {
        self.entries.push((at, rel, RelocTarget::JumpTable(jt)));
    }
}

/// A trap sink that keeps the traps in the order in which they come.
pub struct TrapLog {
    /// The traps that were taken in.
    pub entries: Vec<(CodeOffset, SourceLoc, TrapCode)>,
}

impl TrapLog {
    /// Create an empty log.
    pub fn new() -> (r: TrapLog)
        ensures
            r.entries@.len() == 0,
    {
        TrapLog { entries: Vec::new() }
    }
}

impl TrapSink for TrapLog {
    open spec fn took_trap(
        &self,
        before: &Self,
        at: CodeOffset,
        srcloc: SourceLoc,
        code: TrapCode,
    ) -> bool {
        self.entries@ == before.entries@.push((at, srcloc, code))
    }

    fn trap(&mut self, at: CodeOffset, srcloc: SourceLoc, code: TrapCode) {
        self.entries.push((at, srcloc, code));
    }
}

/// The bytes of a number, the least significant first: `count` of them.
pub open spec fn le_bytes(x: nat, count: nat) -> Seq<u8>
    decreases count,
{
    if count == 0 {
        Seq::empty()
    } else {
        seq![(x % 256) as u8] + le_bytes(x / 256, (count - 1) as nat)
    }
}

/// Something that machine code is written to, byte by byte.
pub trait CodeSink {
    /// The bytes that were written so far.
    spec fn written(&self) -> Seq<u8>;

    /// The offset at which the next byte will be written.
    fn offset(&self) -> (r: CodeOffset)
        requires
            self.written().len() <= u32::MAX,
        ensures
            r == self.written().len(),
    ;

    /// Write one byte.
    fn put1(&mut self, x: u8)
        requires
            old(self).written().len() + 1 <= u32::MAX,
        ensures
            final(self).written() == old(self).written().push(x),
    ;

    /// Write two bytes, the less significant first.
    fn put2(&mut self, x: u16)
        requires
            old(self).written().len() + 2 <= u32::MAX,
        ensures
            final(self).written() == old(self).written() + le_bytes(x as nat, 2),
    ;

    /// Write four bytes, the least significant first.
    fn put4(&mut self, x: u32)
        requires
            old(self).written().len() + 4 <= u32::MAX,
        ensures
            final(self).written() == old(self).written() + le_bytes(x as nat, 4),
    ;

    /// Write eight bytes, the least significant first.
    fn put8(&mut self, x: u64)
        requires
            old(self).written().len() + 8 <= u32::MAX,
        ensures
            final(self).written() == old(self).written() + le_bytes(x as nat, 8),
    ;
}

/// A code sink that writes machine code to memory of its own.
///
/// Relocations and traps are handed on to the two sinks that it holds, each
/// with the offset at which it was met.
pub struct MemoryCodeSink<R: RelocSink, T: TrapSink> {
    /// The bytes that were written.
    pub data: Vec<u8>,
    /// Where relocations go.
    pub relocs: R,
    /// Where traps go.
    pub traps: T,
    /// The sizes of the parts of the code.
    pub info: CodeInfo,
}

impl<R: RelocSink, T: TrapSink> MemoryCodeSink<R, T> {
    /// Create a sink that has written nothing yet.
    pub fn new(relocs: R, traps: T) -> (r: Self)
        ensures
            r.data@.len() == 0,
            r.relocs == relocs,
            r.traps == traps,
            r.info == (CodeInfo {
                code_size: 0,
                jumptables_size: 0,
                rodata_size: 0,
                total_size: 0,
            }),
    {
        MemoryCodeSink {
            data: Vec::new(),
            relocs,
            traps,
            info: CodeInfo { code_size: 0, jumptables_size: 0, rodata_size: 0, total_size: 0 },
        }
    }

    /// Write the `count` lowest bytes of `x`, the least significant first.
    fn write(&mut self, x: u64, count: u8)
        requires
            old(self).data@.len() + count <= u32::MAX,
            count <= 8,
        ensures
            final(self).data@ == old(self).data@ + le_bytes(x as nat, count as nat),
            final(self).relocs == old(self).relocs,
            final(self).traps == old(self).traps,
            final(self).info == old(self).info,
        decreases count,
    {
        if count > 0 {
            self.data.push((x % 256) as u8);
            self.write(x / 256, count - 1);
        }
        assert(self.data@ =~= old(self).data@ + le_bytes(x as nat, count as nat));
    }

    /// Add a relocation at the current offset that refers to a block.
    pub fn reloc_ebb(&mut self, rel: Reloc, ebb_offset: CodeOffset)
        requires
            old(self).data@.len() <= u32::MAX,
        ensures
            final(self).data@ == old(self).data@,
            final(self).info == old(self).info,
            final(self).traps == old(self).traps,
            final(self).relocs.took_ebb(
                &old(self).relocs,
                old(self).data@.len() as u32,
                rel,
                ebb_offset,
            ),
    {
        let ofs = self.data.len() as u32;
        self.relocs.reloc_ebb(ofs, rel, ebb_offset);
    }

    /// Add a relocation at the current offset that refers to an external name.
    pub fn reloc_external(&mut self, rel: Reloc, name: &ExternalName, addend: Addend)
        requires
            old(self).data@.len() <= u32::MAX,
        ensures
            final(self).data@ == old(self).data@,
            final(self).info == old(self).info,
            final(self).traps == old(self).traps,
            final(self).relocs.took_external(
                &old(self).relocs,
                old(self).data@.len() as u32,
                rel,
                *name,
                addend,
            ),
    {
        let ofs = self.data.len() as u32;
        self.relocs.reloc_external(ofs, rel, name, addend);
    }

    /// Add a relocation at the current offset that refers to a jump table.
    pub fn reloc_jt(&mut self, rel: Reloc, jt: JumpTable)
        requires
            old(self).data@.len() <= u32::MAX,
        ensures
            final(self).data@ == old(self).data@,
            final(self).info == old(self).info,
            final(self).traps == old(self).traps,
            final(self).relocs.took_jt(&old(self).relocs, old(self).data@.len() as u32, rel, jt),
    {
        let ofs = self.data.len() as u32;
        self.relocs.reloc_jt(ofs, rel, jt);
    }

    /// Add what is known about a trap at the current offset.
    pub fn trap(&mut self, code: TrapCode, srcloc: SourceLoc)
        requires
            old(self).data@.len() <= u32::MAX,
        ensures
            final(self).data@ == old(self).data@,
            final(self).info == old(self).info,
            final(self).relocs == old(self).relocs,
            final(self).traps.took_trap(
                &old(self).traps,
                old(self).data@.len() as u32,
                srcloc,
                code,
            ),
    {
        let ofs = self.data.len() as u32;
        self.traps.trap(ofs, srcloc, code);
    }

    /// The machine code ends here, and the jump tables begin.
    pub fn begin_jumptables(&mut self)
        requires
            old(self).data@.len() <= u32::MAX,
        ensures
            final(self).data@ == old(self).data@,
            final(self).relocs == old(self).relocs,
            final(self).traps == old(self).traps,
            final(self).info == (CodeInfo {
                code_size: old(self).data@.len() as u32,
                ..old(self).info
            }),
    {
        self.info.code_size = self.data.len() as u32;
    }

    /// The jump tables end here, and the read-only data begins.
    pub fn begin_rodata(&mut self)
        requires
            old(self).info.code_size <= old(self).data@.len() <= u32::MAX,
        ensures
            final(self).data@ == old(self).data@,
            final(self).relocs == old(self).relocs,
            final(self).traps == old(self).traps,
            final(self).info == (CodeInfo {
                jumptables_size: (old(self).data@.len() - old(self).info.code_size) as u32,
                ..old(self).info
            }),
    {
        self.info.jumptables_size = self.data.len() as u32 - self.info.code_size;
    }

    /// The code of the function ends here.
    pub fn end_codegen(&mut self)
        requires
            old(self).info.jumptables_size <= old(self).data@.len() <= u32::MAX,
        ensures
            final(self).data@ == old(self).data@,
            final(self).relocs == old(self).relocs,
            final(self).traps == old(self).traps,
            final(self).info == (CodeInfo {
                rodata_size: (old(self).data@.len() - old(self).info.jumptables_size) as u32,
                total_size: old(self).data@.len() as u32,
                ..old(self).info
            }),
    {
        self.info.rodata_size = self.data.len() as u32 - self.info.jumptables_size;
        self.info.total_size = self.data.len() as u32;
    }
}

impl<R: RelocSink, T: TrapSink> CodeSink for MemoryCodeSink<R, T> {
    open spec fn written(&self) -> Seq<u8> {
        self.data@
    }

    fn offset(&self) -> (r: CodeOffset) {
        self.data.len() as u32
    }

    fn put1(&mut self, x: u8)
        ensures
            final(self).relocs == old(self).relocs,
            final(self).traps == old(self).traps,
            final(self).info == old(self).info,
    {
        self.data.push(x);
    }

    fn put2(&mut self, x: u16)
        ensures
            final(self).relocs == old(self).relocs,
            final(self).traps == old(self).traps,
            final(self).info == old(self).info,
    {
        self.write(x as u64, 2);
    }

    fn put4(&mut self, x: u32)
        ensures
            final(self).relocs == old(self).relocs,
            final(self).traps == old(self).traps,
            final(self).info == old(self).info,
    {
        self.write(x as u64, 4);
    }

    fn put8(&mut self, x: u64)
        ensures
            final(self).relocs == old(self).relocs,
            final(self).traps == old(self).traps,
            final(self).info == old(self).info,
    {
        self.write(x, 8);
    }
}

} // verus!
