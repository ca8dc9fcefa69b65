//! The tables that say how instructions are encoded.
//!
//! The encodings of a target are found in two steps. A first hash table leads
//! from the controlling type of an instruction to a second hash table, which
//! leads from the opcode to a list of encodings. The list is walked, and the
//! last encoding in it whose predicates hold is the most general one.

use crate::constant_hash::{probe, Table};
use crate::instructions::Opcode;
use crate::settings::PredicateView;
use crate::types::Type;
use vstd::prelude::*;
use vstd::slice::slice_subrange;

verus! {

/// The encoding of an instruction: the recipe that writes it, and the bits that
/// the recipe is given.
#[derive(Copy, Clone, PartialEq, Eq, Structural, Debug)]
pub struct Encoding {
    /// The number of the recipe.
    pub recipe: u16,
    /// The encoding bits.
    pub bits: u16,
}

impl Encoding {
    /// Create an encoding from a recipe and encoding bits.
    pub fn new(recipe: u16, bits: u16) -> (r: Encoding)
        ensures
            r == (Encoding { recipe, bits }),
    {
        Encoding { recipe, bits }
    }

    /// The number of the recipe.
    pub fn recipe(self) -> (r: usize)
        ensures
            r == self.recipe,
    {
        self.recipe as usize
    }

    /// The encoding bits.
    pub fn bits(self) -> (r: u16)
        ensures
            r == self.bits,
    {
        self.bits
    }
}

/// What to do with an instruction that has no encoding.
#[derive(Copy, Clone, PartialEq, Eq, Structural, Debug)]
pub enum Legalize {
    /// Break it up into instructions on narrower types.
    Narrow,
    /// Expand it into other instructions.
    Expand,
}

/// An entry of a level 1 hash table, which is keyed by the controlling type.
///
/// It refers to a level 2 hash table: where that begins in the table of all
/// level 2 entries, and the binary logarithm of its length. An entry whose
/// `log2len` is zero is empty.
#[derive(Copy, Clone, Debug)]
pub struct Level1Entry {
    /// The controlling type.
    pub ty: Type,
    /// The binary logarithm of the length of the level 2 table.
    pub log2len: u8,
    /// Where the level 2 table begins.
    pub offset: u32,
}

/// An entry of a level 2 hash table, which is keyed by the opcode. It holds
/// the offset of the list of encodings of the instruction. An entry without an
/// opcode is empty.
#[derive(Copy, Clone, Debug)]
pub struct Level2Entry {
    /// The opcode, or none for an empty entry.
    pub opcode: Option<Opcode>,
    /// Where the list of encodings begins.
    pub offset: u32,
}

/// A level 1 hash table.
pub struct Level1Table<'a>(pub &'a [Level1Entry]);

/// A level 2 hash table.
pub struct Level2Table<'a>(pub &'a [Level2Entry]);

/// The keys of a level 1 table.
pub open spec fn level1_keys(table: Seq<Level1Entry>) -> Seq<Option<Type>> {
    Seq::new(
        table.len(),
        |i: int|
            if table[i].log2len != 0 {
                Some(table[i].ty)
            } else {
                None
            },
    )
}

/// The keys of a level 2 table.
pub open spec fn level2_keys(table: Seq<Level2Entry>) -> Seq<Option<Opcode>> {
    Seq::new(table.len(), |i: int| table[i].opcode)
}

impl<'a> Table<Type> for Level1Table<'a> {
    open spec fn entries(&self) -> Seq<Option<Type>> {
        level1_keys(self.0@)
    }

    fn len(&self) -> (r: usize) {
        self.0.len()
    }

    fn key(&self, idx: usize) -> (r: Option<Type>) {
        if self.0[idx].log2len != 0 {
            Some(self.0[idx].ty)
        } else {
            None
        }
    }
}

impl<'a> Table<Opcode> for Level2Table<'a> {
    open spec fn entries(&self) -> Seq<Option<Opcode>> {
        level2_keys(self.0@)
    }

    fn len(&self) -> (r: usize) {
        self.0.len()
    }

    fn key(&self, idx: usize) -> (r: Option<Opcode>) {
        self.0[idx].opcode
    }
}

/// The length of the level 2 table that a level 1 entry refers to.
pub open spec fn level2_len(entry: Level1Entry) -> usize {
    1usize << (entry.log2len as usize)
}

/// Do the two tables fit together: is the length of the level 1 table a power of
/// two, and does every level 1 entry that is not empty refer to a part of the
/// level 2 table?
pub open spec fn tables_fit(level1: Seq<Level1Entry>, level2: Seq<Level2Entry>) -> bool {
    &&& crate::constant_hash::is_table_size(level1.len() as usize)
    &&& forall|i: int|
        0 <= i < level1.len() && (#[trigger] level1[i]).log2len != 0 ==> level1[i].log2len < 32
            && level1[i].offset + level2_len(level1[i]) <= level2.len()
}

/// What the two tables give for an instruction: the offset of its list of
/// encodings, or what to do for want of one. An instruction whose type is not in
/// the level 1 table is narrowed where the lanes of the type have more than 32
/// bits, and else expanded; one whose opcode is not in the level 2 table is
/// expanded.
pub open spec fn enclist_of(
    ty: Type,
    opcode: Opcode,
    level1: Seq<Level1Entry>,
    level2: Seq<Level2Entry>,
) -> Result<usize, Legalize> {
    match crate::constant_hash::probe_from(
        level1_keys(level1),
        ty,
        crate::types::type_index(ty),
        0,
    ) {
        Err(_) => Err(
            if crate::types::type_bits(ty) > 32 {
                Legalize::Narrow
            } else {
                Legalize::Expand
            },
        ),
        Ok(l1idx) => {
            let entry = level1[l1idx as int];
            let sub = level2.subrange(entry.offset as int, entry.offset + level2_len(entry));
            match crate::constant_hash::probe_from(
                level2_keys(sub),
                opcode,
                crate::instructions::opcode_number(opcode),
                0,
            ) {
                Ok(l2idx) => Ok(sub[l2idx as int].offset as usize),
                Err(_) => Err(Legalize::Expand),
            }
        },
    }
}

/// A power of two is a size that a table can have.
proof fn lemma_power_is_table_size(k: u8)
    requires
        k < 32,
    ensures
        crate::constant_hash::is_table_size(1usize << (k as usize)),
        1 <= (1usize << (k as usize)) <= 0x8000_0000,
{
    let n: usize = 1usize << (k as usize);
    let kk = k as usize;
    assert(n > 0 && n <= 0x8000_0000 && n & ((n - 1) as usize) == 0) by (bit_vector)
        requires
            n == 1usize << kk,
            kk < 32,
    ;
}

/// Find the list of encodings of an instruction with the controlling type
/// `ctrl_typevar` and the opcode `opcode`.
///
/// Returns the offset of the list in the table of encoding lists, or what to do
/// with the instruction where it has none.
pub fn lookup_enclist(
    ctrl_typevar: Type,
    opcode: Opcode,
    level1_table: &[Level1Entry],
    level2_table: &[Level2Entry],
) -> (r: Result<usize, Legalize>)
    requires
        tables_fit(level1_table@, level2_table@),
    ensures
        r == enclist_of(ctrl_typevar, opcode, level1_table@, level2_table@),
{
    let l1 = Level1Table(level1_table);
    assert(l1.entries().len() == level1_table@.len());
    match probe(&l1, ctrl_typevar, ctrl_typevar.index()) {
        Err(_) => Err(
            if ctrl_typevar.bits() > 32 {
                Legalize::Narrow
            } else {
                Legalize::Expand
            },
        ),
        Ok(l1idx) => {
            let l1ent = level1_table[l1idx];
            proof {
                lemma_power_is_table_size(l1ent.log2len);
            }
            assert(l1ent == level1_table@[l1idx as int]);
            assert(l1.entries()[l1idx as int] is Some);
            assert(level1_table@[l1idx as int].log2len != 0);
            assert(l1ent.offset + level2_len(l1ent) <= level2_table@.len());
            let total = level2_table.len();
            let l2off = l1ent.offset as usize;
            let l2len: usize = 1usize << (l1ent.log2len as usize);
            assert(l2off + l2len <= total);
            let l2tab = slice_subrange(level2_table, l2off, l2off + l2len);
            let l2 = Level2Table(l2tab);
            assert(l2.entries().len() == l2len);
            match probe(&l2, opcode, opcode.index()) {
                Ok(l2idx) => Ok(l2tab[l2idx].offset as usize),
                Err(_) => Err(Legalize::Expand),
            }
        },
    }
}

/// The number of bits of an entry of an encoding list that hold a predicate.
pub const PRED_BITS: u8 = 12;

/// The bits of an entry of an encoding list that hold a predicate.
pub const PRED_MASK: u16 = 0x0fff;

/// The predicate that always holds.
pub const CODE_ALWAYS: u16 = 0x0fff;

/// The entry that ends an encoding list.
pub const CODE_FAIL: u16 = 0xffff;

/// Does predicate number `p` hold in a vector of predicate bits?
pub open spec fn holds(preds: Seq<u8>, p: u16) -> bool {
    crate::settings::has_bit(preds[p as int / 8], (p % 8) as u8)
}

/// Where the walk of an encoding list goes on after the entry at `pos`: past
/// the encoding that follows a predicate on the instruction, and past a
/// predicate on the target, together with the encodings that hang on it where
/// it does not hold.
pub open spec fn next_pos(enclist: Seq<u16>, pos: int, isap: Seq<u8>) -> int {
    if enclist[pos] <= CODE_ALWAYS {
        pos + 3
    } else if holds(isap, enclist[pos] & PRED_MASK) {
        pos + 1
    } else {
        pos + 1 + 3 * (enclist[pos] as int / 4096)
    }
}

/// Can the encoding list be walked from `pos` on: does every entry that the
/// walk looks at lie in the list, and every predicate that it asks for in its
/// vector of bits?
pub open spec fn can_walk(enclist: Seq<u16>, pos: int, instp: Seq<u8>, isap: Seq<u8>) -> bool
    decreases enclist.len() - pos,
{
    if pos < 0 || pos >= enclist.len() {
        false
    } else if enclist[pos] == CODE_FAIL {
        true
    } else {
        let next = next_pos(enclist, pos, isap);
        &&& pos < next < enclist.len()
        &&& if enclist[pos] <= CODE_ALWAYS {
            enclist[pos] != CODE_ALWAYS ==> enclist[pos] / 8 < instp.len()
        } else {
            (enclist[pos] & PRED_MASK) / 8 < isap.len()
        }
        &&& can_walk(enclist, next, instp, isap)
    }
}

/// The last encoding that the walk of an encoding list from `pos` on comes by,
/// or `found` if it comes by none.
///
/// An entry up to `CODE_ALWAYS` is the number of a predicate on the
/// instruction, and is followed by the recipe and the bits of an encoding, which
/// is come by where the predicate holds. Any other entry holds the number of a
/// predicate on the target and a count: where the predicate does not hold, as
/// many encodings as the count says are passed over. The walk ends at
/// `CODE_FAIL`.
pub open spec fn walk(
    enclist: Seq<u16>,
    pos: int,
    found: Option<Encoding>,
    instp: Seq<u8>,
    isap: Seq<u8>,
) -> Option<Encoding>
    decreases enclist.len() - pos,
{
    if pos < 0 || pos >= enclist.len() || enclist[pos] == CODE_FAIL {
        found
    } else {
        let next = next_pos(enclist, pos, isap);
        let found_here = if enclist[pos] <= CODE_ALWAYS && (enclist[pos] == CODE_ALWAYS || holds(
            instp,
            enclist[pos],
        )) {
            Some(Encoding { recipe: enclist[pos + 1], bits: enclist[pos + 2] })
        } else {
            found
        };
        if pos < next < enclist.len() {
            walk(enclist, next, found_here, instp, isap)
        } else {
            found_here
        }
    }
}

/// Find the most general encoding of an instruction: the last one in its list
/// of encodings whose predicates hold.
///
/// `offset` is where the list begins in `enclist`. `instp` holds the predicates
/// on the instruction, and `isap` those on the target, each as a vector of bits.
pub fn general_encoding(
    offset: usize,
    enclist: &[u16],
    instp: PredicateView,
    isap: PredicateView,
) -> (r: Option<Encoding>)
    requires
        can_walk(enclist@, offset as int, instp.0@, isap.0@),
    ensures
        r == walk(enclist@, offset as int, None, instp.0@, isap.0@),
{
    let mut found: Option<Encoding> = None;
    let mut pos: usize = offset;
    while enclist[pos] != CODE_FAIL
        invariant
            can_walk(enclist@, pos as int, instp.0@, isap.0@),
            walk(enclist@, pos as int, found, instp.0@, isap.0@) == walk(
                enclist@,
                offset as int,
                None,
                instp.0@,
                isap.0@,
            ),
        decreases enclist@.len() - pos,
    {
        let pred = enclist[pos];
        if pred <= CODE_ALWAYS {
            // A predicate on the instruction, then the recipe and the bits.
            if pred == CODE_ALWAYS || instp.test(pred as usize) {
                found = Some(Encoding::new(enclist[pos + 1], enclist[pos + 2]));
            }
            pos += 3;
        } else {
            // A predicate on the target.
            let p: u16 = pred & PRED_MASK;
            let count: u16 = pred >> PRED_BITS;
            assert(count == pred / 4096 && count <= 15 && p <= 0x0fff) by (bit_vector)
                requires
                    count == pred >> 12u16,
                    p == pred & 0x0fffu16,
            ;
            if !isap.test(p as usize) {
                // The predicate fails: pass over the encodings that hang on it.
                assert(next_pos(enclist@, pos as int, isap.0@) == pos + 1 + 3 * count);
                pos += 1 + 3 * (count as usize);
            } else {
                assert(next_pos(enclist@, pos as int, isap.0@) == pos + 1);
                pos += 1;
            }
        }
    }
    found
}

} // verus!
