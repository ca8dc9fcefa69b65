//! Open-addressed hash tables with quadratic probing.
//!
//! A table has a power-of-two number of entries, each empty or holding a key. A
//! key is looked for at the entry that its hash names, then one entry further,
//! then two further than that, then three, and so on, until the key or an empty
//! entry is found.

use vstd::prelude::*;
use vstd::string::StrSliceExecFns;

verus! {

/// The hash of the empty string.
pub const HASH_SEED: u32 = 5381;

/// One step of the hash: mix the character `c` into `h`.
pub open spec fn hash_step(h: u32, c: char) -> u32 {
    ((((h ^ (c as u32)) as int) + (((h >> 6) | (h << 26)) as int)) % 0x1_0000_0000) as u32
}

/// The hash of a string: the characters are mixed in one by one, first to last.
pub open spec fn hash_of(text: Seq<char>) -> u32
    decreases text.len(),
{
    if text.len() == 0 {
        HASH_SEED
    } else {
        hash_step(hash_of(text.drop_last()), text.last())
    }
}

/// A simple hash function for strings.
pub fn simple_hash(s: &str) -> (h: u32)
    ensures
        h == hash_of(s@),
{
    let n = s.unicode_len();
    let mut h: u32 = HASH_SEED;
    let mut i: usize = 0;
    assert(s@.subrange(0, 0) =~= Seq::<char>::empty());
    while i < n
        invariant
            i <= n,
            n == s@.len(),
            h == hash_of(s@.subrange(0, i as int)),
        decreases n - i,
    {
        let c = s.get_char(i);
        let ghost prefix = s@.subrange(0, i + 1);
        assert(prefix.drop_last() =~= s@.subrange(0, i as int));
        assert(prefix.last() == c);
        let rotated: u32 = (h >> 6) | (h << 26);
        h = (h ^ (c as u32)).wrapping_add(rotated);
        i += 1;
    }
    assert(s@.subrange(0, n as int) =~= s@);
    h
}

/// A key of a hash table: two keys can be told apart.
pub trait TableKey: Copy {
    /// Do the two keys stand for the same thing?
    spec fn key_eq(self, other: Self) -> bool;

    /// Do the two keys stand for the same thing?
    fn same_key(self, other: Self) -> (r: bool)
        ensures
            r == self.key_eq(other),
    ;
}

impl<'a> TableKey for &'a str {
    open spec fn key_eq(self, other: Self) -> bool {
        self@ == other@
    }

    fn same_key(self, other: Self) -> (r: bool) {
        crate::text::str_eq(self, other)
    }
}

/// A hash table that can be probed.
pub trait Table<K: TableKey> {
    /// The entries of the table: each is empty or holds a key.
    spec fn entries(&self) -> Seq<Option<K>>;

    /// The number of entries in the table.
    fn len(&self) -> (r: usize)
        ensures
            r == self.entries().len(),
    ;

    /// The key at entry `idx`, or `None` for an empty entry.
    fn key(&self, idx: usize) -> (r: Option<K>)
        requires
            idx < self.entries().len(),
        ensures
            r == self.entries()[idx as int],
    ;
}

/// The entry that is looked at after `steps` steps of probing from `hash`, in a
/// table of `len` entries, a power of two: the first is the hash cut down to the
/// size of the table, and the one after `steps` steps lies `steps` entries after
/// the one before, counted round the table.
pub open spec fn probe_index(hash: usize, steps: nat, len: usize) -> usize
    decreases steps,
{
    let mask = (len - 1) as usize;
    if steps == 0 {
        hash & mask
    } else {
        probe_index(hash, (steps - 1) as nat, len).wrapping_add(steps as usize) & mask
    }
}

/// Does probing stop at the entry `entry` when it looks for `key`: is the entry
/// empty, or does it hold the key?
pub open spec fn stops_at<K: TableKey>(entry: Option<K>, key: K) -> bool {
    match entry {
        None => true,
        Some(k) => k.key_eq(key),
    }
}

/// What probing for `key` from `hash` finds, from step `steps` on: `Ok` with the
/// index of the first entry on the way that holds the key, or `Err` with the index
/// of an empty entry that comes before any such. After as many steps as the table
/// has entries, probing gives up with `Err` and the index it has come to.
pub open spec fn probe_from<K: TableKey>(
    entries: Seq<Option<K>>,
    key: K,
    hash: usize,
    steps: nat,
) -> Result<usize, usize>
    decreases entries.len() - steps,
{
    let idx = probe_index(hash, steps, entries.len() as usize);
    if steps >= entries.len() {
        Err(idx)
    } else if stops_at(entries[idx as int], key) {
        if entries[idx as int] is Some {
            Ok(idx)
        } else {
            Err(idx)
        }
    } else {
        probe_from(entries, key, hash, steps + 1)
    }
}

/// Is `n` a power of two that a table can have as its size?
pub open spec fn is_table_size(n: usize) -> bool {
    n > 0 && n & ((n - 1) as usize) == 0
}

/// Look for `key` in `table`, starting at the entry that `hash` names.
///
/// Returns `Ok(idx)` with the index of the entry that holds the key, or `Err(idx)`
/// with the index of the empty entry where the search ended.
pub fn probe<K: TableKey, T: Table<K>>(table: &T, key: K, hash: usize) -> (r: Result<usize, usize>)
    requires
        is_table_size(table.entries().len() as usize),
    ensures
        r == probe_from(table.entries(), key, hash, 0),
        (match r {
            Ok(idx) => idx < table.entries().len() && table.entries()[idx as int] is Some
                && table.entries()[idx as int].unwrap().key_eq(key),
            Err(idx) => idx < table.entries().len(),
        }),
{
    let len = table.len();
    let mask = len - 1;
    let mut idx = hash & mask;
    let mut step: usize = 0;
    proof {
        lemma_masked_in_table(hash, len);
    }
    loop
        invariant
            len == table.entries().len(),
            len > 0,
            mask == len - 1,
            step < len,
            idx == probe_index(hash, step as nat, len),
            idx < len,
            probe_from(table.entries(), key, hash, step as nat) == probe_from(
                table.entries(),
                key,
                hash,
                0,
            ),
        decreases len - step,
    {
        match table.key(idx) {
            None => {
                return Err(idx);
            },
            Some(k) => {
                if k.same_key(key) {
                    return Ok(idx);
                }
            },
        }
        // Quadratic probing: one entry further each time.
        step += 1;
        proof {
            lemma_masked_in_table(idx.wrapping_add(step), len);
        }
        idx = idx.wrapping_add(step) & mask;
        if step >= len {
            return Err(idx);
        }
    }
}

/// What is cut down to the size of a table names an entry of it.
pub proof fn lemma_masked_in_table(x: usize, len: usize)
    requires
        len > 0,
    ensures
        (x & ((len - 1) as usize)) < len,
{
    let mask = (len - 1) as usize;
    assert(x & mask <= mask) by (bit_vector);
}

} // verus!
