//! Settings: named values that steer code generation.
//!
//! A group of settings is described by a `Template`: the names of the settings,
//! where each lives in a vector of bytes, and the default of each. A `Builder`
//! starts from the defaults and takes changes by name, given as text. What the
//! builder holds at the end is the state of the group.

use crate::constant_hash::{probe, simple_hash, Table};
use crate::text::{parse_digits, push_decimal, str_eq};
use vstd::prelude::*;
use vstd::slice::slice_subrange;
use vstd::string::{StrSliceExecFns, StringExecFns};

verus! {

/// Why a setting could not be changed.
#[derive(Debug, PartialEq, Eq, Structural, Copy, Clone)]
pub enum Error {
    /// No setting by this name exists.
    BadName,
    /// The setting is of another type: an enumeration cannot be enabled.
    BadType,
    /// This is not a value that the setting can have.
    BadValue,
}

/// The kind of a setting, with what is needed to find its value in its byte.
#[derive(Clone, Copy, PartialEq, Eq, Structural, Debug)]
pub enum Detail {
    /// A boolean setting is one bit of its byte.
    Bool {
        /// The number of the bit, 0 to 7, counted from the least significant.
        bit: u8,
    },
    /// A numerical setting is the whole byte.
    Num,
    /// An enumerated setting holds the number of one of a range of enumerators.
    Enum {
        /// The number of the last enumerator.
        last: u8,
        /// Where the first enumerator stands in the table of enumerators.
        enumerators: u16,
    },
    /// A preset is no setting of its own: it sets several others at once. The
    /// descriptor's offset is an index into the table of presets.
    Preset,
}

impl Detail {
    /// Is this the detail of a preset?
    pub fn is_preset(&self) -> (r: bool)
        ensures
            r == (*self == Detail::Preset),
    {
        match *self {
            Detail::Preset => true,
            _ => false,
        }
    }
}

/// What is needed to set and to print one setting.
#[derive(Clone, Copy, Debug)]
pub struct Descriptor {
    /// The name of the setting, in lower case with underscores.
    pub name: &'static str,
    /// The offset of the byte that holds the setting.
    pub offset: u32,
    /// The kind of the setting.
    pub detail: Detail,
}

/// The description of a group of settings.
pub struct Template {
    /// The name of the group.
    pub name: &'static str,
    /// The descriptors of the settings.
    pub descriptors: Vec<Descriptor>,
    /// The enumerators of all enumerated settings, one range after the other.
    pub enumerators: Vec<&'static str>,
    /// A hash table from names to descriptors: each entry is the index of a
    /// descriptor, or a number that is no such index where the entry is empty.
    pub hash_table: Vec<u16>,
    /// The default of each byte.
    pub defaults: Vec<u8>,
    /// Pairs of mask and value, for the presets.
    pub presets: Vec<(u8, u8)>,
}

/// The text of a boolean: `true`, `on`, `yes` and `1` stand for true, `false`,
/// `off`, `no` and `0` for false.
pub open spec fn bool_of_text(text: Seq<char>) -> Option<bool> {
    if text == "true"@ || text == "on"@ || text == "yes"@ || text == "1"@ {
        Some(true)
    } else if text == "false"@ || text == "off"@ || text == "no"@ || text == "0"@ {
        Some(false)
    } else {
        None
    }
}

/// Read a boolean value.
pub fn parse_bool_value(value: &str) -> (r: Result<bool, Error>)
    ensures
        r == (match bool_of_text(value@) {
            Some(b) => Ok::<bool, Error>(b),
            None => Err(Error::BadValue),
        }),
{
    if str_eq(value, "true") || str_eq(value, "on") || str_eq(value, "yes") || str_eq(value, "1") {
        Ok(true)
    } else if str_eq(value, "false") || str_eq(value, "off") || str_eq(value, "no") || str_eq(
        value,
        "0",
    ) {
        Ok(false)
    } else {
        Err(Error::BadValue)
    }
}

/// The index of the first of `choices` that reads `text`, or the number of
/// choices if none does.
pub open spec fn position_of(choices: Seq<&str>, text: Seq<char>) -> int
    decreases choices.len(),
{
    if choices.len() == 0 {
        0
    } else if choices[0]@ == text {
        0
    } else {
        1 + position_of(choices.drop_first(), text)
    }
}

/// Read the value of an enumerated setting: the number of the first of `choices`
/// that reads `value`.
pub fn parse_enum_value(value: &str, choices: &[&str]) -> (r: Result<u8, Error>)
    requires
        choices@.len() <= 256,
    ensures
        r == (if position_of(choices@, value@) < choices@.len() {
            Ok::<u8, Error>(position_of(choices@, value@) as u8)
        } else {
            Err(Error::BadValue)
        }),
{
    let mut i: usize = 0;
    assert(choices@.subrange(0, choices@.len() as int) =~= choices@);
    while i < choices.len()
        invariant
            i <= choices@.len() <= 256,
            position_of(choices@, value@) == i + position_of(
                choices@.subrange(i as int, choices@.len() as int),
                value@,
            ),
        decreases choices.len() - i,
    {
        let ghost rest = choices@.subrange(i as int, choices@.len() as int);
        assert(rest.drop_first() =~= choices@.subrange(i + 1, choices@.len() as int));
        assert(rest[0] == choices@[i as int]);
        if str_eq(choices[i], value) {
            return Ok(i as u8);
        }
        i += 1;
    }
    Err(Error::BadValue)
}

/// A text without the plus sign that may stand in front of a number.
pub open spec fn unsigned_part(text: Seq<char>) -> Seq<char> {
    if text.len() > 0 && text[0] == '+' {
        text.drop_first()
    } else {
        text
    }
}

/// The byte that a text stands for: decimal digits, at least one, after a plus
/// sign or without one, that give a number up to 255.
pub open spec fn byte_of_text(text: Seq<char>) -> Option<u8> {
    match crate::text::number_in(unsigned_part(text), 10, 255) {
        Some(v) => Some(v as u8),
        None => None,
    }
}

/// Read the value of a numerical setting.
pub fn parse_num_value(value: &str) -> (r: Result<u8, Error>)
    ensures
        r == (match byte_of_text(value@) {
            Some(b) => Ok::<u8, Error>(b),
            None => Err(Error::BadValue),
        }),
{
    let n = value.unicode_len();
    let start: usize = if n > 0 && value.get_char(0) == '+' {
        1
    } else {
        0
    };
    assert(unsigned_part(value@) =~= value@.subrange(start as int, n as int));
    match parse_digits(value, start, n, 10, 255) {
        Some(v) => Ok(v as u8),
        None => Err(Error::BadValue),
    }
}

/// The byte `byte` with bit number `bit` set or cleared.
pub open spec fn with_bit(byte: u8, bit: u8, value: bool) -> u8 {
    if value {
        byte | (1u8 << bit)
    } else {
        byte & !(1u8 << bit)
    }
}

/// Is bit number `bit` of `byte` set?
pub open spec fn has_bit(byte: u8, bit: u8) -> bool {
    byte & (1u8 << bit) != 0
}

/// The byte `byte` after a preset is applied: the bits of `mask` are replaced by
/// those of `value`.
pub open spec fn with_preset(byte: u8, mask: u8, value: u8) -> u8 {
    (byte & !mask) | value
}

/// The enumerators of an enumerated setting: those from number `first` of the
/// table on, up to the one that stands for `last`.
pub open spec fn enum_tags(enumerators: Seq<&'static str>, last: u8, first: u16) -> Seq<
    &'static str,
> {
    enumerators.subrange(first as int, first + last + 1)
}

/// The value of a setting as it is written in TOML: `true` or `false` for a
/// boolean, a decimal number for a numerical setting, the enumerator between
/// double quotes for an enumerated one, or its number where that is not the
/// number of an enumerator. A preset has no value.
pub open spec fn toml_value_text(
    enumerators: Seq<&'static str>,
    detail: Detail,
    byte: u8,
) -> Seq<char> {
    match detail {
        Detail::Bool { bit } => if has_bit(byte, bit) {
            "true"@
        } else {
            "false"@
        },
        Detail::Num => crate::text::decimal_text(byte as nat),
        Detail::Enum { last, enumerators: first } => if byte <= last {
            "\""@ + enum_tags(enumerators, last, first)[byte as int]@ + "\""@
        } else {
            crate::text::decimal_text(byte as nat)
        },
        Detail::Preset => Seq::empty(),
    }
}

/// The text of one setting in a listing of a group: the name, an equals sign
/// and the value, on a line of its own. A preset has no line.
pub open spec fn setting_line(
    enumerators: Seq<&'static str>,
    d: Descriptor,
    state: Seq<u8>,
) -> Seq<char> {
    if d.detail == Detail::Preset {
        Seq::empty()
    } else {
        d.name@ + " = "@ + toml_value_text(enumerators, d.detail, state[d.offset as int]) + "\n"@
    }
}

/// The lines of the first `count` settings of a group.
pub open spec fn setting_lines(
    descriptors: Seq<Descriptor>,
    enumerators: Seq<&'static str>,
    state: Seq<u8>,
    count: nat,
) -> Seq<char>
    decreases count,
{
    if count == 0 {
        Seq::empty()
    } else {
        setting_lines(descriptors, enumerators, state, (count - 1) as nat) + setting_line(
            enumerators,
            descriptors[count - 1],
            state,
        )
    }
}

/// The listing of a group of settings: the name of the group in square brackets,
/// then a line for each setting.
pub open spec fn group_text(
    name: Seq<char>,
    descriptors: Seq<Descriptor>,
    enumerators: Seq<&'static str>,
    state: Seq<u8>,
) -> Seq<char> {
    "["@ + name + "]\n"@ + setting_lines(descriptors, enumerators, state, descriptors.len())
}

impl Template {
    /// Does the descriptor fit the tables of the template? A setting's byte is one
    /// of the bytes of the state, a bit is one of eight, the enumerators of an
    /// enumeration are in the table of enumerators, and a preset begins inside
    /// the table of presets or at its end.
    pub open spec fn fits(self, d: Descriptor) -> bool {
        match d.detail {
            Detail::Bool { bit } => bit < 8 && d.offset < self.defaults@.len(),
            Detail::Num => d.offset < self.defaults@.len(),
            Detail::Enum { last, enumerators } => d.offset < self.defaults@.len() && enumerators
                + last + 1 <= self.enumerators@.len(),
            Detail::Preset => d.offset <= self.presets@.len(),
        }
    }

    /// Is the template sound: is the size of the hash table a power of two, and
    /// does every descriptor fit?
    pub open spec fn wf(self) -> bool {
        &&& crate::constant_hash::is_table_size(self.hash_table@.len() as usize)
        &&& forall|i: int|
            0 <= i < self.descriptors@.len() ==> self.fits(#[trigger] self.descriptors@[i])
    }

    /// The enumerators of an enumerated setting.
    pub open spec fn enum_tags(self, last: u8, enumerators: u16) -> Seq<&'static str> {
        enum_tags(self.enumerators@, last, enumerators)
    }

    /// The enumerators of an enumerated setting.
    pub fn enums(&self, last: u8, enumerators: u16) -> (r: &[&'static str])
        requires
            enumerators + last + 1 <= self.enumerators@.len(),
        ensures
            r@ == self.enum_tags(last, enumerators),
    {
        let from = enumerators as usize;
        let len = last as usize + 1;
        slice_subrange(self.enumerators.as_slice(), from, from + len)
    }

    /// The value of a setting as it is written in TOML.
    pub open spec fn toml_value_text(self, detail: Detail, byte: u8) -> Seq<char> {
        toml_value_text(self.enumerators@, detail, byte)
    }

    /// Append the value of a setting to `out`, written as in TOML.
    pub fn format_toml_value(&self, detail: Detail, byte: u8, out: &mut String)
        requires
            (match detail {
                Detail::Bool { bit } => bit < 8,
                Detail::Enum { last, enumerators } => enumerators + last + 1
                    <= self.enumerators@.len(),
                _ => true,
            }),
        ensures
            final(out)@ == old(out)@ + self.toml_value_text(detail, byte),
    {
        match detail {
            Detail::Bool { bit } => {
                if byte & (1u8 << bit) != 0 {
                    out.append("true");
                } else {
                    out.append("false");
                }
            },
            Detail::Num => {
                push_decimal(out, byte as u64);
            },
            Detail::Enum { last, enumerators } => {
                if byte <= last {
                    let tags = self.enums(last, enumerators);
                    out.append("\"");
                    out.append(tags[byte as usize]);
                    out.append("\"");
                    assert(out@ =~= old(out)@ + self.toml_value_text(detail, byte));
                } else {
                    push_decimal(out, byte as u64);
                }
            },
            // Presets are not printed: they show in the other settings.
            Detail::Preset => {
                assert(out@ =~= old(out)@ + self.toml_value_text(detail, byte));
            },
        }
    }

    /// The descriptor that the hash table gives for `name`, if it gives one.
    pub open spec fn find(self, name: &str) -> Option<Descriptor> {
        match crate::constant_hash::probe_from(
            self.entries(),
            name,
            crate::constant_hash::hash_of(name@) as usize,
            0,
        ) {
            Ok(entry) => Some(self.descriptors@[self.hash_table@[entry as int] as int]),
            Err(_) => None,
        }
    }
}

impl<'a> Table<&'a str> for Template {
    open spec fn entries(&self) -> Seq<Option<&'a str>> {
        Seq::new(
            self.hash_table@.len(),
            |i: int|
                if self.hash_table@[i] < self.descriptors@.len() {
                    Some(self.descriptors@[self.hash_table@[i] as int].name)
                } else {
                    None
                },
        )
    }

    fn len(&self) -> (r: usize) {
        self.hash_table.len()
    }

    fn key(&self, idx: usize) -> (r: Option<&'a str>) {
        let e = self.hash_table[idx] as usize;
        if e < self.descriptors.len() {
            Some(self.descriptors[e].name)
        } else {
            None
        }
    }
}

/// Something that takes settings by name, given as text.
pub trait Configurable {
    /// Set a setting, of whatever kind, to the value that `value` stands for.
    fn set(&mut self, name: &str, value: &str) -> (r: Result<(), Error>);

    /// Enable a boolean setting, or apply a preset.
    fn enable(&mut self, name: &str) -> (r: Result<(), Error>);
}

/// Collects the values of a group of settings.
pub struct Builder {
    template: Template,
    bytes: Vec<u8>,
}

/// The state after the presets from `offset` on are applied: byte by byte, as far
/// as both the state and the presets reach.
pub open spec fn preset_applied(state: Seq<u8>, presets: Seq<(u8, u8)>, offset: int) -> Seq<u8> {
    Seq::new(
        state.len(),
        |i: int|
            if offset + i < presets.len() {
                with_preset(state[i], presets[offset + i].0, presets[offset + i].1)
            } else {
                state[i]
            },
    )
}

/// What setting `name` to `value` does to a state: the new state, or why there is
/// none.
pub open spec fn state_after_set(
    template: Template,
    state: Seq<u8>,
    name: &str,
    value: Seq<char>,
) -> Result<Seq<u8>, Error> {
    match template.find(name) {
        None => Err(Error::BadName),
        Some(d) => match d.detail {
            Detail::Bool { bit } => match bool_of_text(value) {
                Some(b) => Ok(state.update(d.offset as int, with_bit(state[d.offset as int], bit, b))),
                None => Err(Error::BadValue),
            },
            Detail::Num => match byte_of_text(value) {
                Some(b) => Ok(state.update(d.offset as int, b)),
                None => Err(Error::BadValue),
            },
            Detail::Enum { last, enumerators } => {
                let tags = template.enum_tags(last, enumerators);
                if position_of(tags, value) < tags.len() {
                    Ok(state.update(d.offset as int, position_of(tags, value) as u8))
                } else {
                    Err(Error::BadValue)
                }
            },
            Detail::Preset => Err(Error::BadName),
        },
    }
}

/// What enabling `name` does to a state: the new state, or why there is none.
pub open spec fn state_after_enable(template: Template, state: Seq<u8>, name: &str) -> Result<
    Seq<u8>,
    Error,
> {
    match template.find(name) {
        None => Err(Error::BadName),
        Some(d) => match d.detail {
            Detail::Bool { bit } => Ok(
                state.update(d.offset as int, with_bit(state[d.offset as int], bit, true)),
            ),
            Detail::Preset => Ok(preset_applied(state, template.presets@, d.offset as int)),
            _ => Err(Error::BadType),
        },
    }
}

impl Builder {
    #[verifier::type_invariant]
    spec fn inv(self) -> bool {
        self.template.wf() && self.bytes@.len() == self.template.defaults@.len()
    }

    /// The template that the builder works from.
    pub closed spec fn template(&self) -> Template {
        self.template
    }

    /// The bytes that the builder holds.
    pub closed spec fn state(&self) -> Seq<u8> {
        self.bytes@
    }

    /// Create a builder that holds the defaults of the template.
    pub fn new(tmpl: Template) -> (r: Builder)
        requires
            tmpl.wf(),
        ensures
            r.template() == tmpl,
            r.state() == tmpl.defaults@,
    {
        let bytes = vstd::slice::slice_to_vec(tmpl.defaults.as_slice());
        Builder { template: tmpl, bytes }
    }

    /// The name of the group of settings that the builder holds.
    pub fn group_name(&self) -> (r: &'static str)
        ensures
            r == self.template().name,
    {
        self.template.name
    }

    /// The state of the group named `name`, which has to be the group of this builder.
    pub fn state_for(&self, name: &str) -> (r: &[u8])
        requires
            name@ == self.template().name@,
        ensures
            r@ == self.state(),
            r@.len() == self.template().defaults@.len(),
            self.template().wf(),
    {
        proof {
            use_type_invariant(self);
        }
        self.bytes.as_slice()
    }

    /// Set or clear one bit.
    fn set_bit(&mut self, offset: usize, bit: u8, value: bool)
        requires
            offset < old(self).state().len(),
            bit < 8,
        ensures
            final(self).template() == old(self).template(),
            final(self).state() == old(self).state().update(
                offset as int,
                with_bit(old(self).state()[offset as int], bit, value),
            ),
    {
        proof {
            use_type_invariant(&*self);
        }
        let mask: u8 = 1u8 << bit;
        let byte = self.bytes[offset];
        if value {
            self.bytes[offset] = byte | mask;
        } else {
            self.bytes[offset] = byte & !mask;
        }
    }

    /// Apply the preset that begins at `offset` in the table of presets.
    fn apply_preset(&mut self, offset: usize)
        requires
            offset <= old(self).template().presets@.len(),
        ensures
            final(self).template() == old(self).template(),
            final(self).state() == preset_applied(
                old(self).state(),
                old(self).template().presets@,
                offset as int,
            ),
    {
        proof {
            use_type_invariant(&*self);
        }
        let ghost before = self.bytes@;
        let total = self.template.presets.len();
        let count = total - offset;
        let mut i: usize = 0;
        while i < self.bytes.len() && i < count
            invariant
                self.template == old(self).template,
                self.template.wf(),
                self.bytes@.len() == before.len(),
                before.len() == self.template.defaults@.len(),
                total == self.template.presets@.len(),
                count == total - offset,
                i <= self.bytes@.len(),
                i <= count,
                forall|k: int|
                    0 <= k < i ==> self.bytes@[k] == with_preset(
                        before[k],
                        self.template.presets@[offset + k].0,
                        self.template.presets@[offset + k].1,
                    ),
                forall|k: int| i <= k < before.len() ==> self.bytes@[k] == before[k],
            decreases self.bytes@.len() - i,
        {
            let (mask, value) = self.template.presets[offset + i];
            let byte = self.bytes[i];
            self.bytes[i] = (byte & !mask) | value;
            i += 1;
        }
        assert(self.bytes@ =~= preset_applied(before, self.template.presets@, offset as int));
    }

    /// Look up a setting by name: the offset and the kind of the setting.
    pub fn lookup(&self, name: &str) -> (r: Result<(usize, Detail), Error>)
        ensures
            r == (match self.template().find(name) {
                Some(d) => Ok::<(usize, Detail), Error>((d.offset as usize, d.detail)),
                None => Err(Error::BadName),
            }),
            r is Ok ==> self.template().fits(self.template().find(name).unwrap()),
    {
        proof {
            use_type_invariant(self);
        }
        assert(self.template.entries().len() == self.template.hash_table@.len());
        match probe(&self.template, name, simple_hash(name) as usize) {
            Err(_) => Err(Error::BadName),
            Ok(entry) => {
                let d = &self.template.descriptors[self.template.hash_table[entry] as usize];
                Ok((d.offset as usize, d.detail))
            },
        }
    }
}

impl Configurable for Builder {
    fn enable(&mut self, name: &str) -> (r: Result<(), Error>)
        ensures
            final(self).template() == old(self).template(),
            (match state_after_enable(old(self).template(), old(self).state(), name) {
                Ok(state) => r is Ok && final(self).state() == state,
                Err(e) => r == Err::<(), Error>(e) && final(self).state() == old(self).state(),
            }),
    {
        proof {
            use_type_invariant(&*self);
        }
        let (offset, detail) = match self.lookup(name) {
            Ok(found) => found,
            Err(e) => {
                return Err(e);
            },
        };
        match detail {
            Detail::Bool { bit } => {
                self.set_bit(offset, bit, true);
                Ok(())
            },
            Detail::Preset => {
                self.apply_preset(offset);
                Ok(())
            },
            _ => Err(Error::BadType),
        }
    }

    fn set(&mut self, name: &str, value: &str) -> (r: Result<(), Error>)
        ensures
            final(self).template() == old(self).template(),
            (match state_after_set(old(self).template(), old(self).state(), name, value@) {
                Ok(state) => r is Ok && final(self).state() == state,
                Err(e) => r == Err::<(), Error>(e) && final(self).state() == old(self).state(),
            }),
    {
        proof {
            use_type_invariant(&*self);
        }
        let (offset, detail) = match self.lookup(name) {
            Ok(found) => found,
            Err(e) => {
                return Err(e);
            },
        };
        match detail {
            Detail::Bool { bit } => {
                match parse_bool_value(value) {
                    Ok(b) => {
                        self.set_bit(offset, bit, b);
                    },
                    Err(e) => {
                        return Err(e);
                    },
                }
            },
            Detail::Num => {
                match parse_num_value(value) {
                    Ok(b) => {
                        self.bytes[offset] = b;
                    },
                    Err(e) => {
                        return Err(e);
                    },
                }
            },
            Detail::Enum { last, enumerators } => {
                match parse_enum_value(value, self.template.enums(last, enumerators)) {
                    Ok(b) => {
                        self.bytes[offset] = b;
                    },
                    Err(e) => {
                        return Err(e);
                    },
                }
            },
            Detail::Preset => {
                return Err(Error::BadName);
            },
        }
        Ok(())
    }
}

/// A view of the boolean predicates of a group of settings, numbered bit by bit.
#[derive(Clone, Copy)]
pub struct PredicateView<'a>(pub &'a [u8]);

impl<'a> PredicateView<'a> {
    /// Create a view of a vector of predicate bits.
    pub fn new(bits: &'a [u8]) -> (r: PredicateView<'a>)
        ensures
            r.0@ == bits@,
    {
        PredicateView(bits)
    }

    /// Does predicate number `p` hold?
    pub fn test(self, p: usize) -> (r: bool)
        requires
            p / 8 < self.0@.len(),
        ensures
            r == has_bit(self.0@[p as int / 8], (p % 8) as u8),
    {
        self.0[p / 8] & (1u8 << ((p % 8) as u8)) != 0
    }
}

impl Template {
    /// The text of one setting in a listing of the group.
    pub open spec fn setting_line(self, d: Descriptor, state: Seq<u8>) -> Seq<char> {
        setting_line(self.enumerators@, d, state)
    }

    /// The lines of the first `count` settings of the group.
    pub open spec fn setting_lines(self, state: Seq<u8>, count: nat) -> Seq<char> {
        setting_lines(self.descriptors@, self.enumerators@, state, count)
    }

    /// The listing of the group with the values that `state` gives the settings.
    pub open spec fn group_text(self, state: Seq<u8>) -> Seq<char> {
        group_text(self.name@, self.descriptors@, self.enumerators@, state)
    }

    /// List the settings of the group with the values that `state` gives them.
    pub fn format_group(&self, state: &[u8]) -> (r: String)
        requires
            self.wf(),
            state@.len() == self.defaults@.len(),
        ensures
            r@ == self.group_text(state@),
    {
        let mut out = String::from_str("[");
        out.append(self.name);
        out.append("]\n");
        let ghost head = out@;
        let mut i: usize = 0;
        while i < self.descriptors.len()
            invariant
                self.wf(),
                state@.len() == self.defaults@.len(),
                i <= self.descriptors@.len(),
                head == "["@ + self.name@ + "]\n"@,
                out@ == head + self.setting_lines(state@, i as nat),
            decreases self.descriptors@.len() - i,
        {
            let d = self.descriptors[i];
            assert(self.fits(self.descriptors@[i as int]));
            let ghost before = out@;
            if !d.detail.is_preset() {
                out.append(d.name);
                out.append(" = ");
                self.format_toml_value(d.detail, state[d.offset as usize], &mut out);
                out.append("\n");
            }
            assert(out@ =~= before + self.setting_line(d, state@));
            assert(out@ =~= head + self.setting_lines(state@, (i + 1) as nat));
            i += 1;
        }
        out
    }
}

/// How much the code generator optimizes.
#[derive(Clone, Copy, PartialEq, Eq, Structural, Debug)]
pub enum OptLevel {
    /// Optimize as the defaults say.
    Default,
    /// Optimize for the best code.
    Best,
    /// Generate code as fast as possible.
    Fastest,
}

/// The calling convention of a function.
#[derive(Clone, Copy, PartialEq, Eq, Structural, Debug)]
pub enum CallConv {
    /// The fast convention, for calls that stay within the generated code.
    Fast,
    /// The convention for functions that are seldom called.
    Cold,
    /// The System V convention.
    SystemV,
    /// The Windows fastcall convention.
    WindowsFastcall,
    /// The convention of the Baldrdash engine.
    Baldrdash,
    /// The convention of the stack probe function.
    Probestack,
}

/// The number of bytes in the state of the shared settings.
pub const SHARED_STATE_LEN: usize = 6;

/// The descriptors of the shared settings.
pub open spec fn shared_descriptors() -> Seq<Descriptor> {
    seq![
        Descriptor { name: "opt_level", offset: 0, detail: Detail::Enum { last: 2, enumerators: 0 } },
        Descriptor { name: "enable_verifier", offset: 4, detail: Detail::Bool { bit: 0 } },
        Descriptor { name: "is_64bit", offset: 4, detail: Detail::Bool { bit: 1 } },
        Descriptor { name: "call_conv", offset: 1, detail: Detail::Enum { last: 5, enumerators: 3 } },
        Descriptor { name: "is_pic", offset: 4, detail: Detail::Bool { bit: 2 } },
        Descriptor { name: "colocated_libcalls", offset: 4, detail: Detail::Bool { bit: 3 } },
        Descriptor { name: "return_at_end", offset: 4, detail: Detail::Bool { bit: 4 } },
        Descriptor { name: "avoid_div_traps", offset: 4, detail: Detail::Bool { bit: 5 } },
        Descriptor { name: "is_compressed", offset: 4, detail: Detail::Bool { bit: 6 } },
        Descriptor { name: "enable_float", offset: 4, detail: Detail::Bool { bit: 7 } },
        Descriptor { name: "enable_nan_canonicalization", offset: 5, detail: Detail::Bool { bit: 0 } },
        Descriptor { name: "enable_simd", offset: 5, detail: Detail::Bool { bit: 1 } },
        Descriptor { name: "enable_atomics", offset: 5, detail: Detail::Bool { bit: 2 } },
        Descriptor { name: "baldrdash_prologue_words", offset: 2, detail: Detail::Num },
        Descriptor { name: "allones_funcaddrs", offset: 5, detail: Detail::Bool { bit: 3 } },
        Descriptor { name: "probestack_enabled", offset: 5, detail: Detail::Bool { bit: 4 } },
        Descriptor { name: "probestack_func_adjusts_sp", offset: 5, detail: Detail::Bool { bit: 5 } },
        Descriptor { name: "probestack_size_log2", offset: 3, detail: Detail::Num },
    ]
}

/// The enumerators of the shared settings: three levels of optimization, then six
/// calling conventions.
pub open spec fn shared_enumerators() -> Seq<&'static str> {
    seq![
        "default",
        "best",
        "fastest",
        "fast",
        "cold",
        "system_v",
        "windows_fastcall",
        "baldrdash",
        "probestack",
    ]
}

/// The listing of the shared settings with the values that `state` gives them.
pub open spec fn shared_text(state: Seq<u8>) -> Seq<char> {
    group_text("shared"@, shared_descriptors(), shared_enumerators(), state)
}

/// The template of the shared settings, those that hold for every target.
pub fn template() -> (r: Template)
    ensures
        r.wf(),
        r.name@ == "shared"@,
        r.defaults@ == seq![0u8, 0u8, 0u8, 12u8, 0x81u8, 0x16u8],
        r.descriptors@ == shared_descriptors(),
        r.enumerators@ == shared_enumerators(),
        r.presets@.len() == 0,
{
    let r = Template {
        name: "shared",
        descriptors: vec![
            Descriptor { name: "opt_level", offset: 0, detail: Detail::Enum { last: 2, enumerators: 0 } },
            Descriptor { name: "enable_verifier", offset: 4, detail: Detail::Bool { bit: 0 } },
            Descriptor { name: "is_64bit", offset: 4, detail: Detail::Bool { bit: 1 } },
            Descriptor { name: "call_conv", offset: 1, detail: Detail::Enum { last: 5, enumerators: 3 } },
            Descriptor { name: "is_pic", offset: 4, detail: Detail::Bool { bit: 2 } },
            Descriptor { name: "colocated_libcalls", offset: 4, detail: Detail::Bool { bit: 3 } },
            Descriptor { name: "return_at_end", offset: 4, detail: Detail::Bool { bit: 4 } },
            Descriptor { name: "avoid_div_traps", offset: 4, detail: Detail::Bool { bit: 5 } },
            Descriptor { name: "is_compressed", offset: 4, detail: Detail::Bool { bit: 6 } },
            Descriptor { name: "enable_float", offset: 4, detail: Detail::Bool { bit: 7 } },
            Descriptor { name: "enable_nan_canonicalization", offset: 5, detail: Detail::Bool { bit: 0 } },
            Descriptor { name: "enable_simd", offset: 5, detail: Detail::Bool { bit: 1 } },
            Descriptor { name: "enable_atomics", offset: 5, detail: Detail::Bool { bit: 2 } },
            Descriptor { name: "baldrdash_prologue_words", offset: 2, detail: Detail::Num },
            Descriptor { name: "allones_funcaddrs", offset: 5, detail: Detail::Bool { bit: 3 } },
            Descriptor { name: "probestack_enabled", offset: 5, detail: Detail::Bool { bit: 4 } },
            Descriptor { name: "probestack_func_adjusts_sp", offset: 5, detail: Detail::Bool { bit: 5 } },
            Descriptor { name: "probestack_size_log2", offset: 3, detail: Detail::Num },
        ],
        enumerators: vec![
            "default",
            "best",
            "fastest",
            "fast",
            "cold",
            "system_v",
            "windows_fastcall",
            "baldrdash",
            "probestack",
        ],
        hash_table: vec![
            0xffff, 0x000e, 0x000d, 0x000a, 0xffff, 0x0001, 0x000c, 0x0003,
            0x000b, 0x0010, 0xffff, 0xffff, 0x0011, 0xffff, 0xffff, 0xffff,
            0xffff, 0xffff, 0xffff, 0x0005, 0x0007, 0x000f, 0xffff, 0xffff,
            0x0008, 0x0002, 0xffff, 0xffff, 0x0000, 0x0004, 0x0006, 0x0009,
        ],
        defaults: vec![0x00, 0x00, 0x00, 0x0c, 0x81, 0x16],
        presets: Vec::new(),
    };
    assert(32usize & 31usize == 0) by (bit_vector);
    assert forall|i: int| 0 <= i < r.descriptors@.len() implies r.fits(
        #[trigger] r.descriptors@[i],
    ) by {}
    assert(r.descriptors@ =~= shared_descriptors());
    assert(r.enumerators@ =~= shared_enumerators());
    r
}

/// A builder for the shared settings, holding their defaults.
pub fn builder() -> (r: Builder)
    ensures
        r.template().wf(),
        r.template().name@ == "shared"@,
        r.state() == seq![0u8, 0u8, 0u8, 12u8, 0x81u8, 0x16u8],
{
    Builder::new(template())
}

/// The shared settings.
pub struct Flags {
    bytes: Vec<u8>,
}

/// Can `state` be the state of the shared settings: has it the right length, and
/// do the two enumerated settings hold the number of an enumerator?
pub open spec fn is_shared_state(state: Seq<u8>) -> bool {
    state.len() == SHARED_STATE_LEN && state[0] <= 2 && state[1] <= 5
}

impl Flags {
    #[verifier::type_invariant]
    spec fn inv(self) -> bool {
        is_shared_state(self.bytes@)
    }

    /// The bytes that hold the settings.
    pub closed spec fn state(&self) -> Seq<u8> {
        self.bytes@
    }

    /// Take the shared settings from a builder of the shared group.
    pub fn new(builder: Builder) -> (r: Flags)
        requires
            builder.template().name@ == "shared"@,
            is_shared_state(builder.state()),
        ensures
            r.state() == builder.state(),
    {
        let bytes = vstd::slice::slice_to_vec(builder.state_for("shared"));
        Flags { bytes }
    }

    /// Take the shared settings from a builder, if it is one of the shared group
    /// and the state that it holds is one of that group.
    pub fn try_new(builder: Builder) -> (r: Option<Flags>)
        ensures
            r is Some == (builder.template().name@ == "shared"@ && is_shared_state(
                builder.state(),
            )),
            r is Some ==> r.unwrap().state() == builder.state(),
    {
        if !str_eq(builder.group_name(), "shared") {
            return None;
        }
        let state = builder.state_for("shared");
        if state.len() == SHARED_STATE_LEN && state[0] <= 2 && state[1] <= 5 {
            Some(Flags::new(builder))
        } else {
            None
        }
    }

    /// How much the code generator optimizes.
    pub fn opt_level(&self) -> (r: OptLevel)
        ensures
            r == (match self.state()[0] {
                0u8 => OptLevel::Default,
                1u8 => OptLevel::Best,
                _ => OptLevel::Fastest,
            }),
    {
        proof {
            use_type_invariant(self);
        }
        match self.bytes[0] {
            0 => OptLevel::Default,
            1 => OptLevel::Best,
            _ => OptLevel::Fastest,
        }
    }

    /// The default calling convention.
    pub fn call_conv(&self) -> (r: CallConv)
        ensures
            r == (match self.state()[1] {
                0u8 => CallConv::Fast,
                1u8 => CallConv::Cold,
                2u8 => CallConv::SystemV,
                3u8 => CallConv::WindowsFastcall,
                4u8 => CallConv::Baldrdash,
                _ => CallConv::Probestack,
            }),
    {
        proof {
            use_type_invariant(self);
        }
        match self.bytes[1] {
            0 => CallConv::Fast,
            1 => CallConv::Cold,
            2 => CallConv::SystemV,
            3 => CallConv::WindowsFastcall,
            4 => CallConv::Baldrdash,
            _ => CallConv::Probestack,
        }
    }

    /// The number of words that the Baldrdash prologue pushes.
    pub fn baldrdash_prologue_words(&self) -> (r: u8)
        ensures
            r == self.state()[2],
    {
        proof {
            use_type_invariant(self);
        }
        self.bytes[2]
    }

    /// The binary logarithm of the size of the stack that is probed.
    pub fn probestack_size_log2(&self) -> (r: u8)
        ensures
            r == self.state()[3],
    {
        proof {
            use_type_invariant(self);
        }
        self.bytes[3]
    }

    /// The boolean setting with the given number, counted from the first boolean
    /// setting of the group.
    pub fn numbered_predicate(&self, p: usize) -> (r: bool)
        requires
            p < 16,
        ensures
            r == has_bit(self.state()[4 + p as int / 8], (p % 8) as u8),
    {
        proof {
            use_type_invariant(self);
        }
        self.bytes[4 + p / 8] & (1u8 << ((p % 8) as u8)) != 0
    }

    /// Is the IR verifier run after each pass?
    pub fn enable_verifier(&self) -> (r: bool)
        ensures
            r == has_bit(self.state()[4], 0),
    {
        self.numbered_predicate(0)
    }

    /// Is the target a 64-bit one?
    pub fn is_64bit(&self) -> (r: bool)
        ensures
            r == has_bit(self.state()[4], 1),
    {
        self.numbered_predicate(1)
    }

    /// Is position-independent code generated?
    pub fn is_pic(&self) -> (r: bool)
        ensures
            r == has_bit(self.state()[4], 2),
    {
        self.numbered_predicate(2)
    }

    /// Are floating point instructions enabled?
    pub fn enable_float(&self) -> (r: bool)
        ensures
            r == has_bit(self.state()[4], 7),
    {
        self.numbered_predicate(7)
    }

    /// Are SIMD instructions enabled?
    pub fn enable_simd(&self) -> (r: bool)
        ensures
            r == has_bit(self.state()[5], 1),
    {
        self.numbered_predicate(9)
    }

    /// Are atomic instructions enabled?
    pub fn enable_atomics(&self) -> (r: bool)
        ensures
            r == has_bit(self.state()[5], 2),
    {
        self.numbered_predicate(10)
    }

    /// The listing of the shared settings.
    pub fn to_string(&self) -> (r: String)
        ensures
            r@ == shared_text(self.state()),
    {
        proof {
            use_type_invariant(self);
        }
        let t = template();
        t.format_group(self.bytes.as_slice())
    }
}

} // verus!
