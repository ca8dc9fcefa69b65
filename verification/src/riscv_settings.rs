//! The settings of RISC-V targets.

use crate::settings::{Builder, Descriptor, Detail, Flags as SharedFlags, Template};
use vstd::prelude::*;

verus! {

/// The descriptors of the RISC-V settings.
pub open spec fn riscv_descriptors() -> Seq<Descriptor> {
    seq![
        Descriptor { name: "supports_m", offset: 0, detail: Detail::Bool { bit: 0 } },
        Descriptor { name: "supports_a", offset: 0, detail: Detail::Bool { bit: 1 } },
        Descriptor { name: "supports_f", offset: 0, detail: Detail::Bool { bit: 2 } },
        Descriptor { name: "supports_d", offset: 0, detail: Detail::Bool { bit: 3 } },
        Descriptor { name: "enable_m", offset: 0, detail: Detail::Bool { bit: 4 } },
        Descriptor { name: "enable_e", offset: 0, detail: Detail::Bool { bit: 5 } },
    ]
}

/// The listing of the RISC-V settings with the values that `state` gives them.
pub open spec fn riscv_text(state: Seq<u8>) -> Seq<char> {
    crate::settings::group_text("riscv"@, riscv_descriptors(), Seq::empty(), state)
}

/// The template of the RISC-V settings.
pub fn template() -> (r: Template)
    ensures
        r.wf(),
        r.name@ == "riscv"@,
        r.defaults@ == seq![0x10u8],
        r.descriptors@ == riscv_descriptors(),
        r.enumerators@ == Seq::<&'static str>::empty(),
        r.presets@.len() == 0,
{
    let r = Template {
        name: "riscv",
        descriptors: vec![
            Descriptor { name: "supports_m", offset: 0, detail: Detail::Bool { bit: 0 } },
            Descriptor { name: "supports_a", offset: 0, detail: Detail::Bool { bit: 1 } },
            Descriptor { name: "supports_f", offset: 0, detail: Detail::Bool { bit: 2 } },
            Descriptor { name: "supports_d", offset: 0, detail: Detail::Bool { bit: 3 } },
            Descriptor { name: "enable_m", offset: 0, detail: Detail::Bool { bit: 4 } },
            Descriptor { name: "enable_e", offset: 0, detail: Detail::Bool { bit: 5 } },
        ],
        enumerators: Vec::new(),
        hash_table: vec![0x0001, 0x0002, 0x0005, 0x0003, 0x0000, 0xffff, 0xffff, 0x0004],
        defaults: vec![0x10],
        presets: Vec::new(),
    };
    assert(8usize & 7usize == 0) by (bit_vector);
    assert forall|i: int| 0 <= i < r.descriptors@.len() implies r.fits(
        #[trigger] r.descriptors@[i],
    ) by {}
    assert(r.descriptors@ =~= riscv_descriptors());
    assert(r.enumerators@ =~= Seq::<&'static str>::empty());
    r
}

/// A builder for the RISC-V settings, holding their defaults.
pub fn builder() -> (r: Builder)
    ensures
        r.template().wf(),
        r.template().name@ == "riscv"@,
        r.state() == seq![0x10u8],
{
    Builder::new(template())
}

/// The RISC-V settings, together with the predicates that follow from them and
/// from the shared settings.
pub struct Flags {
    bytes: Vec<u8>,
}

/// The second byte of the flags: the predicates that do not fit in the first.
/// Bit 0 says that double precision floating point is used, bit 1 single
/// precision, and bit 2 multiplication and division.
pub open spec fn predicate_byte(use_d: bool, use_f: bool, use_m: bool) -> u8 {
    ((if use_d {
        1u8
    } else {
        0u8
    }) | (if use_f {
        2u8
    } else {
        0u8
    }) | (if use_m {
        4u8
    } else {
        0u8
    }))
}

/// The two bytes of the flags that follow from the state of the RISC-V
/// settings and the shared settings.
///
/// The first byte holds the six settings and, above them, two predicates: bit 6
/// says that all floating point instructions can be used, which takes single
/// and double precision support and SIMD, and bit 7 that atomic instructions
/// can, which takes their support and the shared setting.
pub open spec fn flags_bytes(state: u8, enable_simd: bool, enable_atomics: bool, enable_float: bool) -> Seq<
    u8,
> {
    let supports_m = state & 1 != 0;
    let supports_a = state & 2 != 0;
    let supports_f = state & 4 != 0;
    let supports_d = state & 8 != 0;
    let enable_m = state & 16 != 0;
    let first: u8 = (state & 0x3f) | (if enable_simd && supports_f && supports_d {
        0x40u8
    } else {
        0u8
    }) | (if supports_a && enable_atomics {
        0x80u8
    } else {
        0u8
    });
    seq![
        first,
        predicate_byte(
            supports_d && enable_float,
            supports_f && enable_float,
            supports_m && enable_m,
        ),
    ]
}

impl Flags {
    #[verifier::type_invariant]
    spec fn inv(self) -> bool {
        self.bytes@.len() == 2
    }

    /// The two bytes that hold the settings and the predicates.
    pub closed spec fn state(&self) -> Seq<u8> {
        self.bytes@
    }

    /// Take the RISC-V settings from a builder of the RISC-V group, and work out
    /// the predicates with the shared settings.
    pub fn new(shared: &SharedFlags, builder: &Builder) -> (r: Flags)
        requires
            builder.template().name@ == "riscv"@,
            builder.state().len() == 1,
        ensures
            r.state() == flags_bytes(
                builder.state()[0],
                crate::settings::has_bit(shared.state()[5], 1),
                crate::settings::has_bit(shared.state()[5], 2),
                crate::settings::has_bit(shared.state()[4], 7),
            ),
    {
        let state = builder.state_for("riscv")[0];
        let supports_m = state & 1 != 0;
        let supports_a = state & 2 != 0;
        let supports_f = state & 4 != 0;
        let supports_d = state & 8 != 0;
        let enable_m = state & 16 != 0;
        let mut first: u8 = state & 0x3f;
        if shared.enable_simd() && supports_f && supports_d {
            first = first | 0x40;
        }
        if supports_a && shared.enable_atomics() {
            first = first | 0x80;
        }
        let mut second: u8 = 0;
        if supports_d && shared.enable_float() {
            second = second | 1;
        }
        if supports_f && shared.enable_float() {
            second = second | 2;
        }
        if supports_m && enable_m {
            second = second | 4;
        }
        let ghost want = flags_bytes(
            state,
            crate::settings::has_bit(shared.state()[5], 1),
            crate::settings::has_bit(shared.state()[5], 2),
            crate::settings::has_bit(shared.state()[4], 7),
        );
        assert(first == want[0] && second == want[1]) by {
            assert(0u8 | 1u8 == 1u8 && 0u8 | 2u8 == 2u8 && 0u8 | 4u8 == 4u8 && 1u8 | 2u8 == 3u8
                && 1u8 | 4u8 == 5u8 && 2u8 | 4u8 == 6u8 && 3u8 | 4u8 == 7u8 && 0u8 | 0u8 == 0u8
                && 1u8 | 0u8 == 1u8 && 2u8 | 0u8 == 2u8 && 3u8 | 0u8 == 3u8) by (bit_vector);
            let low = state & 0x3f;
            assert((low | 0u8) == low && ((low | 0u8) | 0u8) == low && ((low | 0x40u8) | 0u8) == (low
                | 0x40u8) && ((low | 0u8) | 0x80u8) == (low | 0x80u8)) by (bit_vector);
        }
        let mut bytes: Vec<u8> = Vec::new();
        bytes.push(first);
        bytes.push(second);
        assert(bytes@ =~= want);
        Flags { bytes }
    }

    /// Does the CPU support multiplication and division?
    pub fn supports_m(&self) -> (r: bool)
        ensures
            r == crate::settings::has_bit(self.state()[0], 0),
    {
        proof {
            use_type_invariant(self);
        }
        self.bytes[0] & (1u8 << 0u8) != 0
    }

    /// Does the CPU support single precision floating point?
    pub fn supports_f(&self) -> (r: bool)
        ensures
            r == crate::settings::has_bit(self.state()[0], 2),
    {
        proof {
            use_type_invariant(self);
        }
        self.bytes[0] & (1u8 << 2u8) != 0
    }

    /// Does the CPU support double precision floating point?
    pub fn supports_d(&self) -> (r: bool)
        ensures
            r == crate::settings::has_bit(self.state()[0], 3),
    {
        proof {
            use_type_invariant(self);
        }
        self.bytes[0] & (1u8 << 3u8) != 0
    }

    /// Can all floating point instructions be used?
    pub fn full_float(&self) -> (r: bool)
        ensures
            r == crate::settings::has_bit(self.state()[0], 6),
    {
        proof {
            use_type_invariant(self);
        }
        self.bytes[0] & (1u8 << 6u8) != 0
    }

    /// Can atomic instructions be used?
    pub fn use_a(&self) -> (r: bool)
        ensures
            r == crate::settings::has_bit(self.state()[0], 7),
    {
        proof {
            use_type_invariant(self);
        }
        self.bytes[0] & (1u8 << 7u8) != 0
    }

    /// Can multiplication and division be used?
    pub fn use_m(&self) -> (r: bool)
        ensures
            r == crate::settings::has_bit(self.state()[1], 2),
    {
        proof {
            use_type_invariant(self);
        }
        self.bytes[1] & (1u8 << 2u8) != 0
    }

    /// The listing of the RISC-V settings. The predicates are not part of it.
    pub fn to_string(&self) -> (r: String)
        ensures
            r@ == riscv_text(self.state().subrange(0, 1)),
    {
        proof {
            use_type_invariant(self);
        }
        let t = template();
        t.format_group(vstd::slice::slice_subrange(self.bytes.as_slice(), 0, 1))
    }
}

} // verus!
