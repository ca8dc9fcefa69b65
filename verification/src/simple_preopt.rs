//! Rewrites that are made before legalization.
//!
//! Each rewrite looks at one instruction and at how its operands were defined,
//! and replaces the instruction by cheaper ones that compute the same. What is
//! decided here is handed out as a description of the rewrite; the function that
//! holds the instruction carries it out.

#![allow(non_snake_case)]

use crate::condcodes::{FloatCC, IntCC};
use crate::entity::{Ebb, Value};
use crate::immediates::Imm64;
use crate::instructions::Opcode;
use crate::types::Type;
use vstd::prelude::*;

verus! {

/// Two to the power of `k`.
pub open spec fn two_to(k: nat) -> nat
    decreases k,
{
    if k == 0 {
        1
    } else {
        2 * two_to((k - 1) as nat)
    }
}

/// The absolute value of `x`.
pub open spec fn magnitude(x: int) -> nat {
    if x < 0 {
        (-x) as nat
    } else {
        x as nat
    }
}

/// Powers of two grow with the exponent.
pub proof fn lemma_two_to_grows(a: nat, b: nat)
    requires
        a <= b,
    ensures
        two_to(a) <= two_to(b),
        two_to(a) >= 1,
    decreases b,
{
    if a < b {
        lemma_two_to_grows(a, (b - 1) as nat);
    } else if a > 0 {
        lemma_two_to_grows((a - 1) as nat, (a - 1) as nat);
    }
}

/// Two powers of two that are equal have the same exponent.
pub proof fn lemma_two_to_injective(a: nat, b: nat)
    requires
        two_to(a) == two_to(b),
    ensures
        a == b,
    decreases a + b,
{
    if a < b {
        lemma_two_to_grows(a + 1, b);
        lemma_two_to_grows(a, a);
    } else if b < a {
        lemma_two_to_grows(b + 1, a);
        lemma_two_to_grows(b, b);
    }
}

/// Some powers of two.
pub proof fn lemma_two_to_values()
    ensures
        two_to(16) == 0x1_0000,
        two_to(31) == 0x8000_0000,
        two_to(32) == 0x1_0000_0000,
        two_to(63) == 0x8000_0000_0000_0000,
        two_to(64) == 0x1_0000_0000_0000_0000,
{
    assert(two_to(16) == 0x1_0000) by {
        reveal_with_fuel(two_to, 17);
    }
    assert(two_to(32) == 0x1_0000 * two_to(16)) by {
        reveal_with_fuel(two_to, 17);
    }
    assert(two_to(31) * 2 == two_to(32));
    assert(two_to(48) == 0x1_0000 * two_to(32)) by {
        reveal_with_fuel(two_to, 17);
    }
    assert(two_to(64) == 0x1_0000 * two_to(48)) by {
        reveal_with_fuel(two_to, 17);
    }
    assert(two_to(63) * 2 == two_to(64));
}

/// Is `m` two to the power of `k`, for a `k` below `bound`? If so, the one and
/// only such `k` is returned.
fn power_of_two_below(m: u64, bound: u32) -> (r: Option<u32>)
    requires
        bound <= 64,
    ensures
        (match r {
            Some(k) => k < bound && m == two_to(k as nat),
            None => forall|k: nat| k < bound ==> m != two_to(k),
        }),
{
    let mut k: u32 = 0;
    let mut p: u64 = 1;
    while k < bound
        invariant
            k <= bound <= 64,
            k < 64 ==> p == two_to(k as nat),
            forall|j: nat| j < k ==> m != two_to(j),
        decreases bound - k,
    {
        if m == p {
            return Some(k);
        }
        proof {
            if k + 1 < 64 {
                lemma_two_to_grows(k as nat + 1, 63);
                lemma_two_to_values();
            }
        }
        k += 1;
        if k < 64 {
            p = p * 2;
        }
    }
    None
}

/// If `x` is a power of two or the negation of one, return the exponent, along
/// with a boolean that says whether `x` is negative. Else return `None`.
pub fn isPowerOf2_S32(x: i32) -> (r: Option<(bool, u32)>)
    ensures
        (match r {
            Some((negative, k)) => k <= 31 && magnitude(x as int) == two_to(k as nat) && negative
                == (x < 0),
            None => forall|k: nat| magnitude(x as int) != two_to(k),
        }),
{
    let abs_x: u64 = if x < 0 {
        (-(x as i64)) as u64
    } else {
        x as u64
    };
    match power_of_two_below(abs_x, 32) {
        Some(k) => Some((x < 0, k)),
        None => {
            proof {
                assert forall|k: nat| magnitude(x as int) != two_to(k) by {
                    if k >= 32 {
                        lemma_two_to_grows(32, k);
                        lemma_two_to_values();
                    }
                }
            }
            None
        },
    }
}

/// If `x` is a power of two or the negation of one, return the exponent, along
/// with a boolean that says whether `x` is negative. Else return `None`.
pub fn isPowerOf2_S64(x: i64) -> (r: Option<(bool, u32)>)
    ensures
        (match r {
            Some((negative, k)) => k <= 63 && magnitude(x as int) == two_to(k as nat) && negative
                == (x < 0),
            None => forall|k: nat| magnitude(x as int) != two_to(k),
        }),
{
    let abs_x: u64 = if x == i64::MIN {
        0x8000_0000_0000_0000u64
    } else if x < 0 {
        (-x) as u64
    } else {
        x as u64
    };
    match power_of_two_below(abs_x, 64) {
        Some(k) => Some((x < 0, k)),
        None => {
            proof {
                assert forall|k: nat| magnitude(x as int) != two_to(k) by {
                    if k >= 64 {
                        lemma_two_to_grows(64, k);
                        lemma_two_to_values();
                    }
                }
            }
            None
        },
    }
}

/// A division or a remainder by a constant: the dividend, which is a value, and
/// the divisor, in the width and signedness of the operation.
#[derive(Copy, Clone, PartialEq, Eq, Structural, Debug)]
pub enum DivRemByConstInfo {
    /// An unsigned 32-bit division.
    DivU32(Value, u32),
    /// An unsigned 64-bit division.
    DivU64(Value, u64),
    /// A signed 32-bit division.
    DivS32(Value, i32),
    /// A signed 64-bit division.
    DivS64(Value, i64),
    /// An unsigned 32-bit remainder.
    RemU32(Value, u32),
    /// An unsigned 64-bit remainder.
    RemU64(Value, u64),
    /// A signed 32-bit remainder.
    RemS32(Value, i32),
    /// A signed 64-bit remainder.
    RemS64(Value, i64),
}

impl DivRemByConstInfo {
    /// Is this a remainder, not a division?
    pub open spec fn is_rem(self) -> bool {
        self is RemU32 || self is RemU64 || self is RemS32 || self is RemS64
    }

    /// The dividend.
    pub open spec fn dividend(self) -> Value {
        match self {
            DivRemByConstInfo::DivU32(n, _) => n,
            DivRemByConstInfo::DivU64(n, _) => n,
            DivRemByConstInfo::DivS32(n, _) => n,
            DivRemByConstInfo::DivS64(n, _) => n,
            DivRemByConstInfo::RemU32(n, _) => n,
            DivRemByConstInfo::RemU64(n, _) => n,
            DivRemByConstInfo::RemS32(n, _) => n,
            DivRemByConstInfo::RemS64(n, _) => n,
        }
    }

    /// The divisor as a number.
    pub open spec fn divisor(self) -> int {
        match self {
            DivRemByConstInfo::DivU32(_, d) => d as int,
            DivRemByConstInfo::DivU64(_, d) => d as int,
            DivRemByConstInfo::DivS32(_, d) => d as int,
            DivRemByConstInfo::DivS64(_, d) => d as int,
            DivRemByConstInfo::RemU32(_, d) => d as int,
            DivRemByConstInfo::RemU64(_, d) => d as int,
            DivRemByConstInfo::RemS32(_, d) => d as int,
            DivRemByConstInfo::RemS64(_, d) => d as int,
        }
    }

    /// Is the operation a signed one?
    pub open spec fn is_signed(self) -> bool {
        self is DivS32 || self is DivS64 || self is RemS32 || self is RemS64
    }

    /// The type of the operation.
    pub open spec fn ty(self) -> Type {
        if self is DivU32 || self is RemU32 || self is DivS32 || self is RemS32 {
            Type::I32
        } else {
            Type::I64
        }
    }
}

/// The divisor of an operation of type `ty`, given as the 64-bit immediate
/// `imm`, where the immediate can be one: for a 64-bit operation its bits, signed
/// or unsigned, and for a 32-bit operation the immediate itself, which has to be
/// in the range of unsigned or of signed 32-bit numbers.
pub open spec fn divisor_of(ty: Type, imm: i64, signed: bool) -> Option<int> {
    if ty == Type::I32 {
        if signed {
            if -0x8000_0000 <= imm <= 0x7fff_ffff {
                Some(imm as int)
            } else {
                None
            }
        } else {
            if 0 <= imm <= 0xffff_ffff {
                Some(imm as int)
            } else {
                None
            }
        }
    } else if ty == Type::I64 {
        if signed {
            Some(imm as int)
        } else {
            Some(crate::immediates::bits_of(imm) as int)
        }
    } else {
        None
    }
}

/// Put together the description of a division or remainder by a constant, if
/// the type is a 32-bit or 64-bit integer and the immediate can be a divisor of
/// that type.
pub fn package_up_divrem_info(
    argL: Value,
    argL_ty: Type,
    argRs: i64,
    isSigned: bool,
    isRem: bool,
) -> (r: Option<DivRemByConstInfo>)
    ensures
        (match divisor_of(argL_ty, argRs, isSigned) {
            Some(d) => r is Some && r.unwrap().dividend() == argL && r.unwrap().divisor() == d
                && r.unwrap().is_rem() == isRem && r.unwrap().is_signed() == isSigned
                && r.unwrap().ty() == argL_ty,
            None => r is None,
        }),
{
    let argRu: u64 = crate::immediates::to_bits(argRs);
    if !isSigned && argL_ty == Type::I32 && argRu < 0x1_0000_0000 {
        return Some(
            if isRem {
                DivRemByConstInfo::RemU32(argL, argRu as u32)
            } else {
                DivRemByConstInfo::DivU32(argL, argRu as u32)
            },
        );
    }
    if !isSigned && argL_ty == Type::I64 {
        // Unsigned 64-bit: any immediate will do.
        return Some(
            if isRem {
                DivRemByConstInfo::RemU64(argL, argRu)
            } else {
                DivRemByConstInfo::DivU64(argL, argRu)
            },
        );
    }
    if isSigned && argL_ty == Type::I32 && (argRu <= 0x7fff_ffff || argRu
        >= 0xffff_ffff_8000_0000) {
        return Some(
            if isRem {
                DivRemByConstInfo::RemS32(argL, argRs as i32)
            } else {
                DivRemByConstInfo::DivS32(argL, argRs as i32)
            },
        );
    }
    if isSigned && argL_ty == Type::I64 {
        // Signed 64-bit: any immediate will do.
        return Some(
            if isRem {
                DivRemByConstInfo::RemS64(argL, argRs)
            } else {
                DivRemByConstInfo::DivS64(argL, argRs)
            },
        );
    }
    None
}

/// The magic numbers for an unsigned 32-bit division.
#[derive(Copy, Clone, PartialEq, Eq, Structural, Debug)]
pub struct MU32 {
    /// The number to multiply by.
    pub mul_by: u32,
    /// Is the dividend added after the multiplication?
    pub do_add: bool,
    /// The number of bits to shift by at the end.
    pub shift_by: i32,
}

/// The magic numbers for an unsigned 64-bit division.
#[derive(Copy, Clone, PartialEq, Eq, Structural, Debug)]
pub struct MU64 {
    /// The number to multiply by.
    pub mul_by: u64,
    /// Is the dividend added after the multiplication?
    pub do_add: bool,
    /// The number of bits to shift by at the end.
    pub shift_by: i32,
}

/// The magic numbers for a signed 32-bit division.
#[derive(Copy, Clone, PartialEq, Eq, Structural, Debug)]
pub struct MS32 {
    /// The number to multiply by.
    pub mul_by: i32,
    /// The number of bits to shift by at the end.
    pub shift_by: i32,
}

/// The magic numbers for a signed 64-bit division.
#[derive(Copy, Clone, PartialEq, Eq, Structural, Debug)]
pub struct MS64 {
    /// The number to multiply by.
    pub mul_by: i64,
    /// The number of bits to shift by at the end.
    pub shift_by: i32,
}

/// The magic numbers of a division by a constant, for the kind of division that
/// they belong to.
#[derive(Copy, Clone, PartialEq, Eq, Structural, Debug)]
pub enum Magic {
    /// For an unsigned 32-bit division.
    U32(MU32),
    /// For an unsigned 64-bit division.
    U64(MU64),
    /// For a signed 32-bit division.
    S32(MS32),
    /// For a signed 64-bit division.
    S64(MS64),
}

/// The magic numbers in one form for all kinds of division.
pub struct MagicParts {
    /// The number to multiply by, as the immediate of a constant.
    pub mul_by: i64,
    /// Is the dividend added after the multiplication? Never for a signed division.
    pub do_add: bool,
    /// The number of bits to shift by at the end.
    pub shift_by: i32,
}

impl Magic {
    /// The magic numbers in one form for all kinds of division: the multiplier
    /// becomes a 64-bit immediate, an unsigned 64-bit one by its bits.
    pub open spec fn parts(self) -> MagicParts {
        match self {
            Magic::U32(m) => MagicParts {
                mul_by: m.mul_by as i64,
                do_add: m.do_add,
                shift_by: m.shift_by,
            },
            Magic::U64(m) => MagicParts {
                mul_by: crate::immediates::signed_of(m.mul_by),
                do_add: m.do_add,
                shift_by: m.shift_by,
            },
            Magic::S32(m) => MagicParts {
                mul_by: m.mul_by as i64,
                do_add: false,
                shift_by: m.shift_by,
            },
            Magic::S64(m) => MagicParts { mul_by: m.mul_by, do_add: false, shift_by: m.shift_by },
        }
    }

    /// Are these the magic numbers of a division of the kind of `info`?
    pub open spec fn is_for(self, info: DivRemByConstInfo) -> bool {
        match self {
            Magic::U32(_) => !info.is_signed() && info.ty() == Type::I32,
            Magic::U64(_) => !info.is_signed() && info.ty() == Type::I64,
            Magic::S32(_) => info.is_signed() && info.ty() == Type::I32,
            Magic::S64(_) => info.is_signed() && info.ty() == Type::I64,
        }
    }

    /// The magic numbers in one form for all kinds of division.
    fn to_parts(&self) -> (r: MagicParts)
        ensures
            r == self.parts(),
    {
        match self {
            Magic::U32(m) => MagicParts {
                mul_by: m.mul_by as i64,
                do_add: m.do_add,
                shift_by: m.shift_by,
            },
            Magic::U64(m) => MagicParts {
                mul_by: crate::immediates::from_bits(m.mul_by),
                do_add: m.do_add,
                shift_by: m.shift_by,
            },
            Magic::S32(m) => MagicParts {
                mul_by: m.mul_by as i64,
                do_add: false,
                shift_by: m.shift_by,
            },
            Magic::S64(m) => MagicParts { mul_by: m.mul_by, do_add: false, shift_by: m.shift_by },
        }
    }
}

/// An operand of a new instruction: the dividend, or the result of one of the
/// instructions that are inserted, by its number.
#[derive(Copy, Clone, PartialEq, Eq, Structural, Debug)]
pub enum Src {
    /// The dividend of the division.
    Input,
    /// The result of the inserted instruction with this number.
    Step(usize),
}

/// A new instruction.
#[derive(Copy, Clone, PartialEq, Eq, Structural, Debug)]
pub enum Op {
    /// An integer constant of the given type.
    Iconst(Type, i64),
    /// A copy of the operand.
    Copy(Src),
    /// The high half of the unsigned product.
    Umulhi(Src, Src),
    /// The high half of the signed product.
    Smulhi(Src, Src),
    /// The sum.
    Iadd(Src, Src),
    /// The difference.
    Isub(Src, Src),
    /// The immediate less the operand.
    IrsubImm(Src, i64),
    /// The product with an immediate.
    ImulImm(Src, i64),
    /// The bitwise and with an immediate.
    BandImm(Src, i64),
    /// The operand shifted right by an immediate, zeros coming in.
    UshrImm(Src, i64),
    /// The operand shifted right by an immediate, the sign coming in.
    SshrImm(Src, i64),
}

/// A rewrite of one instruction: new instructions that are inserted before it,
/// in this order, and the instruction that takes its place.
#[derive(Debug)]
pub struct Rewrite {
    /// The instructions that are inserted before the one that is rewritten.
    pub inserted: Vec<Op>,
    /// The instruction that replaces the one that is rewritten.
    pub replacement: Op,
}

/// A rewrite as a mathematical value.
pub struct RewriteView {
    /// The instructions that are inserted.
    pub inserted: Seq<Op>,
    /// The instruction that replaces the one that is rewritten.
    pub replacement: Op,
}

impl View for Rewrite {
    type V = RewriteView;

    open spec fn view(&self) -> RewriteView {
        RewriteView { inserted: self.inserted@, replacement: self.replacement }
    }
}

/// The exponent `k` for which `d` is two to the power of `k`, if there is one.
pub open spec fn exact_log2(d: nat) -> Option<nat> {
    if exists|k: nat| d == two_to(k) {
        Some(choose|k: nat| d == two_to(k))
    } else {
        None
    }
}

/// The quotient by the magic numbers of an unsigned division, without the
/// constant and the multiplication that come first: the instructions after
/// those two, the second of which gave `q1`.
pub open spec fn unsigned_quotient_steps(magic: MagicParts) -> Seq<Op> {
    if magic.do_add {
        seq![
            Op::Isub(Src::Input, Src::Step(1)),
            Op::UshrImm(Src::Step(2), 1),
            Op::Iadd(Src::Step(3), Src::Step(1)),
            Op::UshrImm(Src::Step(4), (magic.shift_by - 1) as i64),
        ]
    } else if magic.shift_by > 0 {
        seq![Op::UshrImm(Src::Step(1), magic.shift_by as i64)]
    } else {
        Seq::empty()
    }
}

/// The end of a rewrite, once the instructions in `steps` have left the
/// quotient in the last of them: a division is replaced by a copy of the
/// quotient, and a remainder by the dividend less the product of the quotient
/// and the divisor.
pub open spec fn finished(steps: Seq<Op>, is_rem: bool, divisor: i64) -> RewriteView {
    let quotient = Src::Step((steps.len() - 1) as usize);
    if is_rem {
        RewriteView {
            inserted: steps.push(Op::ImulImm(quotient, divisor)),
            replacement: Op::Isub(Src::Input, Src::Step(steps.len() as usize)),
        }
    } else {
        RewriteView { inserted: steps, replacement: Op::Copy(quotient) }
    }
}

/// The rewrite of an unsigned division or remainder by `d`, whose bits as a
/// signed immediate are `d_imm`.
///
/// By zero nothing is rewritten. By one the quotient is the dividend and the
/// remainder zero. By a power of two the quotient is a shift and the remainder a
/// mask. By any other number the quotient is the high half of a product with a
/// magic number, corrected and shifted.
pub open spec fn unsigned_rewrite(
    is_rem: bool,
    ty: Type,
    d: u64,
    d_imm: i64,
    magic: MagicParts,
) -> Option<RewriteView> {
    if d == 0 {
        None
    } else if d == 1 {
        Some(
            RewriteView {
                inserted: Seq::empty(),
                replacement: if is_rem {
                    Op::Iconst(ty, 0)
                } else {
                    Op::Copy(Src::Input)
                },
            },
        )
    } else {
        match exact_log2(d as nat) {
            Some(k) => Some(
                RewriteView {
                    inserted: Seq::empty(),
                    replacement: if is_rem {
                        Op::BandImm(Src::Input, (d - 1) as i64)
                    } else {
                        Op::UshrImm(Src::Input, k as i64)
                    },
                },
            ),
            None => Some(
                finished(
                    seq![Op::Iconst(ty, magic.mul_by), Op::Umulhi(Src::Input, Src::Step(0))]
                        + unsigned_quotient_steps(magic),
                    is_rem,
                    d_imm,
                ),
            ),
        }
    }
}

/// The instructions of a signed division by two to the power of `k`, up to the
/// dividend with the bias added: the sign of the dividend, spread over `k`
/// bits, is moved to the lowest `k` bits and added to the dividend.
pub open spec fn signed_bias_steps(bits: u32, k: nat) -> Seq<Op> {
    if k == 1 {
        seq![Op::UshrImm(Src::Input, (bits - k) as i64), Op::Iadd(Src::Input, Src::Step(0))]
    } else {
        seq![
            Op::SshrImm(Src::Input, (k - 1) as i64),
            Op::UshrImm(Src::Step(0), (bits - k) as i64),
            Op::Iadd(Src::Input, Src::Step(1)),
        ]
    }
}

/// The instructions of a signed division by magic numbers, after the constant
/// and the multiplication that come first: the dividend is added or taken away
/// where the signs of divisor and multiplier differ, the result is shifted, and
/// its sign bit is added to it.
pub open spec fn signed_quotient_steps(bits: u32, d: i64, magic: MagicParts) -> Seq<Op> {
    let corrected: Seq<Op> = if d > 0 && magic.mul_by < 0 {
        seq![Op::Iadd(Src::Step(1), Src::Input)]
    } else if d < 0 && magic.mul_by > 0 {
        seq![Op::Isub(Src::Step(1), Src::Input)]
    } else {
        Seq::empty()
    };
    let q2 = Src::Step((1 + corrected.len()) as usize);
    let shifted: Seq<Op> = if magic.shift_by == 0 {
        corrected
    } else {
        corrected.push(Op::SshrImm(q2, magic.shift_by as i64))
    };
    let q3 = Src::Step((1 + shifted.len()) as usize);
    shifted.push(Op::UshrImm(q3, (bits - 1) as i64)).push(
        Op::Iadd(q3, Src::Step((2 + shifted.len()) as usize)),
    )
}

/// The rewrite of a signed division or remainder by `d` in `bits` bits.
///
/// By zero and by minus one nothing is rewritten. By one the quotient is the
/// dividend and the remainder zero. By a power of two or its negation the
/// division is a shift of the dividend with a bias added. By any other number
/// the quotient is the high half of a product with a magic number, corrected and
/// shifted.
pub open spec fn signed_rewrite(
    is_rem: bool,
    ty: Type,
    bits: u32,
    d: i64,
    magic: MagicParts,
) -> Option<RewriteView> {
    if d == 0 || d == -1 {
        None
    } else if d == 1 {
        Some(
            RewriteView {
                inserted: Seq::empty(),
                replacement: if is_rem {
                    Op::Iconst(ty, 0)
                } else {
                    Op::Copy(Src::Input)
                },
            },
        )
    } else {
        match exact_log2(magnitude(d as int)) {
            Some(k) => {
                let biased = signed_bias_steps(bits, k);
                let t3 = Src::Step((biased.len() - 1) as usize);
                if is_rem {
                    Some(
                        RewriteView {
                            inserted: biased.push(Op::BandImm(t3, (-magnitude(d as int)) as i64)),
                            replacement: Op::Isub(Src::Input, Src::Step(biased.len() as usize)),
                        },
                    )
                } else {
                    Some(
                        RewriteView {
                            inserted: biased.push(Op::SshrImm(t3, k as i64)),
                            replacement: if d < 0 {
                                Op::IrsubImm(Src::Step(biased.len() as usize), 0)
                            } else {
                                Op::Copy(Src::Step(biased.len() as usize))
                            },
                        },
                    )
                }
            },
            None => Some(
                finished(
                    seq![Op::Iconst(ty, magic.mul_by), Op::Smulhi(Src::Input, Src::Step(0))]
                        + signed_quotient_steps(bits, d, magic),
                    is_rem,
                    d,
                ),
            ),
        }
    }
}

/// The rewrite of a division or remainder by a constant.
pub open spec fn divrem_rewrite(info: DivRemByConstInfo, magic: Magic) -> Option<RewriteView> {
    match info {
        DivRemByConstInfo::DivU32(_, d) => unsigned_rewrite(
            false,
            Type::I32,
            d as u64,
            d as i64,
            magic.parts(),
        ),
        DivRemByConstInfo::RemU32(_, d) => unsigned_rewrite(
            true,
            Type::I32,
            d as u64,
            d as i64,
            magic.parts(),
        ),
        DivRemByConstInfo::DivU64(_, d) => unsigned_rewrite(
            false,
            Type::I64,
            d,
            crate::immediates::signed_of(d),
            magic.parts(),
        ),
        DivRemByConstInfo::RemU64(_, d) => unsigned_rewrite(
            true,
            Type::I64,
            d,
            crate::immediates::signed_of(d),
            magic.parts(),
        ),
        DivRemByConstInfo::DivS32(_, d) => signed_rewrite(
            false,
            Type::I32,
            32,
            d as i64,
            magic.parts(),
        ),
        DivRemByConstInfo::RemS32(_, d) => signed_rewrite(
            true,
            Type::I32,
            32,
            d as i64,
            magic.parts(),
        ),
        DivRemByConstInfo::DivS64(_, d) => signed_rewrite(false, Type::I64, 64, d, magic.parts()),
        DivRemByConstInfo::RemS64(_, d) => signed_rewrite(true, Type::I64, 64, d, magic.parts()),
    }
}

/// Does the division need magic numbers: is the divisor none of 0, 1 and, for a
/// signed division, -1, and neither a power of two nor the negation of one?
pub open spec fn needs_magic(info: DivRemByConstInfo) -> bool {
    info.divisor() != 0 && info.divisor() != 1 && !(info.is_signed() && info.divisor() == -1)
        && exact_log2(magnitude(info.divisor())) is None
}

/// Can the magic numbers be used for the division: are they of its kind, and is
/// the shift one that the instructions can make?
pub open spec fn magic_fits(info: DivRemByConstInfo, magic: Magic) -> bool {
    let bits: int = if info.ty() == Type::I32 {
        32
    } else {
        64
    };
    let parts = magic.parts();
    &&& magic.is_for(info)
    &&& if parts.do_add {
        2 <= parts.shift_by <= bits
    } else {
        0 <= parts.shift_by <= bits - 1
    }
}

/// Is the rewrite that was decided the one that is wanted?
pub open spec fn is_rewrite(r: Option<Rewrite>, want: Option<RewriteView>) -> bool {
    match want {
        Some(v) => r is Some && r.unwrap()@ == v,
        None => r is None,
    }
}

/// The exponent of a power of two is its exact logarithm.
proof fn lemma_exact_log2(d: nat, k: nat)
    requires
        d == two_to(k),
    ensures
        exact_log2(d) == Some(k),
{
    let c = choose|c: nat| d == two_to(c);
    lemma_two_to_injective(c, k);
}

/// End a rewrite whose inserted instructions have left the quotient in the
/// last of them.
fn finish(steps: Vec<Op>, is_rem: bool, divisor: i64) -> (r: Rewrite)
    requires
        0 < steps@.len() < usize::MAX,
    ensures
        r@ == finished(steps@, is_rem, divisor),
{
    let mut steps = steps;
    let quotient = Src::Step(steps.len() - 1);
    if is_rem {
        let product = steps.len();
        steps.push(Op::ImulImm(quotient, divisor));
        Rewrite { inserted: steps, replacement: Op::Isub(Src::Input, Src::Step(product)) }
    } else {
        Rewrite { inserted: steps, replacement: Op::Copy(quotient) }
    }
}

/// Decide the rewrite of an unsigned division or remainder.
#[verifier::rlimit(40)]
fn rewrite_unsigned(is_rem: bool, ty: Type, bits: u32, d: u64, d_imm: i64, magic: &MagicParts) -> (r:
    Option<Rewrite>)
    requires
        bits == 32 || bits == 64,
        bits == 32 ==> d <= 0xffff_ffff,
        d != 0 && exact_log2(d as nat) is None ==> (if magic.do_add {
            2 <= magic.shift_by <= bits
        } else {
            0 <= magic.shift_by <= bits - 1
        }),
    ensures
        is_rewrite(r, unsigned_rewrite(is_rem, ty, d, d_imm, *magic)),
{
    if d == 0 {
        // Division by zero is left as it is.
        return None;
    }
    if d == 1 {
        // The quotient by one is the dividend, and the remainder is zero.
        return Some(
            Rewrite {
                inserted: Vec::new(),
                replacement: if is_rem {
                    Op::Iconst(ty, 0)
                } else {
                    Op::Copy(Src::Input)
                },
            },
        );
    }
    match power_of_two_below(d, 64) {
        Some(k) => {
            proof {
                lemma_exact_log2(d as nat, k as nat);
            }
            // A power of two: shift for the quotient, mask for the remainder.
            Some(
                Rewrite {
                    inserted: Vec::new(),
                    replacement: if is_rem {
                        Op::BandImm(Src::Input, (d - 1) as i64)
                    } else {
                        Op::UshrImm(Src::Input, k as i64)
                    },
                },
            )
        },
        None => {
            proof {
                assert forall|k: nat| d != two_to(k) by {
                    if k >= 64 {
                        lemma_two_to_grows(64, k);
                        lemma_two_to_values();
                    }
                }
            }
            let mut steps: Vec<Op> = Vec::new();
            steps.push(Op::Iconst(ty, magic.mul_by));
            steps.push(Op::Umulhi(Src::Input, Src::Step(0)));
            if magic.do_add {
                steps.push(Op::Isub(Src::Input, Src::Step(1)));
                steps.push(Op::UshrImm(Src::Step(2), 1));
                steps.push(Op::Iadd(Src::Step(3), Src::Step(1)));
                steps.push(Op::UshrImm(Src::Step(4), (magic.shift_by - 1) as i64));
            } else if magic.shift_by > 0 {
                steps.push(Op::UshrImm(Src::Step(1), magic.shift_by as i64));
            }
            assert(steps@ =~= seq![
                Op::Iconst(ty, magic.mul_by),
                Op::Umulhi(Src::Input, Src::Step(0)),
            ] + unsigned_quotient_steps(*magic));
            Some(finish(steps, is_rem, d_imm))
        },
    }
}

/// Decide the rewrite of a signed division or remainder.
#[verifier::rlimit(40)]
fn rewrite_signed(is_rem: bool, ty: Type, bits: u32, d: i64, pow2: Option<(bool, u32)>, magic: &MagicParts) -> (r:
    Option<Rewrite>)
    requires
        bits == 32 || bits == 64,
        bits == 32 ==> -0x8000_0000 <= d <= 0x7fff_ffff,
        (match pow2 {
            Some((negative, k)) => k <= bits - 1 && magnitude(d as int) == two_to(k as nat)
                && negative == (d < 0),
            None => forall|k: nat| magnitude(d as int) != two_to(k),
        }),
        pow2 is None && d != 0 ==> 0 <= magic.shift_by <= bits - 1,
    ensures
        is_rewrite(r, signed_rewrite(is_rem, ty, bits, d, *magic)),
{
    if d == 0 || d == -1 {
        // Division by zero or by minus one is left as it is.
        return None;
    }
    if d == 1 {
        // The quotient by one is the dividend, and the remainder is zero.
        return Some(
            Rewrite {
                inserted: Vec::new(),
                replacement: if is_rem {
                    Op::Iconst(ty, 0)
                } else {
                    Op::Copy(Src::Input)
                },
            },
        );
    }
    match pow2 {
        Some((is_neg, k)) => {
            proof {
                lemma_exact_log2(magnitude(d as int), k as nat);
                lemma_two_to_grows(0, 0);
                lemma_two_to_values();
            }
            assert(k >= 1);
            let mut steps: Vec<Op> = Vec::new();
            let t1 = if k - 1 == 0 {
                Src::Input
            } else {
                steps.push(Op::SshrImm(Src::Input, (k - 1) as i64));
                Src::Step(0)
            };
            let t2 = steps.len();
            steps.push(Op::UshrImm(t1, (bits - k) as i64));
            let t3 = steps.len();
            steps.push(Op::Iadd(Src::Input, Src::Step(t2)));
            assert(steps@ =~= signed_bias_steps(bits, k as nat));
            let t4 = steps.len();
            if is_rem {
                // The sign of the divisor does not matter for the remainder.
                let mask: i64 = if d < 0 {
                    d
                } else {
                    -d
                };
                steps.push(Op::BandImm(Src::Step(t3), mask));
                Some(Rewrite { inserted: steps, replacement: Op::Isub(Src::Input, Src::Step(t4)) })
            } else {
                steps.push(Op::SshrImm(Src::Step(t3), k as i64));
                Some(
                    Rewrite {
                        inserted: steps,
                        replacement: if is_neg {
                            Op::IrsubImm(Src::Step(t4), 0)
                        } else {
                            Op::Copy(Src::Step(t4))
                        },
                    },
                )
            }
        },
        None => {
            let mut steps: Vec<Op> = Vec::new();
            steps.push(Op::Iconst(ty, magic.mul_by));
            steps.push(Op::Smulhi(Src::Input, Src::Step(0)));
            if d > 0 && magic.mul_by < 0 {
                steps.push(Op::Iadd(Src::Step(1), Src::Input));
            } else if d < 0 && magic.mul_by > 0 {
                steps.push(Op::Isub(Src::Step(1), Src::Input));
            }
            let q2 = Src::Step(steps.len() - 1);
            if magic.shift_by != 0 {
                steps.push(Op::SshrImm(q2, magic.shift_by as i64));
            }
            let q3 = Src::Step(steps.len() - 1);
            let t1 = steps.len();
            steps.push(Op::UshrImm(q3, (bits - 1) as i64));
            steps.push(Op::Iadd(q3, Src::Step(t1)));
            assert(steps@ =~= seq![
                Op::Iconst(ty, magic.mul_by),
                Op::Smulhi(Src::Input, Src::Step(0)),
            ] + signed_quotient_steps(bits, d, *magic));
            Some(finish(steps, is_rem, d))
        },
    }
}

/// Decide how a division or a remainder by a constant is rewritten.
///
/// `divrem_info` describes the operation. The instruction is replaced by
/// instructions that compute the same result without dividing; where that
/// cannot be done, `None` is returned and the instruction stays as it is. The
/// magic numbers are those of the divisor; they are looked at only where the
/// divisor needs them.
///
/// What the new instructions compute is stated by `rewrite_value`. For a divisor
/// that is one, a power of two or the negation of one, it is proved to be the
/// quotient or the remainder: see `lemma_unsigned_power_of_two`,
/// `lemma_signed_by_one` and `lemma_signed_power_of_two`. For any other divisor
/// it is proved to be the quotient that the magic numbers stand for, or the
/// remainder that goes with it: see `lemma_unsigned_magic` and
/// `lemma_signed_magic`. That the magic numbers are those of the divisor is on
/// the caller.
pub fn do_divrem_transformation(divrem_info: &DivRemByConstInfo, magic: &Magic) -> (r: Option<
    Rewrite,
>)
    requires
        needs_magic(*divrem_info) ==> magic_fits(*divrem_info, *magic),
    ensures
        is_rewrite(r, divrem_rewrite(*divrem_info, *magic)),
{
    let parts = magic.to_parts();
    proof {
        let m = magnitude(divrem_info.divisor());
        if exact_log2(m) is Some {
            assert(m == two_to(exact_log2(m).unwrap()));
        }
        lemma_two_to_grows(0, 0);
        assert(two_to(0) == 1);
    }
    match *divrem_info {
        DivRemByConstInfo::DivU32(_, d) => rewrite_unsigned(
            false,
            Type::I32,
            32,
            d as u64,
            d as i64,
            &parts,
        ),
        DivRemByConstInfo::RemU32(_, d) => rewrite_unsigned(
            true,
            Type::I32,
            32,
            d as u64,
            d as i64,
            &parts,
        ),
        DivRemByConstInfo::DivU64(_, d) => rewrite_unsigned(
            false,
            Type::I64,
            64,
            d,
            crate::immediates::from_bits(d),
            &parts,
        ),
        DivRemByConstInfo::RemU64(_, d) => rewrite_unsigned(
            true,
            Type::I64,
            64,
            d,
            crate::immediates::from_bits(d),
            &parts,
        ),
        DivRemByConstInfo::DivS32(_, d) => rewrite_signed(
            false,
            Type::I32,
            32,
            d as i64,
            isPowerOf2_S32(d),
            &parts,
        ),
        DivRemByConstInfo::RemS32(_, d) => rewrite_signed(
            true,
            Type::I32,
            32,
            d as i64,
            isPowerOf2_S32(d),
            &parts,
        ),
        DivRemByConstInfo::DivS64(_, d) => rewrite_signed(
            false,
            Type::I64,
            64,
            d,
            isPowerOf2_S64(d),
            &parts,
        ),
        DivRemByConstInfo::RemS64(_, d) => rewrite_signed(
            true,
            Type::I64,
            64,
            d,
            isPowerOf2_S64(d),
            &parts,
        ),
    }
}

/// How a value that an instruction uses was defined, as far as the rewrites look.
#[derive(Copy, Clone, PartialEq, Eq, Structural, Debug)]
pub enum ValueDef {
    /// The value is no result of an instruction: it is a parameter of a block.
    Param,
    /// The result of an integer constant.
    Iconst(Imm64),
    /// The result of the conversion of a boolean value to an integer.
    Bint(Value),
    /// The flags of a comparison of a value with an immediate.
    FlagsOfImm {
        /// The value that is compared.
        arg: Value,
        /// The immediate that it is compared with.
        imm: Imm64,
    },
    /// The result of any other instruction.
    Other,
}

/// The part of an instruction that simplification looks at.
#[derive(Copy, Clone, PartialEq, Eq, Structural, Debug)]
pub enum Simplifiable {
    /// An instruction with two value operands, and how each was defined.
    Binary {
        /// The opcode of the instruction.
        opcode: Opcode,
        /// The first operand.
        lhs: Value,
        /// The second operand.
        rhs: Value,
        /// How the first operand was defined.
        lhs_def: ValueDef,
        /// How the second operand was defined.
        rhs_def: ValueDef,
    },
    /// An integer comparison of two values.
    IntCompare {
        /// The first operand.
        lhs: Value,
        /// How the second operand was defined.
        rhs_def: ValueDef,
    },
    /// A conditional trap, a branch on a value, or a select: an instruction
    /// whose first operand is a condition.
    Conditional {
        /// How the condition was defined.
        condition_def: ValueDef,
    },
    /// Any other instruction.
    Other,
}

/// What simplification makes of an instruction.
#[derive(Copy, Clone, PartialEq, Eq, Structural, Debug)]
pub enum Simplified {
    /// The instruction stays as it is.
    Unchanged,
    /// The instruction becomes one with a value and an immediate.
    BinaryImm {
        /// The opcode of the new instruction.
        opcode: Opcode,
        /// The immediate.
        imm: Imm64,
        /// The value.
        arg: Value,
    },
    /// The comparison becomes one of a value with an immediate, under the same
    /// condition.
    CompareImm {
        /// The value.
        arg: Value,
        /// The immediate.
        imm: Imm64,
    },
    /// The first operand is replaced by this value.
    FirstArg(Value),
}

/// The opcode with an immediate for the second operand that does what `opcode`
/// does with a value there, where there is one. For a subtraction there is
/// none: a constant is subtracted by adding its negation.
pub open spec fn imm_form(opcode: Opcode) -> Option<Opcode> {
    match opcode {
        Opcode::Iadd => Some(Opcode::IaddImm),
        Opcode::Imul => Some(Opcode::ImulImm),
        Opcode::Sdiv => Some(Opcode::SdivImm),
        Opcode::Udiv => Some(Opcode::UdivImm),
        Opcode::Srem => Some(Opcode::SremImm),
        Opcode::Urem => Some(Opcode::UremImm),
        Opcode::Band => Some(Opcode::BandImm),
        Opcode::Bor => Some(Opcode::BorImm),
        Opcode::Bxor => Some(Opcode::BxorImm),
        Opcode::Rotl => Some(Opcode::RotlImm),
        Opcode::Rotr => Some(Opcode::RotrImm),
        Opcode::Ishl => Some(Opcode::IshlImm),
        Opcode::Ushr => Some(Opcode::UshrImm),
        Opcode::Sshr => Some(Opcode::SshrImm),
        _ => None,
    }
}

/// The negation of an immediate; the least number stays as it is.
pub open spec fn negated(imm: Imm64) -> Imm64 {
    if imm.0 == i64::MIN {
        imm
    } else {
        Imm64((-imm.0) as i64)
    }
}

/// What simplification makes of an instruction.
///
/// An operation on a value and a constant becomes the operation with an
/// immediate; a subtraction of a constant becomes an addition of its negation,
/// and a subtraction from a constant a reverse subtraction. The first operand
/// is looked at only where the second is a block parameter. A comparison with
/// a constant becomes a comparison with an immediate. A condition that is a
/// boolean turned into an integer is replaced by the boolean.
pub open spec fn simplified(inst: Simplifiable) -> Simplified {
    match inst {
        Simplifiable::Binary { opcode, lhs, rhs, lhs_def, rhs_def } => {
            if rhs_def != ValueDef::Param {
                match rhs_def {
                    ValueDef::Iconst(imm) => {
                        if opcode == Opcode::Isub {
                            Simplified::BinaryImm {
                                opcode: Opcode::IaddImm,
                                imm: negated(imm),
                                arg: lhs,
                            }
                        } else {
                            match imm_form(opcode) {
                                Some(new_opcode) => Simplified::BinaryImm {
                                    opcode: new_opcode,
                                    imm,
                                    arg: lhs,
                                },
                                None => Simplified::Unchanged,
                            }
                        }
                    },
                    _ => Simplified::Unchanged,
                }
            } else {
                match lhs_def {
                    ValueDef::Iconst(imm) => {
                        if opcode == Opcode::Isub {
                            Simplified::BinaryImm { opcode: Opcode::IrsubImm, imm, arg: rhs }
                        } else {
                            Simplified::Unchanged
                        }
                    },
                    _ => Simplified::Unchanged,
                }
            }
        },
        Simplifiable::IntCompare { lhs, rhs_def } => match rhs_def {
            ValueDef::Iconst(imm) => Simplified::CompareImm { arg: lhs, imm },
            _ => Simplified::Unchanged,
        },
        Simplifiable::Conditional { condition_def } => match condition_def {
            ValueDef::Bint(bool_val) => Simplified::FirstArg(bool_val),
            _ => Simplified::Unchanged,
        },
        Simplifiable::Other => Simplified::Unchanged,
    }
}

/// Apply basic simplifications: fold constants into instructions with an
/// immediate, and drop a conversion of a boolean that only feeds a condition.
pub fn simplify(inst: &Simplifiable) -> (r: Simplified)
    ensures
        r == simplified(*inst),
{
    match *inst {
        Simplifiable::Binary { opcode, lhs, rhs, lhs_def, rhs_def } => {
            match rhs_def {
                ValueDef::Param => {
                    if let ValueDef::Iconst(imm) = lhs_def {
                        match opcode {
                            Opcode::Isub => Simplified::BinaryImm {
                                opcode: Opcode::IrsubImm,
                                imm,
                                arg: rhs,
                            },
                            _ => Simplified::Unchanged,
                        }
                    } else {
                        Simplified::Unchanged
                    }
                },
                ValueDef::Iconst(imm) => {
                    let mut imm = imm;
                    let new_opcode = match opcode {
                        Opcode::Iadd => Opcode::IaddImm,
                        Opcode::Imul => Opcode::ImulImm,
                        Opcode::Sdiv => Opcode::SdivImm,
                        Opcode::Udiv => Opcode::UdivImm,
                        Opcode::Srem => Opcode::SremImm,
                        Opcode::Urem => Opcode::UremImm,
                        Opcode::Band => Opcode::BandImm,
                        Opcode::Bor => Opcode::BorImm,
                        Opcode::Bxor => Opcode::BxorImm,
                        Opcode::Rotl => Opcode::RotlImm,
                        Opcode::Rotr => Opcode::RotrImm,
                        Opcode::Ishl => Opcode::IshlImm,
                        Opcode::Ushr => Opcode::UshrImm,
                        Opcode::Sshr => Opcode::SshrImm,
                        Opcode::Isub => {
                            imm = imm.wrapping_neg();
                            Opcode::IaddImm
                        },
                        _ => {
                            return Simplified::Unchanged;
                        },
                    };
                    Simplified::BinaryImm { opcode: new_opcode, imm, arg: lhs }
                },
                _ => Simplified::Unchanged,
            }
        },
        Simplifiable::IntCompare { lhs, rhs_def } => {
            if let ValueDef::Iconst(imm) = rhs_def {
                Simplified::CompareImm { arg: lhs, imm }
            } else {
                Simplified::Unchanged
            }
        },
        Simplifiable::Conditional { condition_def } => {
            // Fold away a conversion of a boolean that is used as a condition.
            if let ValueDef::Bint(bool_val) = condition_def {
                Simplified::FirstArg(bool_val)
            } else {
                Simplified::Unchanged
            }
        },
        Simplifiable::Other => Simplified::Unchanged,
    }
}

/// The division or remainder by a constant that an instruction with a value
/// and an immediate stands for, if it is one: the opcode says which and
/// whether it is signed, and `arg_ty`, the type of the value, gives the width.
pub open spec fn div_info_of(opcode: Opcode, imm: i64, arg_ty: Type) -> Option<(bool, bool, int)> {
    let kind: Option<(bool, bool)> = match opcode {
        Opcode::UdivImm => Some((false, false)),
        Opcode::UremImm => Some((false, true)),
        Opcode::SdivImm => Some((true, false)),
        Opcode::SremImm => Some((true, true)),
        _ => None,
    };
    match kind {
        Some((signed, rem)) => match divisor_of(arg_ty, imm, signed) {
            Some(d) => Some((signed, rem, d)),
            None => None,
        },
        None => None,
    }
}

/// See whether an instruction is a division or a remainder by a constant, and
/// if so describe it. `opcode`, `arg` and `imm` are those of an instruction
/// with a value and an immediate, and `arg_ty` is the type of the value.
pub fn get_div_info(opcode: Opcode, arg: Value, imm: Imm64, arg_ty: Type) -> (r: Option<
    DivRemByConstInfo,
>)
    ensures
        (match div_info_of(opcode, imm.0, arg_ty) {
            Some((signed, rem, d)) => r is Some && r.unwrap().dividend() == arg
                && r.unwrap().divisor() == d && r.unwrap().is_rem() == rem
                && r.unwrap().is_signed() == signed && r.unwrap().ty() == arg_ty,
            None => r is None,
        }),
{
    let (is_signed, is_rem) = match opcode {
        Opcode::UdivImm => (false, false),
        Opcode::UremImm => (false, true),
        Opcode::SdivImm => (true, false),
        Opcode::SremImm => (true, true),
        _ => {
            return None;
        },
    };
    package_up_divrem_info(arg, arg_ty, imm.bits(), is_signed, is_rem)
}

/// Which branch on zero takes the place of a branch on flags.
#[derive(Copy, Clone, PartialEq, Eq, Structural, Debug)]
pub enum BranchOptKind {
    /// Branch if the value is zero.
    EqualZero,
    /// Branch if the value is not zero.
    NotEqualZero,
}

/// A branch on the flags of a comparison with zero that becomes a branch on
/// the value itself.
#[derive(Debug)]
pub struct BranchOptInfo {
    /// The value that was compared with zero.
    pub cmp_arg: Value,
    /// The destination of the branch.
    pub destination: Ebb,
    /// The arguments that the branch passes on: those of the old branch
    /// without the flags.
    pub args: Vec<Value>,
    /// Which branch takes its place.
    pub kind: BranchOptKind,
}

/// The branch on zero that can take the place of a branch on flags under the
/// condition `cond`, where the flags come from a comparison with zero: none
/// unless the condition is equality or its negation.
pub open spec fn branch_opt_kind(cond: IntCC, flags_def: ValueDef) -> Option<
    (BranchOptKind, Value),
> {
    match flags_def {
        ValueDef::FlagsOfImm { arg, imm } => if imm.0 != 0 {
            None
        } else if cond == IntCC::NotEqual {
            Some((BranchOptKind::NotEqualZero, arg))
        } else if cond == IntCC::Equal {
            Some((BranchOptKind::EqualZero, arg))
        } else {
            None
        },
        _ => None,
    }
}

/// Turn a branch on the flags of a comparison with zero into a branch on the
/// value that was compared.
///
/// `cond`, `destination` and `args` are those of a branch on integer flags,
/// whose first argument is the flags, and `flags_def` says how the flags were
/// defined.
pub fn branch_opt(cond: IntCC, destination: Ebb, args: &[Value], flags_def: &ValueDef) -> (r:
    Option<BranchOptInfo>)
    requires
        args@.len() >= 1,
    ensures
        (match branch_opt_kind(cond, *flags_def) {
            Some((kind, cmp_arg)) => r is Some && r.unwrap().kind == kind && r.unwrap().cmp_arg
                == cmp_arg && r.unwrap().destination == destination && r.unwrap().args@
                == args@.drop_first(),
            None => r is None,
        }),
{
    let (kind, cmp_arg) = match *flags_def {
        ValueDef::FlagsOfImm { arg, imm } => {
            if imm.bits() != 0 {
                return None;
            }
            match cond {
                IntCC::NotEqual => (BranchOptKind::NotEqualZero, arg),
                IntCC::Equal => (BranchOptKind::EqualZero, arg),
                _ => {
                    return None;
                },
            }
        },
        _ => {
            return None;
        },
    };
    let rest = vstd::slice::slice_to_vec(vstd::slice::slice_subrange(args, 1, args.len()));
    Some(BranchOptInfo { cmp_arg, destination, args: rest, kind })
}

/// A conditional branch, as far as the reordering of branches looks at it.
#[derive(Copy, Clone, PartialEq, Eq, Structural, Debug)]
pub enum CondBranch {
    /// Branch if the value is zero.
    Brz,
    /// Branch if the value is not zero.
    Brnz,
    /// Branch if the integer flags meet the condition.
    Brif(IntCC),
    /// Branch if the floating point flags meet the condition.
    Brff(FloatCC),
}

/// How a conditional branch is turned round.
#[derive(Copy, Clone, PartialEq, Eq, Structural, Debug)]
pub enum BranchOrderKind {
    /// A branch on zero becomes a branch on not zero.
    BrzToBrnz,
    /// A branch on not zero becomes a branch on zero.
    BrnzToBrz,
    /// A branch on integer flags under this condition gets the inverse condition.
    InvertIntCond(IntCC),
    /// A branch on floating point flags under this condition gets the inverse
    /// condition.
    InvertFloatCond(FloatCC),
}

impl BranchOrderKind {
    /// The branch that takes the place of the conditional branch: the one
    /// that is taken exactly where the old one is not.
    pub open spec fn new_branch(self) -> CondBranch {
        match self {
            BranchOrderKind::BrzToBrnz => CondBranch::Brnz,
            BranchOrderKind::BrnzToBrz => CondBranch::Brz,
            BranchOrderKind::InvertIntCond(cond) => CondBranch::Brif(cond.inverted()),
            BranchOrderKind::InvertFloatCond(cond) => CondBranch::Brff(cond.inverted()),
        }
    }

    /// The branch that takes the place of the conditional branch.
    pub fn inverted_branch(self) -> (r: CondBranch)
        ensures
            r == self.new_branch(),
    {
        match self {
            BranchOrderKind::BrzToBrnz => CondBranch::Brnz,
            BranchOrderKind::BrnzToBrz => CondBranch::Brz,
            BranchOrderKind::InvertIntCond(cond) => CondBranch::Brif(cond.inverse()),
            BranchOrderKind::InvertFloatCond(cond) => CondBranch::Brff(cond.inverse()),
        }
    }
}

/// A jump after a conditional branch to the next block, which are to change
/// places: the conditional branch is turned round and goes where the jump
/// went, and the jump becomes a fall-through to the next block.
#[derive(Debug)]
pub struct BranchOrderInfo {
    /// The arguments of the jump, which the turned branch passes on.
    pub term_inst_args: Vec<Value>,
    /// The destination of the jump, where the turned branch goes.
    pub term_dest: Ebb,
    /// The value or flags that the conditional branch tests.
    pub cond_arg: Value,
    /// The arguments that the conditional branch passed on, which the
    /// fall-through passes on.
    pub cond_inst_args: Vec<Value>,
    /// The destination of the conditional branch, where the fall-through goes.
    pub cond_dest: Ebb,
    /// How the conditional branch is turned round.
    pub kind: BranchOrderKind,
}

/// How a conditional branch is turned round.
pub open spec fn turned(branch: CondBranch) -> BranchOrderKind {
    match branch {
        CondBranch::Brz => BranchOrderKind::BrzToBrnz,
        CondBranch::Brnz => BranchOrderKind::BrnzToBrz,
        CondBranch::Brif(cond) => BranchOrderKind::InvertIntCond(cond),
        CondBranch::Brff(cond) => BranchOrderKind::InvertFloatCond(cond),
    }
}

/// Do a jump and the conditional branch before it change places? They do
/// where a block follows, the jump does not go to it, and the conditional
/// branch does.
pub open spec fn changes_places(destination: Ebb, next_ebb: Option<Ebb>, prev_dest: Ebb) -> bool {
    next_ebb is Some && destination != next_ebb.unwrap() && prev_dest == next_ebb.unwrap()
}

/// Let a jump and the conditional branch before it change places, so that the
/// block that follows is fallen into.
///
/// `destination` and `args` are those of the jump that ends the block, and
/// `next_ebb` is the block that follows in the layout, if there is one. `prev`,
/// `prev_dest` and `prev_args` are the kind, the destination and the arguments
/// of the conditional branch just before the jump; the first of its arguments
/// is the value or the flags that it tests.
pub fn branch_order(
    destination: Ebb,
    args: &[Value],
    next_ebb: Option<Ebb>,
    prev: CondBranch,
    prev_dest: Ebb,
    prev_args: &[Value],
) -> (r: Option<BranchOrderInfo>)
    requires
        prev_args@.len() >= 1,
    ensures
        r is Some == changes_places(destination, next_ebb, prev_dest),
        r is Some ==> {
            let info = r.unwrap();
            &&& info.term_inst_args@ == args@
            &&& info.term_dest == destination
            &&& info.cond_arg == prev_args@[0]
            &&& info.cond_inst_args@ == prev_args@.drop_first()
            &&& info.cond_dest == prev_dest
            &&& info.kind == turned(prev)
        },
{
    let next = match next_ebb {
        Some(next) => next,
        None => {
            return None;
        },
    };
    if destination == next {
        return None;
    }
    if prev_dest != next {
        return None;
    }
    let kind = match prev {
        CondBranch::Brz => BranchOrderKind::BrzToBrnz,
        CondBranch::Brnz => BranchOrderKind::BrnzToBrz,
        CondBranch::Brif(cond) => BranchOrderKind::InvertIntCond(cond),
        CondBranch::Brff(cond) => BranchOrderKind::InvertFloatCond(cond),
    };
    let term_inst_args = vstd::slice::slice_to_vec(args);
    let cond_inst_args = vstd::slice::slice_to_vec(
        vstd::slice::slice_subrange(prev_args, 1, prev_args.len()),
    );
    Some(
        BranchOrderInfo {
            term_inst_args,
            term_dest: destination,
            cond_arg: prev_args[0],
            cond_inst_args,
            cond_dest: prev_dest,
            kind,
        },
    )
}

/// A number brought into `bits` bits: its remainder by two to the power of `bits`.
pub open spec fn wrapped(x: int, bits: nat) -> nat {
    (x % (two_to(bits) as int)) as nat
}

/// The signed reading of a number of `bits` bits.
pub open spec fn signed_reading(x: nat, bits: nat) -> int {
    if bits > 0 && x >= two_to((bits - 1) as nat) {
        x - two_to(bits)
    } else {
        x as int
    }
}

/// The value that an operand has: the dividend, or the result of the inserted
/// instruction that it names.
pub open spec fn src_value(src: Src, input: nat, results: Seq<nat>) -> nat {
    match src {
        Src::Input => input,
        Src::Step(i) => if i < results.len() {
            results[i as int]
        } else {
            0
        },
    }
}

/// The value that a new instruction computes in `bits` bits, from the dividend
/// and the results of the instructions before it.
///
/// Sums, differences and products are taken in `bits` bits. The high half of a
/// product is the product without its lowest `bits` bits. A shift to the right
/// divides by a power of two: the unsigned reading for a shift that brings in
/// zeros, and the signed reading, rounding down, for one that brings in the sign.
pub open spec fn op_value(op: Op, input: nat, results: Seq<nat>, bits: nat) -> nat {
    match op {
        Op::Iconst(_, imm) => wrapped(imm as int, bits),
        Op::Copy(a) => src_value(a, input, results),
        Op::Umulhi(a, b) => (src_value(a, input, results) * src_value(b, input, results))
            / two_to(bits),
        Op::Smulhi(a, b) => wrapped(
            (signed_reading(src_value(a, input, results), bits) * signed_reading(
                src_value(b, input, results),
                bits,
            )) / (two_to(bits) as int),
            bits,
        ),
        Op::Iadd(a, b) => wrapped(
            (src_value(a, input, results) + src_value(b, input, results)) as int,
            bits,
        ),
        Op::Isub(a, b) => wrapped(
            src_value(a, input, results) - src_value(b, input, results),
            bits,
        ),
        Op::IrsubImm(a, imm) => wrapped(imm - src_value(a, input, results), bits),
        Op::ImulImm(a, imm) => wrapped(src_value(a, input, results) * imm, bits),
        Op::BandImm(a, imm) => ((src_value(a, input, results) as u64) & (wrapped(
            imm as int,
            bits,
        ) as u64)) as nat,
        Op::UshrImm(a, imm) => src_value(a, input, results) / two_to(imm as nat),
        Op::SshrImm(a, imm) => wrapped(
            signed_reading(src_value(a, input, results), bits) / (two_to(imm as nat) as int),
            bits,
        ),
    }
}

/// The results of the first `count` of the instructions that are inserted.
pub open spec fn results_of(ops: Seq<Op>, input: nat, bits: nat, count: nat) -> Seq<nat>
    decreases count,
{
    if count == 0 {
        Seq::empty()
    } else {
        let before = results_of(ops, input, bits, (count - 1) as nat);
        before.push(op_value(ops[count - 1], input, before, bits))
    }
}

/// The value that a rewrite computes for the dividend `input` in `bits` bits:
/// the value of the instruction that takes the place of the old one.
pub open spec fn rewrite_value(rewrite: RewriteView, input: nat, bits: nat) -> nat {
    op_value(
        rewrite.replacement,
        input,
        results_of(rewrite.inserted, input, bits, rewrite.inserted.len()),
        bits,
    )
}

/// The powers of two here are those of the library of arithmetic.
proof fn lemma_two_to_is_pow2(k: nat)
    ensures
        two_to(k) == vstd::arithmetic::power2::pow2(k),
    decreases k,
{
    if k == 0 {
        vstd::arithmetic::power2::lemma2_to64();
    } else {
        lemma_two_to_is_pow2((k - 1) as nat);
        vstd::arithmetic::power2::lemma_pow2_unfold(k);
    }
}

/// The rewrite of an unsigned division or remainder by one or by a power of two
/// computes the quotient or the remainder.
///
/// `bits` is 32 or 64, the dividend `n` is a number of `bits` bits, and the
/// divisor `d` is two to the power of `k`, below two to the power of `bits`.
/// `d_imm` is the divisor as an immediate, and `ty` and `magic` are as may be:
/// they are not looked at.
#[verifier::rlimit(40)]
pub proof fn lemma_unsigned_power_of_two(
    is_rem: bool,
    ty: Type,
    bits: nat,
    n: nat,
    k: nat,
    d_imm: i64,
    magic: MagicParts,
)
    requires
        bits == 32 || bits == 64,
        k < bits,
        n < two_to(bits),
    ensures
        unsigned_rewrite(is_rem, ty, two_to(k) as u64, d_imm, magic) is Some,
        rewrite_value(unsigned_rewrite(is_rem, ty, two_to(k) as u64, d_imm, magic).unwrap(), n, bits)
            == (if is_rem {
            n % two_to(k)
        } else {
            n / two_to(k)
        }),
{
    lemma_two_to_values();
    lemma_two_to_grows(k, 63);
    lemma_two_to_grows(0, k);
    lemma_two_to_grows(bits, 64);
    let d = two_to(k) as u64;
    assert(d == two_to(k));
    let rewrite = unsigned_rewrite(is_rem, ty, d, d_imm, magic).unwrap();
    let none = Seq::<nat>::empty();
    assert(results_of(Seq::<Op>::empty(), n, bits, 0) == none);
    if k == 0 {
        assert(d == 1);
        if is_rem {
            assert(wrapped(0, bits) == 0);
        }
    } else {
        assert(d >= 2);
        lemma_exact_log2(d as nat, k);
        if is_rem {
            // The mask is the divisor less one: a number of `k` bits, all set.
            let mask = (d - 1) as u64;
            lemma_two_to_grows(k, bits);
            assert(wrapped(mask as int, bits) == mask) by {
                vstd::arithmetic::div_mod::lemma_small_mod(mask as nat, two_to(bits));
            }
            lemma_two_to_is_pow2(k);
            vstd::bits::lemma_u64_low_bits_mask_is_mod(n as u64, k);
            assert(vstd::bits::low_bits_mask(k) == mask);
            assert(((n as u64) & mask) == (n as u64) % d);
        }
    }
}

/// The quotient of a division that rounds toward zero, as the machine divides.
pub open spec fn quotient_toward_zero(a: int, d: int) -> int
    recommends
        d != 0,
{
    if a >= 0 {
        if d > 0 {
            a / d
        } else {
            -(a / (-d))
        }
    } else {
        if d > 0 {
            -((-a) / d)
        } else {
            (-a) / (-d)
        }
    }
}

/// The remainder of a division that rounds toward zero.
pub open spec fn remainder_toward_zero(a: int, d: int) -> int
    recommends
        d != 0,
{
    a - d * quotient_toward_zero(a, d)
}

/// A quotient and a remainder that fit are the quotient and the remainder.
proof fn lemma_div_mod_is(x: int, d: int, q: int, r: int)
    requires
        d > 0,
        0 <= r < d,
        x == q * d + r,
    ensures
        x / d == q,
        x % d == r,
{
    vstd::arithmetic::div_mod::lemma_fundamental_div_mod_converse_div(x, d, q, r);
    vstd::arithmetic::div_mod::lemma_fundamental_div_mod_converse_mod(x, d, q, r);
}

/// The product of two powers of two is the power of the sum of the exponents.
proof fn lemma_two_to_adds(a: nat, b: nat)
    ensures
        two_to(a + b) == two_to(a) * two_to(b),
    decreases b,
{
    if b > 0 {
        lemma_two_to_adds(a, (b - 1) as nat);
        assert(two_to(a + b) == 2 * two_to((a + b - 1) as nat));
        assert(2 * (two_to(a) * two_to((b - 1) as nat)) == two_to(a) * (2 * two_to(
            (b - 1) as nat,
        ))) by (nonlinear_arith);
    } else {
        assert(two_to(a) * 1 == two_to(a)) by (nonlinear_arith);
    }
}

/// A number brought into `bits` bits, where it is less than one turn away from
/// them: it stays, or one turn is added to it.
proof fn lemma_wrapped_near(x: int, bits: nat)
    requires
        -two_to(bits) <= x < two_to(bits),
    ensures
        wrapped(x, bits) == (if x < 0 {
            x + two_to(bits)
        } else {
            x
        }),
{
    lemma_two_to_grows(0, bits);
    let b = two_to(bits) as int;
    if x < 0 {
        lemma_div_mod_is(x, b, -1, x + b);
    } else {
        lemma_div_mod_is(x, b, 0, x);
    }
}

/// Whole turns make no difference to a number that is brought into `bits` bits.
proof fn lemma_wrapped_turns(x: int, turns: int, bits: nat)
    ensures
        wrapped(x + turns * two_to(bits), bits) == wrapped(x, bits),
{
    lemma_two_to_grows(0, bits);
    let b = two_to(bits) as int;
    vstd::arithmetic::div_mod::lemma_mod_multiples_vanish(turns, x, b);
    assert(b * turns + x == x + turns * b) by (nonlinear_arith);
}

/// The signed reading of a number of `bits` bits is the number, or the number
/// less one turn, and lies in the range of signed numbers.
proof fn lemma_signed_reading(n: nat, bits: nat)
    requires
        bits > 0,
        n < two_to(bits),
    ensures
        -two_to((bits - 1) as nat) <= signed_reading(n, bits) < two_to((bits - 1) as nat),
        wrapped(signed_reading(n, bits), bits) == n,
        two_to(bits) == 2 * two_to((bits - 1) as nat),
{
    lemma_wrapped_near(signed_reading(n, bits), bits);
}

/// What is added to the dividend of a signed division by two to the power of
/// `k` before it is shifted: `k` bits that are all the sign of the dividend.
pub open spec fn bias_of(n: nat, bits: nat, k: nat) -> nat {
    if k == 1 {
        n / two_to((bits - 1) as nat)
    } else {
        wrapped(signed_reading(n, bits) / (two_to((k - 1) as nat) as int), bits) / two_to(
            (bits - k) as nat,
        )
    }
}

/// The bias is two to the power of `k`, less one, for a negative dividend, and
/// nothing for any other.
#[verifier::rlimit(40)]
proof fn lemma_bias(n: nat, bits: nat, k: nat)
    requires
        1 <= k < bits,
        n < two_to(bits),
    ensures
        bias_of(n, bits, k) == (if signed_reading(n, bits) < 0 {
            two_to(k) - 1
        } else {
            0
        }),
{
    let sn = signed_reading(n, bits);
    let h = two_to((bits - 1) as nat) as int;
    let b = two_to(bits) as int;
    let p = two_to(k) as int;
    lemma_signed_reading(n, bits);
    lemma_two_to_grows(0, k);
    lemma_two_to_grows(0, (bits - k) as nat);
    if k == 1 {
        if n >= h {
            lemma_div_mod_is(n as int, h, 1, n - h);
        } else {
            lemma_div_mod_is(n as int, h, 0, n as int);
        }
    } else {
        let q = two_to((k - 1) as nat) as int;
        let e = two_to((bits - k) as nat) as int;
        lemma_two_to_grows(0, (k - 1) as nat);
        lemma_two_to_adds((k - 1) as nat, (bits - k) as nat);
        lemma_two_to_adds(k, (bits - k) as nat);
        assert(h == q * e);
        assert(b == p * e);
        assert(p == 2 * q);
        let f = sn / q;
        let r = sn % q;
        vstd::arithmetic::div_mod::lemma_fundamental_div_mod(sn, q);
        vstd::arithmetic::div_mod::lemma_mod_bound(sn, q);
        assert(sn == q * f + r);
        if sn >= 0 {
            assert(0 <= f < e) by (nonlinear_arith)
                requires
                    sn == q * f + r,
                    0 <= r < q,
                    0 <= sn < q * e,
                    q > 0,
            ;
            assert(f < b) by (nonlinear_arith)
                requires
                    f < e,
                    b == p * e,
                    p >= 1,
                    e >= 1,
            ;
            lemma_wrapped_near(f, bits);
            lemma_div_mod_is(f, e, 0, f);
        } else {
            assert(-e <= f < 0) by (nonlinear_arith)
                requires
                    sn == q * f + r,
                    0 <= r < q,
                    -(q * e) <= sn < 0,
                    q > 0,
            ;
            assert(-b <= f) by (nonlinear_arith)
                requires
                    -e <= f,
                    b == p * e,
                    p >= 1,
                    e >= 1,
            ;
            lemma_wrapped_near(f, bits);
            assert(b + f == (p - 1) * e + (e + f)) by (nonlinear_arith)
                requires
                    b == p * e,
            ;
            lemma_div_mod_is(b + f, e, p - 1, e + f);
        }
    }
}

/// The dividend with its bias, brought into `bits` bits, reads as the signed
/// dividend with the bias added: the sum does not leave the range.
#[verifier::rlimit(40)]
proof fn lemma_biased(n: nat, bits: nat, k: nat)
    requires
        1 <= k < bits,
        n < two_to(bits),
    ensures
        wrapped((n + bias_of(n, bits, k)) as int, bits) < two_to(bits),
        signed_reading(wrapped((n + bias_of(n, bits, k)) as int, bits), bits) == signed_reading(
            n,
            bits,
        ) + bias_of(n, bits, k),
{
    let sn = signed_reading(n, bits);
    let h = two_to((bits - 1) as nat) as int;
    let b = two_to(bits) as int;
    let p = two_to(k) as int;
    lemma_bias(n, bits, k);
    lemma_signed_reading(n, bits);
    lemma_two_to_grows(k, (bits - 1) as nat);
    lemma_two_to_grows(0, k);
    let t2 = bias_of(n, bits, k) as int;
    if sn >= 0 {
        lemma_wrapped_near(n as int, bits);
    } else {
        // The sum is the signed dividend and the bias, one turn further on.
        assert(n + t2 == (sn + t2) + 1 * b) by (nonlinear_arith)
            requires
                n == sn + b,
        ;
        lemma_wrapped_turns(sn + t2, 1, bits);
        lemma_wrapped_near(sn + t2, bits);
    }
}

/// Rounding down the dividend with its bias is rounding the dividend toward
/// zero.
proof fn lemma_biased_quotient(sn: int, k: nat)
    ensures
        (sn + (if sn < 0 {
            two_to(k) - 1
        } else {
            0
        })) / (two_to(k) as int) == quotient_toward_zero(sn, two_to(k) as int),
{
    let p = two_to(k) as int;
    lemma_two_to_grows(0, k);
    if sn < 0 {
        let m = -sn;
        let a = m / p;
        let r = m % p;
        vstd::arithmetic::div_mod::lemma_fundamental_div_mod(m, p);
        vstd::arithmetic::div_mod::lemma_mod_bound(m, p);
        assert(sn + p - 1 == (-a) * p + (p - 1 - r)) by (nonlinear_arith)
            requires
                -sn == p * a + r,
        ;
        lemma_div_mod_is(sn + p - 1, p, -a, p - 1 - r);
    }
}

/// Clearing the lowest `k` bits of a number of `bits` bits takes away its
/// remainder by two to the power of `k`.
#[verifier::rlimit(40)]
proof fn lemma_clear_low_bits(x: nat, bits: nat, k: nat)
    requires
        bits == 32 || bits == 64,
        k < bits,
        x < two_to(bits),
    ensures
        ((x as u64) & ((two_to(bits) - two_to(k)) as u64)) == x - x % two_to(k),
{
    lemma_two_to_values();
    lemma_two_to_grows(k, (bits - 1) as nat);
    lemma_two_to_grows(0, k);
    lemma_two_to_grows(bits, 64);
    lemma_two_to_grows((bits - 1) as nat, 63);
    assert(two_to(bits) == 2 * two_to((bits - 1) as nat));
    let xu = x as u64;
    let lo = (two_to(k) - 1) as u64;
    let hi = (two_to(bits) - two_to(k)) as u64;
    lemma_two_to_is_pow2(k);
    vstd::bits::lemma_u64_low_bits_mask_is_mod(xu, k);
    assert(vstd::bits::low_bits_mask(k) == lo);
    assert(xu & lo == xu % (two_to(k) as u64));
    if bits == 32 {
        assert(xu & hi == xu - (xu & lo)) by (bit_vector)
            requires
                xu <= 0xffff_ffffu64,
                lo <= 0x7fff_ffffu64,
                hi == 0xffff_ffffu64 - lo,
        ;
    } else {
        assert(xu & hi == xu - (xu & lo)) by (bit_vector)
            requires
                hi == 0xffff_ffff_ffff_ffffu64 - lo,
        ;
    }
}

/// Adding whole turns to a number adds whole turns to its quotient by a power
/// of two that the turn is a multiple of.
proof fn lemma_quotient_turns(x: int, turns: int, bits: nat, k: nat)
    requires
        k <= bits,
    ensures
        (two_to(k) as int) * ((x + turns * two_to(bits)) / (two_to(k) as int)) == (two_to(
            k,
        ) as int) * (x / (two_to(k) as int)) + turns * two_to(bits),
{
    let p = two_to(k) as int;
    let b = two_to(bits) as int;
    let e = two_to((bits - k) as nat) as int;
    lemma_two_to_grows(0, k);
    lemma_two_to_adds(k, (bits - k) as nat);
    assert(b == p * e);
    let q = x / p;
    let r = x % p;
    vstd::arithmetic::div_mod::lemma_fundamental_div_mod(x, p);
    vstd::arithmetic::div_mod::lemma_mod_bound(x, p);
    assert(x + turns * b == (q + turns * e) * p + r) by (nonlinear_arith)
        requires
            x == p * q + r,
            b == p * e,
    ;
    lemma_div_mod_is(x + turns * b, p, q + turns * e, r);
    assert(p * (q + turns * e) == p * q + turns * b) by (nonlinear_arith)
        requires
            b == p * e,
    ;
}

/// The number that a use of `wrapped` adds turns to, and how many.
proof fn lemma_wrapped_is_turns(x: int, bits: nat) -> (turns: int)
    ensures
        wrapped(x, bits) == x + turns * two_to(bits),
{
    lemma_two_to_grows(0, bits);
    let b = two_to(bits) as int;
    vstd::arithmetic::div_mod::lemma_fundamental_div_mod(x, b);
    vstd::arithmetic::div_mod::lemma_mod_bound(x, b);
    let t = -(x / b);
    assert(x % b == x + t * b) by (nonlinear_arith)
        requires
            x == b * (x / b) + x % b,
            t == -(x / b),
    ;
    t
}

/// What the instructions of a signed division or remainder by two to the power
/// of `k`, or by its negation, come to: the dividend with its bias is shifted
/// to the right, and negated for a negative divisor, or its lowest `k` bits are
/// cleared and it is taken from the dividend.
pub open spec fn signed_power_value(is_rem: bool, negative: bool, n: nat, bits: nat, k: nat) -> nat {
    let biased = wrapped((n + bias_of(n, bits, k)) as int, bits);
    if is_rem {
        let cleared = ((biased as u64) & (wrapped(-(two_to(k) as int), bits) as u64)) as nat;
        wrapped(n - cleared, bits)
    } else {
        let shifted = wrapped(signed_reading(biased, bits) / (two_to(k) as int), bits);
        if negative {
            wrapped(0 - shifted, bits)
        } else {
            shifted
        }
    }
}

/// The results of the inserted instructions come one by one: each is worked out
/// from the results before it.
proof fn lemma_results_step(ops: Seq<Op>, input: nat, bits: nat, count: nat)
    requires
        count > 0,
    ensures
        results_of(ops, input, bits, count) == results_of(
            ops,
            input,
            bits,
            (count - 1) as nat,
        ).push(
            op_value(
                ops[count - 1],
                input,
                results_of(ops, input, bits, (count - 1) as nat),
                bits,
            ),
        ),
        results_of(ops, input, bits, 0) == Seq::<nat>::empty(),
{
}

/// The instructions of a signed division or remainder by two to the power of
/// `k`, or by its negation, written out.
pub open spec fn signed_power_rewrite(is_rem: bool, negative: bool, bits: u32, k: nat) -> RewriteView {
    let biased = signed_bias_steps(bits, k);
    let t3 = Src::Step((biased.len() - 1) as usize);
    let last = Src::Step(biased.len() as usize);
    if is_rem {
        RewriteView {
            inserted: biased.push(Op::BandImm(t3, (-(two_to(k) as int)) as i64)),
            replacement: Op::Isub(Src::Input, last),
        }
    } else {
        RewriteView {
            inserted: biased.push(Op::SshrImm(t3, k as i64)),
            replacement: if negative {
                Op::IrsubImm(last, 0)
            } else {
                Op::Copy(last)
            },
        }
    }
}

/// The rewrite of a signed division or remainder by a power of two is the one
/// that is written out.
proof fn lemma_signed_power_rewrite(is_rem: bool, ty: Type, bits: u32, k: nat, d: i64, magic: MagicParts)
    requires
        bits == 32 || bits == 64,
        1 <= k < bits,
        d == two_to(k) || d == -two_to(k),
    ensures
        signed_rewrite(is_rem, ty, bits, d, magic) == Some(
            signed_power_rewrite(is_rem, d < 0, bits, k),
        ),
{
    lemma_two_to_grows(1, k);
    lemma_two_to_grows(0, 1);
    assert(two_to(1) == 2);
    assert(magnitude(d as int) == two_to(k));
    lemma_exact_log2(two_to(k), k);
}

/// The biased dividend is what the first instructions of the rewrite leave.
#[verifier::rlimit(40)]
proof fn lemma_bias_steps_value(steps: Seq<Op>, bits: nat, n: nat, k: nat) -> (at: int)
    requires
        bits == 32 || bits == 64,
        1 <= k < bits,
        steps.len() >= signed_bias_steps(bits as u32, k).len(),
        forall|i: int|
            0 <= i < signed_bias_steps(bits as u32, k).len() ==> steps[i] == signed_bias_steps(
                bits as u32,
                k,
            )[i],
    ensures
        at == signed_bias_steps(bits as u32, k).len() - 1,
        results_of(steps, n, bits, (at + 1) as nat).len() == at + 1,
        results_of(steps, n, bits, (at + 1) as nat)[at] == wrapped(
            (n + bias_of(n, bits, k)) as int,
            bits,
        ),
{
    let biased = signed_bias_steps(bits as u32, k);
    lemma_results_step(steps, n, bits, 1);
    lemma_results_step(steps, n, bits, 2);
    let r0 = results_of(steps, n, bits, 0);
    let r1 = results_of(steps, n, bits, 1);
    let r2 = results_of(steps, n, bits, 2);
    if k == 1 {
        assert(steps[0] == biased[0]);
        assert(steps[1] == biased[1]);
        assert(steps[0] == Op::UshrImm(Src::Input, (bits - 1) as i64));
        assert(steps[1] == Op::Iadd(Src::Input, Src::Step(0)));
        assert(r1[0] == n / two_to((bits - 1) as nat));
        assert(r2[1] == wrapped((n + r1[0]) as int, bits));
        1
    } else {
        lemma_results_step(steps, n, bits, 3);
        let r3 = results_of(steps, n, bits, 3);
        assert(steps[0] == biased[0]);
        assert(steps[1] == biased[1]);
        assert(steps[2] == biased[2]);
        assert(steps[0] == Op::SshrImm(Src::Input, (k - 1) as i64));
        assert(steps[1] == Op::UshrImm(Src::Step(0), (bits - k) as i64));
        assert(steps[2] == Op::Iadd(Src::Input, Src::Step(1)));
        assert(r1[0] == wrapped(
            signed_reading(n, bits) / (two_to((k - 1) as nat) as int),
            bits,
        ));
        assert(r2[1] == r1[0] / two_to((bits - k) as nat));
        assert(r3[2] == wrapped((n + r2[1]) as int, bits));
        2
    }
}

/// The rewrite of a signed division or remainder by a power of two comes to
/// what its instructions say.
#[verifier::rlimit(40)]
proof fn lemma_signed_power_steps(is_rem: bool, negative: bool, bits: nat, n: nat, k: nat)
    requires
        bits == 32 || bits == 64,
        1 <= k < bits,
    ensures
        rewrite_value(signed_power_rewrite(is_rem, negative, bits as u32, k), n, bits)
            == signed_power_value(is_rem, negative, n, bits, k),
{
    let rewrite = signed_power_rewrite(is_rem, negative, bits as u32, k);
    let steps = rewrite.inserted;
    let biased = signed_bias_steps(bits as u32, k);
    assert forall|i: int| 0 <= i < biased.len() implies steps[i] == biased[i] by {}
    let at = lemma_bias_steps_value(steps, bits, n, k);
    let count = (at + 2) as nat;
    assert(steps.len() == count);
    lemma_results_step(steps, n, bits, count);
    let before = results_of(steps, n, bits, (at + 1) as nat);
    let results = results_of(steps, n, bits, count);
    let t3 = wrapped((n + bias_of(n, bits, k)) as int, bits);
    lemma_two_to_values();
    lemma_two_to_grows(k, 63);
    lemma_two_to_grows(0, k);
    assert(before.len() == at + 1);
    assert(results.len() == at + 2);
    assert(before[at] == t3);
    assert(results[at + 1] == op_value(steps[at + 1], n, before, bits));
    assert(src_value(Src::Step(at as usize), n, before) == t3);
    assert(src_value(Src::Step((at + 1) as usize), n, results) == results[at + 1]);
    assert(src_value(Src::Input, n, results) == n);
    if is_rem {
        let imm = (-(two_to(k) as int)) as i64;
        assert(imm as int == -(two_to(k) as int));
        assert(steps[at + 1] == Op::BandImm(Src::Step(at as usize), imm));
        assert(results[at + 1] == (((t3 as u64) & (wrapped(-(two_to(k) as int), bits) as u64))
            as nat));
        assert(rewrite.replacement == Op::Isub(Src::Input, Src::Step((at + 1) as usize)));
        assert(rewrite_value(rewrite, n, bits) == wrapped(n - results[at + 1], bits));
    } else {
        assert(steps[at + 1] == Op::SshrImm(Src::Step(at as usize), k as i64));
        assert((k as i64) as nat == k);
        assert(results[at + 1] == wrapped(signed_reading(t3, bits) / (two_to(k) as int), bits));
        if negative {
            assert(rewrite.replacement == Op::IrsubImm(Src::Step((at + 1) as usize), 0));
            assert(rewrite_value(rewrite, n, bits) == wrapped(0 - results[at + 1], bits));
        } else {
            assert(rewrite.replacement == Op::Copy(Src::Step((at + 1) as usize)));
            assert(rewrite_value(rewrite, n, bits) == results[at + 1]);
        }
    }
}

/// What the instructions of a signed division or remainder by a power of two
/// come to is the quotient or the remainder of the division that rounds
/// toward zero.
#[verifier::rlimit(40)]
proof fn lemma_signed_power_value(is_rem: bool, n: nat, bits: nat, k: nat, d: int)
    requires
        bits == 32 || bits == 64,
        1 <= k < bits,
        n < two_to(bits),
        d == two_to(k) || d == -two_to(k),
    ensures
        signed_power_value(is_rem, d < 0, n, bits, k) == wrapped(
            if is_rem {
                remainder_toward_zero(signed_reading(n, bits), d)
            } else {
                quotient_toward_zero(signed_reading(n, bits), d)
            },
            bits,
        ),
{
    let sn = signed_reading(n, bits);
    let p = two_to(k) as int;
    let b = two_to(bits) as int;
    lemma_two_to_grows(0, k);
    lemma_two_to_grows(k, (bits - 1) as nat);
    let t2 = bias_of(n, bits, k);
    let t3 = wrapped((n + t2) as int, bits);
    lemma_bias(n, bits, k);
    lemma_biased(n, bits, k);
    lemma_biased_quotient(sn, k);
    lemma_signed_reading(n, bits);
    let q = quotient_toward_zero(sn, p);
    assert(signed_reading(t3, bits) / p == q);
    if is_rem {
        lemma_signed_remainder(n, bits, k, d, t3, q);
    } else {
        if d < 0 {
            let turns = lemma_wrapped_is_turns(q, bits);
            assert(0 - wrapped(q, bits) == (-q) + (-turns) * b) by (nonlinear_arith)
                requires
                    wrapped(q, bits) == q + turns * b,
            ;
            lemma_wrapped_turns(-q, -turns, bits);
        }
    }
}

/// The dividend less the biased dividend with its lowest `k` bits cleared is
/// the remainder.
#[verifier::rlimit(40)]
proof fn lemma_signed_remainder(n: nat, bits: nat, k: nat, d: int, t3: nat, q: int)
    requires
        bits == 32 || bits == 64,
        1 <= k < bits,
        n < two_to(bits),
        d == two_to(k) || d == -two_to(k),
        t3 == wrapped((n + bias_of(n, bits, k)) as int, bits),
        q == quotient_toward_zero(signed_reading(n, bits), two_to(k) as int),
        (signed_reading(n, bits) + bias_of(n, bits, k)) / (two_to(k) as int) == q,
    ensures
        wrapped(
            n - (((t3 as u64) & (wrapped(-(two_to(k) as int), bits) as u64)) as nat),
            bits,
        ) == wrapped(remainder_toward_zero(signed_reading(n, bits), d), bits),
{
    let sn = signed_reading(n, bits);
    let p = two_to(k) as int;
    let b = two_to(bits) as int;
    let t2 = bias_of(n, bits, k);
    lemma_two_to_grows(0, k);
    lemma_two_to_grows(k, (bits - 1) as nat);
    lemma_signed_reading(n, bits);
    lemma_biased(n, bits, k);
    let mask = wrapped(-p, bits);
    lemma_wrapped_near(-p, bits);
    assert(mask == b - p);
    lemma_clear_low_bits(t3, bits, k);
    let cleared = ((t3 as u64) & (mask as u64)) as nat;
    vstd::arithmetic::div_mod::lemma_fundamental_div_mod(t3 as int, p);
    assert(cleared == p * (t3 as int / p));
    // The biased dividend is the signed one with some turns added.
    let turns = lemma_wrapped_is_turns(sn + t2, bits);
    let own = if sn < 0 {
        1int
    } else {
        0int
    };
    assert(n == sn + own * b) by (nonlinear_arith)
        requires
            (own == 1 && n == sn + b) || (own == 0 && n == sn),
    ;
    assert(n + t2 == (sn + t2) + own * b);
    lemma_wrapped_turns(sn + t2, own, bits);
    assert(t3 == sn + t2 + turns * b);
    lemma_quotient_turns(sn + t2, turns, bits, k);
    assert(cleared == p * q + turns * b);
    assert(n - cleared == (sn - p * q) + (own - turns) * b) by (nonlinear_arith)
        requires
            n == sn + own * b,
            cleared == p * q + turns * b,
    ;
    lemma_wrapped_turns(sn - p * q, own - turns, bits);
    let qd = quotient_toward_zero(sn, d);
    assert((d == p && qd == q) || (d == -p && qd == -q));
    assert(remainder_toward_zero(sn, d) == sn - p * q) by (nonlinear_arith)
        requires
            remainder_toward_zero(sn, d) == sn - d * qd,
            (d == p && qd == q) || (d == -p && qd == -q),
    ;
}

/// The rewrite of a signed division or remainder by a power of two, or by the
/// negation of one, computes the quotient or the remainder of the division
/// that rounds toward zero.
///
/// `bits` is 32 or 64, `n` holds the bits of the dividend, and the divisor `d` is
/// two to the power of `k` or its negation, `k` at least one, in the range of
/// signed numbers of `bits` bits. `ty` and `magic` are as may be: they are not
/// looked at.
pub proof fn lemma_signed_power_of_two(
    is_rem: bool,
    ty: Type,
    bits: nat,
    n: nat,
    k: nat,
    d: i64,
    magic: MagicParts,
)
    requires
        bits == 32 || bits == 64,
        1 <= k < bits,
        n < two_to(bits),
        d == two_to(k) || d == -two_to(k),
    ensures
        signed_rewrite(is_rem, ty, bits as u32, d, magic) is Some,
        rewrite_value(signed_rewrite(is_rem, ty, bits as u32, d, magic).unwrap(), n, bits)
            == wrapped(
            if is_rem {
                remainder_toward_zero(signed_reading(n, bits), d as int)
            } else {
                quotient_toward_zero(signed_reading(n, bits), d as int)
            },
            bits,
        ),
{
    lemma_signed_power_rewrite(is_rem, ty, bits as u32, k, d, magic);
    lemma_signed_power_steps(is_rem, d < 0, bits, n, k);
    lemma_signed_power_value(is_rem, n, bits, k, d as int);
}

/// The rewrite of a signed division by one hands on the dividend, and that of a
/// remainder by one gives zero.
pub proof fn lemma_signed_by_one(is_rem: bool, ty: Type, bits: nat, n: nat, magic: MagicParts)
    requires
        bits == 32 || bits == 64,
        n < two_to(bits),
    ensures
        signed_rewrite(is_rem, ty, bits as u32, 1, magic) is Some,
        rewrite_value(signed_rewrite(is_rem, ty, bits as u32, 1, magic).unwrap(), n, bits)
            == wrapped(
            if is_rem {
                remainder_toward_zero(signed_reading(n, bits), 1)
            } else {
                quotient_toward_zero(signed_reading(n, bits), 1)
            },
            bits,
        ),
{
    lemma_signed_reading(n, bits);
    lemma_two_to_grows(0, bits);
    let sn = signed_reading(n, bits);
    assert(results_of(Seq::<Op>::empty(), n, bits, 0) == Seq::<nat>::empty());
    if is_rem {
        assert(quotient_toward_zero(sn, 1) == sn);
        assert(remainder_toward_zero(sn, 1) == 0);
        lemma_wrapped_near(0, bits);
    }
}

/// The quotient that the magic numbers of an unsigned division stand for: the
/// dividend is multiplied by the multiplier, with one more bit set above its
/// `bits` bits where the dividend is to be added, and the product is shifted
/// to the right by `bits` bits and the shift of the magic numbers.
pub open spec fn unsigned_magic_quotient(n: nat, bits: nat, magic: MagicParts) -> nat {
    let m = wrapped(magic.mul_by as int, bits);
    if magic.do_add {
        (n * (two_to(bits) + m)) / two_to((bits + magic.shift_by) as nat)
    } else {
        (n * m) / two_to((bits + magic.shift_by) as nat)
    }
}

/// What the instructions of an unsigned division by magic numbers come to.
pub open spec fn unsigned_magic_value(n: nat, bits: nat, magic: MagicParts) -> nat {
    let m = wrapped(magic.mul_by as int, bits);
    let q1 = (n * m) / two_to(bits);
    if magic.do_add {
        let t1 = wrapped(n - q1, bits);
        let t2 = t1 / two_to(1);
        let t3 = wrapped((t2 + q1) as int, bits);
        t3 / two_to((magic.shift_by - 1) as nat)
    } else if magic.shift_by > 0 {
        q1 / two_to(magic.shift_by as nat)
    } else {
        q1
    }
}

/// The instructions of an unsigned division by magic numbers leave what they
/// come to in the last of them.
#[verifier::rlimit(40)]
proof fn lemma_unsigned_magic_steps(steps: Seq<Op>, ty: Type, bits: nat, n: nat, magic: MagicParts) -> (at:
    int)
    requires
        bits == 32 || bits == 64,
        if magic.do_add {
            1 <= magic.shift_by <= bits
        } else {
            0 <= magic.shift_by <= bits - 1
        },
        steps.len() >= 2 + unsigned_quotient_steps(magic).len(),
        forall|i: int|
            0 <= i < 2 + unsigned_quotient_steps(magic).len() ==> steps[i] == (seq![
                Op::Iconst(ty, magic.mul_by),
                Op::Umulhi(Src::Input, Src::Step(0)),
            ] + unsigned_quotient_steps(magic))[i],
    ensures
        at == 1 + unsigned_quotient_steps(magic).len(),
        results_of(steps, n, bits, (at + 1) as nat).len() == at + 1,
        results_of(steps, n, bits, (at + 1) as nat)[at] == unsigned_magic_value(n, bits, magic),
{
    let want = seq![Op::Iconst(ty, magic.mul_by), Op::Umulhi(Src::Input, Src::Step(0))]
        + unsigned_quotient_steps(magic);
    let m = wrapped(magic.mul_by as int, bits);
    lemma_results_step(steps, n, bits, 1);
    lemma_results_step(steps, n, bits, 2);
    let r1 = results_of(steps, n, bits, 1);
    let r2 = results_of(steps, n, bits, 2);
    assert(steps[0] == want[0]);
    assert(steps[1] == want[1]);
    assert(r1[0] == m);
    assert(r2[1] == (n * m) / two_to(bits));
    if magic.do_add {
        lemma_results_step(steps, n, bits, 3);
        lemma_results_step(steps, n, bits, 4);
        lemma_results_step(steps, n, bits, 5);
        lemma_results_step(steps, n, bits, 6);
        let r3 = results_of(steps, n, bits, 3);
        let r4 = results_of(steps, n, bits, 4);
        let r5 = results_of(steps, n, bits, 5);
        let r6 = results_of(steps, n, bits, 6);
        assert(steps[2] == want[2]);
        assert(steps[3] == want[3]);
        assert(steps[4] == want[4]);
        assert(steps[5] == want[5]);
        assert(steps[2] == Op::Isub(Src::Input, Src::Step(1)));
        assert(steps[3] == Op::UshrImm(Src::Step(2), 1));
        assert(steps[4] == Op::Iadd(Src::Step(3), Src::Step(1)));
        assert(steps[5] == Op::UshrImm(Src::Step(4), (magic.shift_by - 1) as i64));
        assert(r3[2] == wrapped(n - r2[1], bits));
        assert(r4[3] == r3[2] / two_to(1));
        assert(r5[4] == wrapped((r4[3] + r2[1]) as int, bits));
        assert(((magic.shift_by - 1) as i64) as nat == (magic.shift_by - 1) as nat);
        assert(r6[5] == r5[4] / two_to((magic.shift_by - 1) as nat));
        5
    } else if magic.shift_by > 0 {
        lemma_results_step(steps, n, bits, 3);
        let r3 = results_of(steps, n, bits, 3);
        assert(steps[2] == want[2]);
        assert(steps[2] == Op::UshrImm(Src::Step(1), magic.shift_by as i64));
        assert((magic.shift_by as i64) as nat == magic.shift_by as nat);
        assert(r3[2] == r2[1] / two_to(magic.shift_by as nat));
        2
    } else {
        1
    }
}

/// What the instructions of an unsigned division by magic numbers come to is
/// the quotient that the magic numbers stand for.
#[verifier::rlimit(40)]
proof fn lemma_unsigned_magic_value(n: nat, bits: nat, magic: MagicParts)
    requires
        n < two_to(bits),
        if magic.do_add {
            1 <= magic.shift_by
        } else {
            0 <= magic.shift_by
        },
    ensures
        unsigned_magic_value(n, bits, magic) == unsigned_magic_quotient(n, bits, magic),
        unsigned_magic_value(n, bits, magic) <= n,
{
    let b = two_to(bits) as int;
    let m = wrapped(magic.mul_by as int, bits) as int;
    let s = magic.shift_by as nat;
    lemma_two_to_grows(0, bits);
    lemma_two_to_grows(0, s);
    vstd::arithmetic::div_mod::lemma_mod_bound(magic.mul_by as int, b);
    let x = n * m;
    assert(0 <= x <= n * (b - 1)) by (nonlinear_arith)
        requires
            x == n * m,
            0 <= m <= b - 1,
            n >= 0,
    ;
    let q1 = x / b;
    let r = x % b;
    vstd::arithmetic::div_mod::lemma_fundamental_div_mod(x, b);
    vstd::arithmetic::div_mod::lemma_mod_bound(x, b);
    assert(0 <= q1 <= n) by (nonlinear_arith)
        requires
            x == b * q1 + r,
            0 <= r < b,
            0 <= x <= n * (b - 1),
            b > 0,
            n >= 0,
    ;
    if magic.do_add {
        let e = two_to((s - 1) as nat) as int;
        lemma_two_to_grows(0, (s - 1) as nat);
        assert(two_to(1) == 2) by {
            lemma_two_to_grows(0, 0);
        }
        lemma_wrapped_near(n - q1, bits);
        let t2 = (n - q1) / 2;
        // Half of the difference and the quotient are half of the sum.
        vstd::arithmetic::div_mod::lemma_hoist_over_denominator(n - q1, q1, 2);
        assert(t2 + q1 == (n + q1) / 2);
        vstd::arithmetic::div_mod::lemma_div_is_ordered(n + q1, (2 * n) as int, 2);
        assert((2 * n) / 2 == n);
        vstd::arithmetic::div_mod::lemma_div_pos_is_pos(n + q1, 2);
        lemma_wrapped_near(t2 + q1, bits);
        // The sum is the dividend times the longer multiplier, without its
        // lowest `bits` bits.
        let y = n * (b + m);
        assert(y == (n + q1) * b + r) by (nonlinear_arith)
            requires
                y == n * (b + m),
                n * m == b * q1 + r,
        ;
        lemma_div_mod_is(y, b, n + q1, r);
        vstd::arithmetic::div_mod::lemma_div_denominator(y, b, 2);
        assert(0 < b * 2);
        vstd::arithmetic::div_mod::lemma_div_denominator(y, b * 2, e);
        lemma_two_to_adds(bits, s);
        assert(two_to(s) == 2 * two_to((s - 1) as nat));
        assert((b * 2) * e == two_to(bits + s)) by (nonlinear_arith)
            requires
                two_to(bits + s) == b * two_to(s),
                two_to(s) == 2 * e,
        ;
        vstd::arithmetic::div_mod::lemma_div_is_ordered(0, (n + q1) / 2, e);
        vstd::arithmetic::div_mod::lemma_div_nonincreasing((n + q1) / 2, e);
    } else {
        if s > 0 {
            let e = two_to(s) as int;
            vstd::arithmetic::div_mod::lemma_div_denominator(x, b, e);
            lemma_two_to_adds(bits, s);
            vstd::arithmetic::div_mod::lemma_div_nonincreasing(q1, e);
        } else {
            assert(two_to(bits + s) == two_to(bits));
        }
    }
}

/// The rewrite of an unsigned division or remainder by magic numbers computes
/// the quotient that the magic numbers stand for, or the dividend less the
/// product of that quotient and the divisor. Where the magic numbers are
/// those of the divisor, so that their quotient is the quotient of the
/// division, this is the quotient or the remainder of the division.
///
/// `bits` is 32 or 64, `n` is the dividend and `d` the divisor, at least three
/// and no power of two, both numbers of `bits` bits, and `d_imm` is the divisor
/// as an immediate.
pub proof fn lemma_unsigned_magic(
    is_rem: bool,
    ty: Type,
    bits: nat,
    n: nat,
    d: u64,
    d_imm: i64,
    magic: MagicParts,
)
    requires
        bits == 32 || bits == 64,
        n < two_to(bits),
        3 <= d < two_to(bits),
        exact_log2(d as nat) is None,
        wrapped(d_imm as int, bits) == d,
        if magic.do_add {
            1 <= magic.shift_by <= bits
        } else {
            0 <= magic.shift_by <= bits - 1
        },
    ensures
        unsigned_rewrite(is_rem, ty, d, d_imm, magic) is Some,
        rewrite_value(unsigned_rewrite(is_rem, ty, d, d_imm, magic).unwrap(), n, bits) == (
        if is_rem {
            wrapped(n - unsigned_magic_quotient(n, bits, magic) * d, bits)
        } else {
            unsigned_magic_quotient(n, bits, magic)
        }),
        unsigned_magic_quotient(n, bits, magic) == n / (d as nat) ==> rewrite_value(
            unsigned_rewrite(is_rem, ty, d, d_imm, magic).unwrap(),
            n,
            bits,
        ) == (if is_rem {
            n % (d as nat)
        } else {
            n / (d as nat)
        }),
{
    let quotient_steps = seq![Op::Iconst(ty, magic.mul_by), Op::Umulhi(Src::Input, Src::Step(0))]
        + unsigned_quotient_steps(magic);
    let rewrite = unsigned_rewrite(is_rem, ty, d, d_imm, magic).unwrap();
    assert(rewrite == finished(quotient_steps, is_rem, d_imm));
    let steps = rewrite.inserted;
    assert forall|i: int| 0 <= i < quotient_steps.len() implies steps[i] == quotient_steps[i] by {}
    let at = lemma_unsigned_magic_steps(steps, ty, bits, n, magic);
    lemma_unsigned_magic_value(n, bits, magic);
    let q = unsigned_magic_quotient(n, bits, magic);
    let before = results_of(steps, n, bits, (at + 1) as nat);
    assert(before[at] == q);
    assert(quotient_steps.len() == at + 1);
    lemma_two_to_grows(0, bits);
    let b = two_to(bits) as int;
    if is_rem {
        lemma_results_step(steps, n, bits, (at + 2) as nat);
        let results = results_of(steps, n, bits, (at + 2) as nat);
        assert(steps.len() == at + 2);
        assert(steps[at + 1] == Op::ImulImm(Src::Step(at as usize), d_imm));
        assert(src_value(Src::Step(at as usize), n, before) == q);
        let product = wrapped(q * d_imm, bits);
        assert(results[at + 1] == product);
        assert(rewrite.replacement == Op::Isub(Src::Input, Src::Step((at + 1) as usize)));
        assert(src_value(Src::Step((at + 1) as usize), n, results) == product);
        assert(rewrite_value(rewrite, n, bits) == wrapped(n - product, bits));
        // The immediate is the divisor, give or take whole turns.
        let t1 = lemma_wrapped_is_turns(d_imm as int, bits);
        assert(q * d_imm == q * d + (-(q * t1)) * b) by (nonlinear_arith)
            requires
                d as int == d_imm + t1 * b,
        ;
        lemma_wrapped_turns(q * d, -(q * t1), bits);
        let t2 = lemma_wrapped_is_turns(q * d, bits);
        assert(n - product == (n - q * d) + (-t2) * b) by (nonlinear_arith)
            requires
                product == q * d + t2 * b,
        ;
        lemma_wrapped_turns(n - q * d, -t2, bits);
        if q == n / (d as nat) {
            vstd::arithmetic::div_mod::lemma_fundamental_div_mod(n as int, d as int);
            vstd::arithmetic::div_mod::lemma_mod_bound(n as int, d as int);
            assert(n - q * d == n % (d as nat)) by (nonlinear_arith)
                requires
                    n as int == (d as int) * (n as int / (d as int)) + (n as int % (d as int)),
                    q == n as int / (d as int),
            ;
            lemma_wrapped_near((n % (d as nat)) as int, bits);
        }
    } else {
        assert(steps.len() == at + 1);
        assert(rewrite.replacement == Op::Copy(Src::Step(at as usize)));
        assert(src_value(Src::Step(at as usize), n, before) == q);
    }
}

/// How the dividend comes into the product of a signed division by magic
/// numbers once more: added where the divisor is positive and the multiplier
/// negative, taken away where it is the other way round, and not at all
/// elsewhere.
pub open spec fn signed_correction(d: i64, magic: MagicParts) -> int {
    if d > 0 && magic.mul_by < 0 {
        1
    } else if d < 0 && magic.mul_by > 0 {
        -1
    } else {
        0
    }
}

/// The quotient that the magic numbers of a signed division stand for: the
/// dividend is multiplied by the multiplier, made longer by one bit where the
/// dividend is added or taken away, the product is shifted to the right by
/// `bits` bits and the shift of the magic numbers, and one is added to a
/// negative result.
pub open spec fn signed_magic_quotient(sn: int, d: i64, bits: nat, magic: MagicParts) -> int {
    let multiplier = magic.mul_by + signed_correction(d, magic) * two_to(bits);
    let shifted = (sn * multiplier) / (two_to((bits + magic.shift_by) as nat) as int);
    if shifted < 0 {
        shifted + 1
    } else {
        shifted
    }
}

/// What the instructions of a signed division by magic numbers come to.
pub open spec fn signed_magic_value(n: nat, d: i64, bits: nat, magic: MagicParts) -> nat {
    let m = wrapped(magic.mul_by as int, bits);
    let q1 = wrapped(
        (signed_reading(n, bits) * signed_reading(m, bits)) / (two_to(bits) as int),
        bits,
    );
    let q2 = if signed_correction(d, magic) == 1 {
        wrapped((q1 + n) as int, bits)
    } else if signed_correction(d, magic) == -1 {
        wrapped(q1 - n, bits)
    } else {
        q1
    };
    let q3 = if magic.shift_by == 0 {
        q2
    } else {
        wrapped(signed_reading(q2, bits) / (two_to(magic.shift_by as nat) as int), bits)
    };
    let t1 = q3 / two_to((bits - 1) as nat);
    wrapped((q3 + t1) as int, bits)
}

/// One more of the inserted instructions gives one more result, and leaves the
/// results before it as they are.
proof fn lemma_next_result(steps: Seq<Op>, n: nat, bits: nat, i: nat, value: nat)
    requires
        results_of(steps, n, bits, i).len() == i,
        op_value(steps[i as int], n, results_of(steps, n, bits, i), bits) == value,
    ensures
        results_of(steps, n, bits, i + 1).len() == i + 1,
        results_of(steps, n, bits, i + 1)[i as int] == value,
        forall|j: int|
            0 <= j < i ==> results_of(steps, n, bits, i + 1)[j] == results_of(steps, n, bits, i)[j],
{
    lemma_results_step(steps, n, bits, i + 1);
}

/// The product of a signed division by magic numbers, corrected: the first
/// instructions of the rewrite leave it at place 1, or at place 2 where there
/// is a correction.
proof fn lemma_signed_magic_product(
    steps: Seq<Op>,
    ty: Type,
    bits: nat,
    n: nat,
    d: i64,
    magic: MagicParts,
) -> (at: int)
    requires
        steps.len() >= 3,
        steps[0] == Op::Iconst(ty, magic.mul_by),
        steps[1] == Op::Smulhi(Src::Input, Src::Step(0)),
        signed_correction(d, magic) == 1 ==> steps[2] == Op::Iadd(Src::Step(1), Src::Input),
        signed_correction(d, magic) == -1 ==> steps[2] == Op::Isub(Src::Step(1), Src::Input),
    ensures
        at == (if signed_correction(d, magic) == 0 {
            1int
        } else {
            2int
        }),
        results_of(steps, n, bits, (at + 1) as nat).len() == at + 1,
        results_of(steps, n, bits, (at + 1) as nat)[at] == signed_magic_corrected(
            n,
            d,
            bits,
            magic,
        ),
{
    let m = wrapped(magic.mul_by as int, bits);
    let q1 = wrapped(
        (signed_reading(n, bits) * signed_reading(m, bits)) / (two_to(bits) as int),
        bits,
    );
    let c = signed_correction(d, magic);
    lemma_results_step(steps, n, bits, 1);
    lemma_next_result(steps, n, bits, 0, m);
    let r1 = results_of(steps, n, bits, 1);
    assert(src_value(Src::Step(0), n, r1) == m);
    lemma_next_result(steps, n, bits, 1, q1);
    let r2 = results_of(steps, n, bits, 2);
    if c == 0 {
        1
    } else {
        assert(src_value(Src::Step(1), n, r2) == q1);
        assert(src_value(Src::Input, n, r2) == n);
        if c == 1 {
            lemma_next_result(steps, n, bits, 2, wrapped((q1 + n) as int, bits));
        } else {
            lemma_next_result(steps, n, bits, 2, wrapped(q1 - n, bits));
        }
        2
    }
}

/// The product of a signed division by magic numbers, with the dividend added
/// or taken away where the signs of divisor and multiplier differ.
pub open spec fn signed_magic_corrected(n: nat, d: i64, bits: nat, magic: MagicParts) -> nat {
    let m = wrapped(magic.mul_by as int, bits);
    let q1 = wrapped(
        (signed_reading(n, bits) * signed_reading(m, bits)) / (two_to(bits) as int),
        bits,
    );
    if signed_correction(d, magic) == 1 {
        wrapped((q1 + n) as int, bits)
    } else if signed_correction(d, magic) == -1 {
        wrapped(q1 - n, bits)
    } else {
        q1
    }
}

/// The end of a signed division by magic numbers: the corrected product at
/// place `at` is shifted where there is a shift, and its sign bit is added to
/// it.
proof fn lemma_signed_magic_end(
    steps: Seq<Op>,
    bits: nat,
    n: nat,
    at: int,
    q2: nat,
    shift_by: i32,
) -> (last: int)
    requires
        bits == 32 || bits == 64,
        0 <= shift_by <= bits - 1,
        1 <= at <= 2,
        results_of(steps, n, bits, (at + 1) as nat).len() == at + 1,
        results_of(steps, n, bits, (at + 1) as nat)[at] == q2,
        steps.len() >= at + 3,
        shift_by != 0 ==> steps.len() >= at + 4,
        shift_by != 0 ==> steps[at + 1] == Op::SshrImm(Src::Step(at as usize), shift_by as i64),
        shift_by != 0 ==> steps[at + 2] == Op::UshrImm(
            Src::Step((at + 1) as usize),
            (bits - 1) as i64,
        ),
        shift_by != 0 ==> steps[at + 3] == Op::Iadd(
            Src::Step((at + 1) as usize),
            Src::Step((at + 2) as usize),
        ),
        shift_by == 0 ==> steps[at + 1] == Op::UshrImm(Src::Step(at as usize), (bits - 1) as i64),
        shift_by == 0 ==> steps[at + 2] == Op::Iadd(
            Src::Step(at as usize),
            Src::Step((at + 1) as usize),
        ),
    ensures
        last == (if shift_by == 0 {
            at + 2
        } else {
            at + 3
        }),
        results_of(steps, n, bits, (last + 1) as nat).len() == last + 1,
        results_of(steps, n, bits, (last + 1) as nat)[last] == signed_magic_end(
            q2,
            bits,
            shift_by,
        ),
{
    let q3 = if shift_by == 0 {
        q2
    } else {
        wrapped(signed_reading(q2, bits) / (two_to(shift_by as nat) as int), bits)
    };
    let i3: int = if shift_by == 0 {
        at
    } else {
        at + 1
    };
    if shift_by != 0 {
        let before = results_of(steps, n, bits, (at + 1) as nat);
        assert(src_value(Src::Step(at as usize), n, before) == q2);
        assert((shift_by as i64) as nat == shift_by as nat);
        lemma_next_result(steps, n, bits, (at + 1) as nat, q3);
    }
    let r3 = results_of(steps, n, bits, (i3 + 1) as nat);
    assert(r3.len() == i3 + 1);
    assert(r3[i3] == q3);
    assert(src_value(Src::Step(i3 as usize), n, r3) == q3);
    let t1 = q3 / two_to((bits - 1) as nat);
    assert(((bits - 1) as i64) as nat == (bits - 1) as nat);
    assert(steps[i3 + 1] == Op::UshrImm(Src::Step(i3 as usize), (bits - 1) as i64));
    lemma_next_result(steps, n, bits, (i3 + 1) as nat, t1);
    let r4 = results_of(steps, n, bits, (i3 + 2) as nat);
    assert(r4[i3] == q3);
    assert(src_value(Src::Step(i3 as usize), n, r4) == q3);
    assert(src_value(Src::Step((i3 + 1) as usize), n, r4) == t1);
    assert(steps[i3 + 2] == Op::Iadd(Src::Step(i3 as usize), Src::Step((i3 + 1) as usize)));
    lemma_next_result(steps, n, bits, (i3 + 2) as nat, wrapped((q3 + t1) as int, bits));
    i3 + 2
}

/// The corrected product of a signed division by magic numbers, shifted where
/// there is a shift, with its sign bit added to it.
pub open spec fn signed_magic_end(q2: nat, bits: nat, shift_by: i32) -> nat {
    let q3 = if shift_by == 0 {
        q2
    } else {
        wrapped(signed_reading(q2, bits) / (two_to(shift_by as nat) as int), bits)
    };
    wrapped((q3 + q3 / two_to((bits - 1) as nat)) as int, bits)
}

/// The instructions of a signed division by magic numbers leave what they come
/// to in the last of them.
proof fn lemma_signed_magic_steps(
    steps: Seq<Op>,
    ty: Type,
    bits: nat,
    n: nat,
    d: i64,
    magic: MagicParts,
) -> (at: int)
    requires
        bits == 32 || bits == 64,
        0 <= magic.shift_by <= bits - 1,
        steps.len() >= 2 + signed_quotient_steps(bits as u32, d, magic).len(),
        forall|i: int|
            0 <= i < 2 + signed_quotient_steps(bits as u32, d, magic).len() ==> steps[i] == (seq![
                Op::Iconst(ty, magic.mul_by),
                Op::Smulhi(Src::Input, Src::Step(0)),
            ] + signed_quotient_steps(bits as u32, d, magic))[i],
    ensures
        at == 1 + signed_quotient_steps(bits as u32, d, magic).len(),
        results_of(steps, n, bits, (at + 1) as nat).len() == at + 1,
        results_of(steps, n, bits, (at + 1) as nat)[at] == signed_magic_value(n, d, bits, magic),
{
    let tail = signed_quotient_steps(bits as u32, d, magic);
    let want = seq![Op::Iconst(ty, magic.mul_by), Op::Smulhi(Src::Input, Src::Step(0))] + tail;
    let c = signed_correction(d, magic);
    assert(steps[0] == want[0]);
    assert(steps[1] == want[1]);
    assert(steps[2] == want[2]);
    assert(steps[3] == want[3]);
    let i2: int = if c == 0 {
        1
    } else {
        2
    };
    let i3: int = if magic.shift_by == 0 {
        i2
    } else {
        i2 + 1
    };
    assert(tail.len() == i3 + 1);
    if i3 + 2 >= 4 {
        assert(steps[4] == want[4]);
    }
    if i3 + 2 >= 5 {
        assert(steps[5] == want[5]);
    }
    assert(steps[i3 + 1] == Op::UshrImm(Src::Step(i3 as usize), (bits - 1) as i64));
    assert(steps[i3 + 2] == Op::Iadd(Src::Step(i3 as usize), Src::Step((i3 + 1) as usize)));
    if magic.shift_by != 0 {
        assert(steps[i2 + 1] == Op::SshrImm(Src::Step(i2 as usize), magic.shift_by as i64));
    }
    let p = lemma_signed_magic_product(steps, ty, bits, n, d, magic);
    let q2 = signed_magic_corrected(n, d, bits, magic);
    let last = lemma_signed_magic_end(steps, bits, n, p, q2, magic.shift_by);
    assert(signed_magic_value(n, d, bits, magic) == signed_magic_end(q2, bits, magic.shift_by));
    last
}

/// Rounding down after a division by `c` and then by `d` is rounding down
/// after a division by their product.
proof fn lemma_floor_twice(x: int, c: int, d: int)
    requires
        c > 0,
        d > 0,
    ensures
        c * d > 0,
        (x / c) / d == x / (c * d),
{
    assert(c * d > 0) by (nonlinear_arith)
        requires
            c > 0,
            d > 0,
    ;
    let cd = c * d;
    let q = x / cd;
    let r = x % cd;
    vstd::arithmetic::div_mod::lemma_fundamental_div_mod(x, cd);
    vstd::arithmetic::div_mod::lemma_mod_bound(x, cd);
    let r1 = r / c;
    let r0 = r % c;
    vstd::arithmetic::div_mod::lemma_fundamental_div_mod(r, c);
    vstd::arithmetic::div_mod::lemma_mod_bound(r, c);
    assert(0 <= r1 < d) by (nonlinear_arith)
        requires
            r == c * r1 + r0,
            0 <= r0 < c,
            0 <= r < c * d,
            c > 0,
    ;
    assert(x == (d * q + r1) * c + r0) by (nonlinear_arith)
        requires
            x == cd * q + r,
            cd == c * d,
            r == c * r1 + r0,
    ;
    lemma_div_mod_is(x, c, d * q + r1, r0);
    assert(d * q + r1 == q * d + r1) by (nonlinear_arith);
    lemma_div_mod_is(x / c, d, q, r1);
}

/// A number in the range of signed numbers of `bits` bits is the signed
/// reading of what it is in `bits` bits.
proof fn lemma_signed_of_wrapped(x: int, bits: nat)
    requires
        bits > 0,
        -two_to((bits - 1) as nat) <= x < two_to((bits - 1) as nat),
    ensures
        signed_reading(wrapped(x, bits), bits) == x,
        wrapped(x, bits) < two_to(bits),
{
    lemma_two_to_grows(0, (bits - 1) as nat);
    assert(two_to(bits) == 2 * two_to((bits - 1) as nat));
    lemma_wrapped_near(x, bits);
}

/// A number of the signed range, scaled by a factor of less than one whole,
/// stays in the signed range.
proof fn lemma_scaled_in_range(sn: int, factor: int, h: int)
    requires
        h > 0,
        -h <= sn < h,
        -(2 * h) < factor < 2 * h,
    ensures
        -h <= (sn * factor) / (2 * h) < h,
{
    let b = 2 * h;
    let x = sn * factor;
    assert(-(h * b) < x < h * b) by (nonlinear_arith)
        requires
            x == sn * factor,
            -h <= sn < h,
            -b < factor < b,
            h > 0,
            b == 2 * h,
    ;
    let q = x / b;
    let r = x % b;
    vstd::arithmetic::div_mod::lemma_fundamental_div_mod(x, b);
    vstd::arithmetic::div_mod::lemma_mod_bound(x, b);
    assert(-h <= q < h) by (nonlinear_arith)
        requires
            x == b * q + r,
            0 <= r < b,
            -(h * b) < x < h * b,
            b > 0,
    ;
}

/// Rounding down a number of the signed range after a division by a power of
/// two leaves it in the signed range.
proof fn lemma_shifted_in_range(x: int, e: int, h: int)
    requires
        h > 0,
        e > 0,
        -h <= x < h,
    ensures
        -h <= x / e < h,
        (x / e < 0) == (x < 0),
{
    let q = x / e;
    let r = x % e;
    vstd::arithmetic::div_mod::lemma_fundamental_div_mod(x, e);
    vstd::arithmetic::div_mod::lemma_mod_bound(x, e);
    assert(-h <= q < h && ((q < 0) == (x < 0))) by (nonlinear_arith)
        requires
            x == e * q + r,
            0 <= r < e,
            -h <= x < h,
            e > 0,
            h > 0,
    ;
}

/// What the instructions of a signed division by magic numbers come to is the
/// quotient that the magic numbers stand for.
#[verifier::rlimit(80)]
proof fn lemma_signed_magic_value(n: nat, d: i64, bits: nat, magic: MagicParts)
    requires
        bits == 32 || bits == 64,
        n < two_to(bits),
        -two_to((bits - 1) as nat) <= magic.mul_by < two_to((bits - 1) as nat),
        0 <= magic.shift_by <= bits - 1,
    ensures
        signed_magic_value(n, d, bits, magic) == wrapped(
            signed_magic_quotient(signed_reading(n, bits), d, bits, magic),
            bits,
        ),
{
    let sn = signed_reading(n, bits);
    let h = two_to((bits - 1) as nat) as int;
    let b = two_to(bits) as int;
    let s = magic.shift_by as nat;
    let e = two_to(s) as int;
    let c = signed_correction(d, magic);
    let sm = magic.mul_by as int;
    lemma_two_to_grows(0, (bits - 1) as nat);
    lemma_two_to_grows(0, s);
    assert(b == 2 * h);
    lemma_signed_reading(n, bits);
    lemma_signed_of_wrapped(sm, bits);
    let m = wrapped(sm, bits);
    // The high half of the product.
    let f1 = (sn * sm) / b;
    lemma_scaled_in_range(sn, sm, h);
    let q1 = wrapped(f1, bits);
    lemma_signed_of_wrapped(f1, bits);
    // With the correction, it is the high half of the product with the
    // longer multiplier.
    let longer = sm + c * b;
    let x = f1 + c * sn;
    assert(sn * longer == sn * sm + (c * sn) * b) by (nonlinear_arith)
        requires
            longer == sm + c * b,
    ;
    vstd::arithmetic::div_mod::lemma_hoist_over_denominator(sn * sm, c * sn, b as nat);
    assert(x == (sn * longer) / b);
    assert(-b < longer < b);
    lemma_scaled_in_range(sn, longer, h);
    let q2 = if c == 1 {
        wrapped((q1 + n) as int, bits)
    } else if c == -1 {
        wrapped(q1 - n, bits)
    } else {
        q1
    };
    assert(q2 == wrapped(x, bits)) by {
        let t = lemma_wrapped_is_turns(f1, bits);
        let own = if sn < 0 {
            1int
        } else {
            0int
        };
        if c == 1 {
            assert(q1 + n == (f1 + sn) + (t + own) * b) by (nonlinear_arith)
                requires
                    q1 == f1 + t * b,
                    n == sn + own * b,
            ;
            lemma_wrapped_turns(f1 + sn, t + own, bits);
        } else if c == -1 {
            assert(q1 - n == (f1 - sn) + (t - own) * b) by (nonlinear_arith)
                requires
                    q1 == f1 + t * b,
                    n == sn + own * b,
            ;
            lemma_wrapped_turns(f1 - sn, t - own, bits);
        }
    }
    lemma_signed_of_wrapped(x, bits);
    // The shift rounds down once more.
    let y = x / e;
    lemma_shifted_in_range(x, e, h);
    lemma_floor_twice(sn * longer, b, e);
    lemma_two_to_adds(bits, s);
    assert(y == (sn * longer) / (two_to(bits + s) as int));
    let q3 = if s == 0 {
        q2
    } else {
        wrapped(signed_reading(q2, bits) / e, bits)
    };
    assert(q3 == wrapped(y, bits)) by {
        if s == 0 {
            assert(e == 1);
            assert(x / 1 == x);
        }
    }
    lemma_wrapped_near(y, bits);
    // The sign bit of the result is added to it.
    let t1 = q3 / (h as nat);
    if y < 0 {
        lemma_div_mod_is(q3 as int, h, 1, q3 - h);
    } else {
        lemma_div_mod_is(q3 as int, h, 0, q3 as int);
    }
    let own = if y < 0 {
        1int
    } else {
        0int
    };
    assert(q3 + t1 == (y + own) + own * b);
    lemma_wrapped_turns(y + own, own, bits);
}

/// The rewrite of a signed division or remainder by magic numbers computes the
/// quotient that the magic numbers stand for, or the dividend less the product
/// of that quotient and the divisor. Where the magic numbers are those of the
/// divisor, so that their quotient is the quotient of the division that rounds
/// toward zero, this is the quotient or the remainder of that division.
///
/// `bits` is 32 or 64, `n` holds the bits of the dividend, and the divisor `d`
/// is none of 0, 1 and -1, and neither a power of two nor the negation of one.
pub proof fn lemma_signed_magic(
    is_rem: bool,
    ty: Type,
    bits: nat,
    n: nat,
    d: i64,
    magic: MagicParts,
)
    requires
        bits == 32 || bits == 64,
        n < two_to(bits),
        d != 0 && d != 1 && d != -1,
        exact_log2(magnitude(d as int)) is None,
        -two_to((bits - 1) as nat) <= magic.mul_by < two_to((bits - 1) as nat),
        0 <= magic.shift_by <= bits - 1,
    ensures
        signed_rewrite(is_rem, ty, bits as u32, d, magic) is Some,
        rewrite_value(signed_rewrite(is_rem, ty, bits as u32, d, magic).unwrap(), n, bits)
            == wrapped(
            if is_rem {
                signed_reading(n, bits) - signed_magic_quotient(
                    signed_reading(n, bits),
                    d,
                    bits,
                    magic,
                ) * d
            } else {
                signed_magic_quotient(signed_reading(n, bits), d, bits, magic)
            },
            bits,
        ),
        signed_magic_quotient(signed_reading(n, bits), d, bits, magic) == quotient_toward_zero(
            signed_reading(n, bits),
            d as int,
        ) ==> rewrite_value(signed_rewrite(is_rem, ty, bits as u32, d, magic).unwrap(), n, bits)
            == wrapped(
            if is_rem {
                remainder_toward_zero(signed_reading(n, bits), d as int)
            } else {
                quotient_toward_zero(signed_reading(n, bits), d as int)
            },
            bits,
        ),
{
    let sn = signed_reading(n, bits);
    let quotient_steps = seq![Op::Iconst(ty, magic.mul_by), Op::Smulhi(Src::Input, Src::Step(0))]
        + signed_quotient_steps(bits as u32, d, magic);
    let rewrite = signed_rewrite(is_rem, ty, bits as u32, d, magic).unwrap();
    assert(rewrite == finished(quotient_steps, is_rem, d));
    let steps = rewrite.inserted;
    assert forall|i: int| 0 <= i < quotient_steps.len() implies steps[i] == quotient_steps[i] by {}
    let at = lemma_signed_magic_steps(steps, ty, bits, n, d, magic);
    lemma_signed_magic_value(n, d, bits, magic);
    let q = signed_magic_quotient(sn, d, bits, magic);
    let qf = wrapped(q, bits);
    let before = results_of(steps, n, bits, (at + 1) as nat);
    assert(before[at] == qf);
    assert(quotient_steps.len() == at + 1);
    lemma_two_to_grows(0, bits);
    lemma_signed_reading(n, bits);
    let b = two_to(bits) as int;
    if is_rem {
        lemma_results_step(steps, n, bits, (at + 2) as nat);
        let results = results_of(steps, n, bits, (at + 2) as nat);
        assert(steps.len() == at + 2);
        assert(steps[at + 1] == Op::ImulImm(Src::Step(at as usize), d));
        assert(src_value(Src::Step(at as usize), n, before) == qf);
        let product = wrapped(qf * d, bits);
        assert(results[at + 1] == product);
        assert(rewrite.replacement == Op::Isub(Src::Input, Src::Step((at + 1) as usize)));
        assert(src_value(Src::Step((at + 1) as usize), n, results) == product);
        assert(rewrite_value(rewrite, n, bits) == wrapped(n - product, bits));
        let t1 = lemma_wrapped_is_turns(q, bits);
        let t2 = lemma_wrapped_is_turns(qf * d, bits);
        let own = if sn < 0 {
            1int
        } else {
            0int
        };
        assert(n - product == (sn - q * d) + (own - t2 - t1 * d) * b) by (nonlinear_arith)
            requires
                n == sn + own * b,
                product == qf * d + t2 * b,
                qf == q + t1 * b,
        ;
        lemma_wrapped_turns(sn - q * d, own - t2 - t1 * d, bits);
        if q == quotient_toward_zero(sn, d as int) {
            assert(q * d == d * q) by (nonlinear_arith);
        }
    } else {
        assert(steps.len() == at + 1);
        assert(rewrite.replacement == Op::Copy(Src::Step(at as usize)));
        assert(src_value(Src::Step(at as usize), n, before) == qf);
    }
}

} // verus!
