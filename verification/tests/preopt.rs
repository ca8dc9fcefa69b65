use cretonne::condcodes::{FloatCC, IntCC};
use cretonne::entity::{Ebb, Value};
use cretonne::immediates::Imm64;
use cretonne::instructions::Opcode;
use cretonne::simple_gvn::{gvn_action, trivially_unsafe_for_gvn, GvnAction};
use cretonne::simple_preopt::{
    branch_opt, branch_order, do_divrem_transformation, get_div_info, isPowerOf2_S32,
    isPowerOf2_S64, package_up_divrem_info, simplify, BranchOptKind, BranchOrderKind, CondBranch,
    DivRemByConstInfo, Magic, Op, Rewrite, Simplifiable, Simplified, Src, ValueDef, MS32, MS64,
    MU32, MU64,
};
use cretonne::types::Type;

#[test]
fn powers_of_two() {
    assert_eq!(isPowerOf2_S32(8), Some((false, 3)));
    assert_eq!(isPowerOf2_S32(-8), Some((true, 3)));
    assert_eq!(isPowerOf2_S32(1), Some((false, 0)));
    assert_eq!(isPowerOf2_S32(-1), Some((true, 0)));
    assert_eq!(isPowerOf2_S32(0), None);
    assert_eq!(isPowerOf2_S32(6), None);
    assert_eq!(isPowerOf2_S32(i32::MAX), None);
    assert_eq!(isPowerOf2_S32(0x4000_0000), Some((false, 30)));
    assert_eq!(isPowerOf2_S32(i32::MIN), Some((true, 31)));
    assert_eq!(isPowerOf2_S64(1 << 40), Some((false, 40)));
    assert_eq!(isPowerOf2_S64(-(1 << 40)), Some((true, 40)));
    assert_eq!(isPowerOf2_S64(i64::MIN), Some((true, 63)));
    assert_eq!(isPowerOf2_S64(i64::MAX), None);
    assert_eq!(isPowerOf2_S64(0), None);
    assert_eq!(isPowerOf2_S64(12), None);
}

#[test]
fn divrem_info() {
    let v = Value::new(3);
    assert_eq!(
        package_up_divrem_info(v, Type::I32, 7, false, false),
        Some(DivRemByConstInfo::DivU32(v, 7))
    );
    assert_eq!(
        package_up_divrem_info(v, Type::I32, 0xffff_ffff, false, true),
        Some(DivRemByConstInfo::RemU32(v, 0xffff_ffff))
    );
    assert_eq!(package_up_divrem_info(v, Type::I32, 0x1_0000_0000, false, false), None);
    assert_eq!(package_up_divrem_info(v, Type::I32, -1, false, false), None);
    assert_eq!(
        package_up_divrem_info(v, Type::I64, -1, false, false),
        Some(DivRemByConstInfo::DivU64(v, u64::MAX))
    );
    assert_eq!(
        package_up_divrem_info(v, Type::I32, -5, true, false),
        Some(DivRemByConstInfo::DivS32(v, -5))
    );
    assert_eq!(
        package_up_divrem_info(v, Type::I32, -0x8000_0000, true, true),
        Some(DivRemByConstInfo::RemS32(v, i32::MIN))
    );
    assert_eq!(package_up_divrem_info(v, Type::I32, 0x8000_0000, true, false), None);
    assert_eq!(
        package_up_divrem_info(v, Type::I64, i64::MIN, true, true),
        Some(DivRemByConstInfo::RemS64(v, i64::MIN))
    );
    assert_eq!(package_up_divrem_info(v, Type::I8, 3, true, false), None);
    assert_eq!(package_up_divrem_info(v, Type::I16, 3, false, false), None);

    assert_eq!(
        get_div_info(Opcode::UdivImm, v, Imm64::new(10), Type::I32),
        Some(DivRemByConstInfo::DivU32(v, 10))
    );
    assert_eq!(
        get_div_info(Opcode::UremImm, v, Imm64::new(10), Type::I64),
        Some(DivRemByConstInfo::RemU64(v, 10))
    );
    assert_eq!(
        get_div_info(Opcode::SdivImm, v, Imm64::new(-10), Type::I64),
        Some(DivRemByConstInfo::DivS64(v, -10))
    );
    assert_eq!(
        get_div_info(Opcode::SremImm, v, Imm64::new(-10), Type::I32),
        Some(DivRemByConstInfo::RemS32(v, -10))
    );
    assert_eq!(get_div_info(Opcode::IaddImm, v, Imm64::new(10), Type::I32), None);
    assert_eq!(get_div_info(Opcode::UdivImm, v, Imm64::new(10), Type::B1), None);
}

// Magic numbers for unsigned division, as in "Hacker's Delight".
fn magic_u(d: u64, bits: u32) -> (u64, bool, i32) {
    let mask: u128 = (1u128 << bits) - 1;
    let d = d as u128;
    let two_n1: u128 = 1u128 << (bits - 1);
    let mut do_add = false;
    let mut p: i32 = bits as i32 - 1;
    let nc: u128 = mask - ((mask + 1 - d) % d);
    let mut q1 = two_n1 / nc;
    let mut r1 = two_n1 - q1 * nc;
    let mut q2 = (two_n1 - 1) / d;
    let mut r2 = (two_n1 - 1) - q2 * d;
    loop {
        p += 1;
        if r1 >= nc - r1 {
            q1 = (2 * q1 + 1) & mask;
            r1 = (2 * r1 - nc) & mask;
        } else {
            q1 = (2 * q1) & mask;
            r1 = 2 * r1;
        }
        if r2 + 1 >= d - r2 {
            if q2 >= two_n1 - 1 {
                do_add = true;
            }
            q2 = (2 * q2 + 1) & mask;
            r2 = (2 * r2 + 1 - d) & mask;
        } else {
            if q2 >= two_n1 {
                do_add = true;
            }
            q2 = (2 * q2) & mask;
            r2 = 2 * r2 + 1;
        }
        let delta = d - 1 - r2;
        if !(p < 2 * bits as i32 && (q1 < delta || (q1 == delta && r1 == 0))) {
            break;
        }
    }
    (((q2 + 1) & mask) as u64, do_add, p - bits as i32)
}

// Magic numbers for signed division, as in "Hacker's Delight".
fn magic_s(d: i64, bits: u32) -> (i64, i32) {
    let mask: u128 = (1u128 << bits) - 1;
    let two_n1: u128 = 1u128 << (bits - 1);
    let ad: u128 = (d as i128).unsigned_abs();
    let t: u128 = two_n1 + if d < 0 { 1 } else { 0 };
    let anc: u128 = t - 1 - t % ad;
    let mut p: i32 = bits as i32 - 1;
    let mut q1 = two_n1 / anc;
    let mut r1 = two_n1 - q1 * anc;
    let mut q2 = two_n1 / ad;
    let mut r2 = two_n1 - q2 * ad;
    loop {
        p += 1;
        q1 *= 2;
        r1 *= 2;
        if r1 >= anc {
            q1 += 1;
            r1 -= anc;
        }
        q2 *= 2;
        r2 *= 2;
        if r2 >= ad {
            q2 += 1;
            r2 -= ad;
        }
        let delta = ad - r2;
        if !(q1 < delta || (q1 == delta && r1 == 0)) {
            break;
        }
    }
    let m = (q2 + 1) & mask;
    let m = if d < 0 { (mask + 1 - m) & mask } else { m };
    // Read the multiplier as a signed number of `bits` bits.
    let signed = if m >= two_n1 { m as i128 - (mask as i128 + 1) } else { m as i128 };
    (signed as i64, p - bits as i32)
}

// Run a rewrite on the dividend `n`, in `bits` bits, and give the result.
fn run(rewrite: &Rewrite, n: u64, bits: u32) -> u64 {
    let mask: u64 = if bits == 64 { u64::MAX } else { (1u64 << bits) - 1 };
    let sext = |x: u64| -> i64 {
        if bits == 64 {
            x as i64
        } else {
            ((x << (64 - bits)) as i64) >> (64 - bits)
        }
    };
    let mut results: Vec<u64> = Vec::new();
    let eval = |op: &Op, results: &Vec<u64>| -> u64 {
        let get = |s: &Src| -> u64 {
            match s {
                Src::Input => n & mask,
                Src::Step(i) => results[*i],
            }
        };
        let v = match op {
            Op::Iconst(_, imm) => *imm as u64,
            Op::Copy(a) => get(a),
            Op::Umulhi(a, b) => ((get(a) as u128 * get(b) as u128) >> bits) as u64,
            Op::Smulhi(a, b) => ((sext(get(a)) as i128 * sext(get(b)) as i128) >> bits) as u64,
            Op::Iadd(a, b) => get(a).wrapping_add(get(b)),
            Op::Isub(a, b) => get(a).wrapping_sub(get(b)),
            Op::IrsubImm(a, imm) => (*imm as u64).wrapping_sub(get(a)),
            Op::ImulImm(a, imm) => get(a).wrapping_mul(*imm as u64),
            Op::BandImm(a, imm) => get(a) & (*imm as u64),
            Op::UshrImm(a, imm) => get(a) >> *imm,
            Op::SshrImm(a, imm) => (sext(get(a)) >> *imm) as u64,
        };
        v & mask
    };
    for op in rewrite.inserted.iter() {
        let v = eval(op, &results);
        results.push(v);
    }
    eval(&rewrite.replacement, &results)
}

const SAMPLES_32: [u32; 16] = [
    0, 1, 2, 3, 5, 7, 9, 100, 1000, 0x7fff_fffe, 0x7fff_ffff, 0x8000_0000, 0x8000_0001,
    0xffff_fffe, 0xffff_ffff, 0x1234_5678,
];

const SAMPLES_64: [u64; 16] = [
    0, 1, 2, 3, 5, 7, 9, 1000, 0x7fff_ffff_ffff_fffe, 0x7fff_ffff_ffff_ffff,
    0x8000_0000_0000_0000, 0x8000_0000_0000_0001, 0xffff_ffff_ffff_fffe, 0xffff_ffff_ffff_ffff,
    0x1234_5678_9abc_def0, 0xffff_ffff,
];

#[test]
fn unsigned_division_by_constants() {
    let v = Value::new(0);
    let divisors: [u32; 14] =
        [1, 2, 3, 4, 5, 6, 7, 10, 16, 641, 0x8000_0000, 0x8000_0001, 0xffff_fffe, 0xffff_ffff];
    for &d in divisors.iter() {
        let (m, add, s) = magic_u(d as u64, 32);
        let magic = Magic::U32(MU32 { mul_by: m as u32, do_add: add, shift_by: s });
        let div = do_divrem_transformation(&DivRemByConstInfo::DivU32(v, d), &magic).unwrap();
        let rem = do_divrem_transformation(&DivRemByConstInfo::RemU32(v, d), &magic).unwrap();
        for &n in SAMPLES_32.iter() {
            assert_eq!(run(&div, n as u64, 32), (n / d) as u64, "{} / {}", n, d);
            assert_eq!(run(&rem, n as u64, 32), (n % d) as u64, "{} % {}", n, d);
        }
    }
    let divisors: [u64; 10] =
        [1, 2, 3, 7, 10, 1 << 40, 0x8000_0000_0000_0000, 0x8000_0000_0000_0001, u64::MAX, 12345];
    for &d in divisors.iter() {
        let (m, add, s) = if d == 1 { (0, false, 0) } else { magic_u64(d) };
        let magic = Magic::U64(MU64 { mul_by: m, do_add: add, shift_by: s });
        let div = do_divrem_transformation(&DivRemByConstInfo::DivU64(v, d), &magic).unwrap();
        let rem = do_divrem_transformation(&DivRemByConstInfo::RemU64(v, d), &magic).unwrap();
        for &n in SAMPLES_64.iter() {
            assert_eq!(run(&div, n, 64), n / d, "{} / {}", n, d);
            assert_eq!(run(&rem, n, 64), n % d, "{} % {}", n, d);
        }
    }
}

// Magic numbers for unsigned 64-bit division.
fn magic_u64(d: u64) -> (u64, bool, i32) {
    let mut do_add = false;
    let mut p: i32 = 63;
    let nc: u64 = u64::MAX - d.wrapping_neg() % d;
    let mut q1: u64 = 0x8000_0000_0000_0000 / nc;
    let mut r1: u64 = 0x8000_0000_0000_0000 - q1 * nc;
    let mut q2: u64 = 0x7fff_ffff_ffff_ffff / d;
    let mut r2: u64 = 0x7fff_ffff_ffff_ffff - q2 * d;
    loop {
        p += 1;
        if r1 >= nc - r1 {
            q1 = q1.wrapping_mul(2).wrapping_add(1);
            r1 = r1.wrapping_mul(2).wrapping_sub(nc);
        } else {
            q1 = q1.wrapping_mul(2);
            r1 = 2 * r1;
        }
        if r2 + 1 >= d - r2 {
            if q2 >= 0x7fff_ffff_ffff_ffff {
                do_add = true;
            }
            q2 = q2.wrapping_mul(2).wrapping_add(1);
            r2 = r2.wrapping_mul(2).wrapping_add(1).wrapping_sub(d);
        } else {
            if q2 >= 0x8000_0000_0000_0000 {
                do_add = true;
            }
            q2 = q2.wrapping_mul(2);
            r2 = 2 * r2 + 1;
        }
        let delta = d - 1 - r2;
        if !(p < 128 && (q1 < delta || (q1 == delta && r1 == 0))) {
            break;
        }
    }
    (q2.wrapping_add(1), do_add, p - 64)
}

#[test]
fn signed_division_by_constants() {
    let v = Value::new(0);
    let divisors: [i32; 16] = [
        1, 2, -2, 3, -3, 4, -4, 7, -7, 10, 16, -16, 641, i32::MAX, i32::MIN, -0x4000_0000,
    ];
    for &d in divisors.iter() {
        let (m, s) = if d == 1 { (0, 0) } else { magic_s(d as i64, 32) };
        let magic = Magic::S32(MS32 { mul_by: m as i32, shift_by: s });
        let div = do_divrem_transformation(&DivRemByConstInfo::DivS32(v, d), &magic).unwrap();
        let rem = do_divrem_transformation(&DivRemByConstInfo::RemS32(v, d), &magic).unwrap();
        for &n in SAMPLES_32.iter() {
            let n = n as i32;
            assert_eq!(run(&div, n as u32 as u64, 32) as u32 as i32, n.wrapping_div(d), "{} / {}", n, d);
            assert_eq!(run(&rem, n as u32 as u64, 32) as u32 as i32, n.wrapping_rem(d), "{} % {}", n, d);
        }
    }
    let divisors: [i64; 12] =
        [1, 2, -2, 3, -3, 7, -7, 10, 1 << 40, -(1 << 40), i64::MAX, i64::MIN];
    for &d in divisors.iter() {
        let (m, s) = if d == 1 { (0, 0) } else { magic_s(d, 64) };
        let magic = Magic::S64(MS64 { mul_by: m, shift_by: s });
        let div = do_divrem_transformation(&DivRemByConstInfo::DivS64(v, d), &magic).unwrap();
        let rem = do_divrem_transformation(&DivRemByConstInfo::RemS64(v, d), &magic).unwrap();
        for &n in SAMPLES_64.iter() {
            let n = n as i64;
            assert_eq!(run(&div, n as u64, 64) as i64, n.wrapping_div(d), "{} / {}", n, d);
            assert_eq!(run(&rem, n as u64, 64) as i64, n.wrapping_rem(d), "{} % {}", n, d);
        }
    }
}

#[test]
fn division_that_stays() {
    let v = Value::new(0);
    let m32 = Magic::U32(MU32 { mul_by: 0, do_add: false, shift_by: 0 });
    let s32 = Magic::S32(MS32 { mul_by: 0, shift_by: 0 });
    let m64 = Magic::U64(MU64 { mul_by: 0, do_add: false, shift_by: 0 });
    let s64 = Magic::S64(MS64 { mul_by: 0, shift_by: 0 });
    assert!(do_divrem_transformation(&DivRemByConstInfo::DivU32(v, 0), &m32).is_none());
    assert!(do_divrem_transformation(&DivRemByConstInfo::RemU32(v, 0), &m32).is_none());
    assert!(do_divrem_transformation(&DivRemByConstInfo::DivU64(v, 0), &m64).is_none());
    assert!(do_divrem_transformation(&DivRemByConstInfo::RemU64(v, 0), &m64).is_none());
    assert!(do_divrem_transformation(&DivRemByConstInfo::DivS32(v, 0), &s32).is_none());
    assert!(do_divrem_transformation(&DivRemByConstInfo::DivS32(v, -1), &s32).is_none());
    assert!(do_divrem_transformation(&DivRemByConstInfo::RemS32(v, -1), &s32).is_none());
    assert!(do_divrem_transformation(&DivRemByConstInfo::DivS64(v, 0), &s64).is_none());
    assert!(do_divrem_transformation(&DivRemByConstInfo::RemS64(v, -1), &s64).is_none());
}

#[test]
fn rewrite_shapes() {
    let v = Value::new(0);
    let m32 = Magic::U32(MU32 { mul_by: 0, do_add: false, shift_by: 0 });
    let by_one = do_divrem_transformation(&DivRemByConstInfo::DivU32(v, 1), &m32).unwrap();
    assert!(by_one.inserted.is_empty());
    assert_eq!(by_one.replacement, Op::Copy(Src::Input));
    let rem_one = do_divrem_transformation(&DivRemByConstInfo::RemU32(v, 1), &m32).unwrap();
    assert_eq!(rem_one.replacement, Op::Iconst(Type::I32, 0));
    let by_eight = do_divrem_transformation(&DivRemByConstInfo::DivU32(v, 8), &m32).unwrap();
    assert!(by_eight.inserted.is_empty());
    assert_eq!(by_eight.replacement, Op::UshrImm(Src::Input, 3));
    let rem_eight = do_divrem_transformation(&DivRemByConstInfo::RemU32(v, 8), &m32).unwrap();
    assert_eq!(rem_eight.replacement, Op::BandImm(Src::Input, 7));
    // Division by 7 takes the addition after the multiplication.
    let magic = Magic::U32(MU32 { mul_by: 0x2492_4925, do_add: true, shift_by: 3 });
    let by_seven = do_divrem_transformation(&DivRemByConstInfo::DivU32(v, 7), &magic).unwrap();
    assert_eq!(
        by_seven.inserted,
        vec![
            Op::Iconst(Type::I32, 0x2492_4925),
            Op::Umulhi(Src::Input, Src::Step(0)),
            Op::Isub(Src::Input, Src::Step(1)),
            Op::UshrImm(Src::Step(2), 1),
            Op::Iadd(Src::Step(3), Src::Step(1)),
            Op::UshrImm(Src::Step(4), 2),
        ]
    );
    assert_eq!(by_seven.replacement, Op::Copy(Src::Step(5)));
    // Signed division by -4: shift with a bias, then negate.
    let s32 = Magic::S32(MS32 { mul_by: 0, shift_by: 0 });
    let by_minus_four = do_divrem_transformation(&DivRemByConstInfo::DivS32(v, -4), &s32).unwrap();
    assert_eq!(
        by_minus_four.inserted,
        vec![
            Op::SshrImm(Src::Input, 1),
            Op::UshrImm(Src::Step(0), 30),
            Op::Iadd(Src::Input, Src::Step(1)),
            Op::SshrImm(Src::Step(2), 2),
        ]
    );
    assert_eq!(by_minus_four.replacement, Op::IrsubImm(Src::Step(3), 0));
}

#[test]
fn simplify_instructions() {
    let a = Value::new(1);
    let b = Value::new(2);
    let c = ValueDef::Iconst(Imm64::new(5));
    let binary = |opcode, lhs_def, rhs_def| Simplifiable::Binary {
        opcode,
        lhs: a,
        rhs: b,
        lhs_def,
        rhs_def,
    };
    assert_eq!(
        simplify(&binary(Opcode::Iadd, ValueDef::Other, c)),
        Simplified::BinaryImm { opcode: Opcode::IaddImm, imm: Imm64::new(5), arg: a }
    );
    assert_eq!(
        simplify(&binary(Opcode::Isub, ValueDef::Other, c)),
        Simplified::BinaryImm { opcode: Opcode::IaddImm, imm: Imm64::new(-5), arg: a }
    );
    assert_eq!(
        simplify(&binary(Opcode::Isub, ValueDef::Other, ValueDef::Iconst(Imm64::new(i64::MIN)))),
        Simplified::BinaryImm { opcode: Opcode::IaddImm, imm: Imm64::new(i64::MIN), arg: a }
    );
    assert_eq!(
        simplify(&binary(Opcode::Urem, ValueDef::Param, c)),
        Simplified::BinaryImm { opcode: Opcode::UremImm, imm: Imm64::new(5), arg: a }
    );
    assert_eq!(
        simplify(&binary(Opcode::Sshr, c, c)),
        Simplified::BinaryImm { opcode: Opcode::SshrImm, imm: Imm64::new(5), arg: a }
    );
    // There is no form of `umulhi` with an immediate.
    assert_eq!(simplify(&binary(Opcode::Umulhi, ValueDef::Other, c)), Simplified::Unchanged);
    // A constant on the left counts only where the right is a block parameter.
    assert_eq!(
        simplify(&binary(Opcode::Isub, c, ValueDef::Param)),
        Simplified::BinaryImm { opcode: Opcode::IrsubImm, imm: Imm64::new(5), arg: b }
    );
    assert_eq!(simplify(&binary(Opcode::Isub, c, ValueDef::Other)), Simplified::Unchanged);
    assert_eq!(simplify(&binary(Opcode::Iadd, c, ValueDef::Param)), Simplified::Unchanged);
    assert_eq!(
        simplify(&Simplifiable::IntCompare { lhs: a, rhs_def: c }),
        Simplified::CompareImm { arg: a, imm: Imm64::new(5) }
    );
    assert_eq!(
        simplify(&Simplifiable::IntCompare { lhs: a, rhs_def: ValueDef::Bint(b) }),
        Simplified::Unchanged
    );
    assert_eq!(
        simplify(&Simplifiable::Conditional { condition_def: ValueDef::Bint(b) }),
        Simplified::FirstArg(b)
    );
    assert_eq!(
        simplify(&Simplifiable::Conditional { condition_def: c }),
        Simplified::Unchanged
    );
    assert_eq!(simplify(&Simplifiable::Other), Simplified::Unchanged);
}

#[test]
fn branch_on_flags_of_zero() {
    let flags = Value::new(9);
    let x = Value::new(1);
    let y = Value::new(2);
    let dest = Ebb::new(4);
    let zero = ValueDef::FlagsOfImm { arg: x, imm: Imm64::new(0) };
    let info = branch_opt(IntCC::Equal, dest, &[flags, y], &zero).unwrap();
    assert_eq!(info.kind, BranchOptKind::EqualZero);
    assert_eq!(info.cmp_arg, x);
    assert_eq!(info.destination, dest);
    assert_eq!(info.args, vec![y]);
    let info = branch_opt(IntCC::NotEqual, dest, &[flags], &zero).unwrap();
    assert_eq!(info.kind, BranchOptKind::NotEqualZero);
    assert!(info.args.is_empty());
    assert!(branch_opt(IntCC::SignedLessThan, dest, &[flags], &zero).is_none());
    let one = ValueDef::FlagsOfImm { arg: x, imm: Imm64::new(1) };
    assert!(branch_opt(IntCC::Equal, dest, &[flags], &one).is_none());
    assert!(branch_opt(IntCC::Equal, dest, &[flags], &ValueDef::Other).is_none());
}

#[test]
fn jump_and_branch_change_places() {
    let c = Value::new(1);
    let x = Value::new(2);
    let y = Value::new(3);
    let next = Ebb::new(5);
    let far = Ebb::new(9);
    let info = branch_order(far, &[y], Some(next), CondBranch::Brz, next, &[c, x]).unwrap();
    assert_eq!(info.kind, BranchOrderKind::BrzToBrnz);
    assert_eq!(info.kind.inverted_branch(), CondBranch::Brnz);
    assert_eq!(info.term_dest, far);
    assert_eq!(info.term_inst_args, vec![y]);
    assert_eq!(info.cond_arg, c);
    assert_eq!(info.cond_dest, next);
    assert_eq!(info.cond_inst_args, vec![x]);
    let info = branch_order(far, &[], Some(next), CondBranch::Brnz, next, &[c]).unwrap();
    assert_eq!(info.kind.inverted_branch(), CondBranch::Brz);
    let info = branch_order(
        far,
        &[],
        Some(next),
        CondBranch::Brif(IntCC::SignedLessThan),
        next,
        &[c],
    )
    .unwrap();
    assert_eq!(info.kind, BranchOrderKind::InvertIntCond(IntCC::SignedLessThan));
    assert_eq!(
        info.kind.inverted_branch(),
        CondBranch::Brif(IntCC::SignedGreaterThanOrEqual)
    );
    let info =
        branch_order(far, &[], Some(next), CondBranch::Brff(FloatCC::LessThan), next, &[c])
            .unwrap();
    assert_eq!(
        info.kind.inverted_branch(),
        CondBranch::Brff(FloatCC::UnorderedOrGreaterThanOrEqual)
    );
    // The jump goes to the next block: all is well as it is.
    assert!(branch_order(next, &[], Some(next), CondBranch::Brz, next, &[c]).is_none());
    // The branch does not go to the next block.
    assert!(branch_order(far, &[], Some(next), CondBranch::Brz, far, &[c]).is_none());
    // No block follows.
    assert!(branch_order(far, &[], None, CondBranch::Brz, next, &[c]).is_none());
}

#[test]
fn condition_codes_invert() {
    let ints = [
        IntCC::Equal,
        IntCC::NotEqual,
        IntCC::SignedLessThan,
        IntCC::SignedGreaterThanOrEqual,
        IntCC::SignedGreaterThan,
        IntCC::SignedLessThanOrEqual,
        IntCC::UnsignedLessThan,
        IntCC::UnsignedGreaterThanOrEqual,
        IntCC::UnsignedGreaterThan,
        IntCC::UnsignedLessThanOrEqual,
    ];
    for cc in ints.iter() {
        assert_ne!(cc.inverse(), *cc);
        assert_eq!(cc.inverse().inverse(), *cc);
    }
    assert_eq!(IntCC::UnsignedGreaterThan.inverse(), IntCC::UnsignedLessThanOrEqual);
    let floats = [
        FloatCC::Ordered,
        FloatCC::Unordered,
        FloatCC::Equal,
        FloatCC::NotEqual,
        FloatCC::OrderedNotEqual,
        FloatCC::UnorderedOrEqual,
        FloatCC::LessThan,
        FloatCC::LessThanOrEqual,
        FloatCC::GreaterThan,
        FloatCC::GreaterThanOrEqual,
        FloatCC::UnorderedOrLessThan,
        FloatCC::UnorderedOrLessThanOrEqual,
        FloatCC::UnorderedOrGreaterThan,
        FloatCC::UnorderedOrGreaterThanOrEqual,
    ];
    for cc in floats.iter() {
        assert_ne!(cc.inverse(), *cc);
        assert_eq!(cc.inverse().inverse(), *cc);
    }
    assert_eq!(FloatCC::GreaterThanOrEqual.inverse(), FloatCC::UnorderedOrLessThan);
}

#[test]
fn value_numbering_decisions() {
    let prior = cretonne::entity::Inst::new(4);
    assert!(trivially_unsafe_for_gvn(Opcode::Call));
    assert!(trivially_unsafe_for_gvn(Opcode::Brz));
    assert!(trivially_unsafe_for_gvn(Opcode::Return));
    assert!(trivially_unsafe_for_gvn(Opcode::Trapnz));
    assert!(trivially_unsafe_for_gvn(Opcode::SremImm));
    assert!(!trivially_unsafe_for_gvn(Opcode::Iadd));
    assert!(!trivially_unsafe_for_gvn(Opcode::Iconst));
    assert_eq!(gvn_action(Opcode::Udiv, Some(prior), true), GvnAction::Skip);
    assert_eq!(gvn_action(Opcode::Iadd, None, false), GvnAction::Remember);
    assert_eq!(gvn_action(Opcode::Iadd, None, true), GvnAction::Remember);
    assert_eq!(gvn_action(Opcode::Iadd, Some(prior), true), GvnAction::ReplaceWith(prior));
    assert_eq!(gvn_action(Opcode::Iadd, Some(prior), false), GvnAction::Supersede);
}
