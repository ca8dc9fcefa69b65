//! Immediate operands of instructions.
//!
//! An immediate is a constant that is encoded in the instruction itself. The
//! types here hold such constants, write them as text and read them back.

use crate::text::{hex_digit, push_hex_fixed, push_signed_decimal};
use vstd::prelude::*;
use vstd::string::{StrSliceExecFns, StringExecFns};

verus! {

/// A 64-bit immediate integer operand.
///
/// Immediates of smaller integer types are held sign-extended to 64 bits.
#[derive(Copy, Clone, PartialEq, Eq, Structural, Debug)]
pub struct Imm64(pub i64);

/// The 64 bits of `x` in two's complement, read as an unsigned number.
pub open spec fn bits_of(x: i64) -> u64 {
    if x >= 0 {
        x as u64
    } else {
        (x + 0x1_0000_0000_0000_0000) as u64
    }
}

/// The signed number whose 64 bits in two's complement are `u`.
pub open spec fn signed_of(u: u64) -> i64 {
    if u < 0x8000_0000_0000_0000 {
        u as i64
    } else {
        (u - 0x1_0000_0000_0000_0000) as i64
    }
}

/// The 64 bits of `x` in two's complement.
pub fn to_bits(x: i64) -> (r: u64)
    ensures
        r == bits_of(x),
        signed_of(r) == x,
{
    if x >= 0 {
        x as u64
    } else {
        ((x + i64::MAX) + 1) as u64 + 0x8000_0000_0000_0000u64
    }
}

/// The signed number that 64 bits stand for in two's complement.
pub fn from_bits(u: u64) -> (r: i64)
    ensures
        r == signed_of(u),
        bits_of(r) == u,
{
    if u < 0x8000_0000_0000_0000u64 {
        u as i64
    } else {
        ((u - 0x8000_0000_0000_0000u64) as i64 - i64::MAX) - 1
    }
}

/// The number of the highest group of sixteen bits of `u` that is not zero, the
/// lowest group being number 0; 0 also where `u` is zero.
pub open spec fn top_group(u: u64) -> nat {
    if u >= 0x1_0000_0000_0000 {
        3
    } else if u >= 0x1_0000_0000 {
        2
    } else if u >= 0x1_0000 {
        1
    } else {
        0
    }
}

/// Group number `k` of sixteen bits of `u`.
pub open spec fn group_value(u: u64, k: nat) -> nat {
    if k == 0 {
        (u as nat) % 0x1_0000
    } else if k == 1 {
        ((u as nat) / 0x1_0000) % 0x1_0000
    } else if k == 2 {
        ((u as nat) / 0x1_0000_0000) % 0x1_0000
    } else {
        ((u as nat) / 0x1_0000_0000_0000) % 0x1_0000
    }
}

/// The groups of `u` from number `k` down, each as four hexadecimal digits, with
/// an underscore between two groups.
pub open spec fn hex_groups_text(u: u64, k: nat) -> Seq<char>
    decreases k,
{
    if k == 0 {
        crate::text::hex_fixed_text(group_value(u, 0), 4)
    } else {
        crate::text::hex_fixed_text(group_value(u, k), 4) + seq!['_'] + hex_groups_text(
            u,
            (k - 1) as nat,
        )
    }
}

/// The text of an immediate: a small number, between -10000 and 10000, in
/// decimal, and any other as its 64 bits in hexadecimal, in groups of four digits
/// from the highest group that is not zero.
pub open spec fn imm64_text(x: i64) -> Seq<char> {
    if -10_000 < x < 10_000 {
        crate::text::signed_decimal_text(x as int)
    } else {
        "0x"@ + hex_groups_text(bits_of(x), top_group(bits_of(x)))
    }
}

/// Append the groups of `u` from number `k` down to `out`.
fn push_hex_groups(out: &mut String, u: u64, k: u8)
    requires
        k <= 3,
    ensures
        final(out)@ == old(out)@ + hex_groups_text(u, k as nat),
    decreases k,
{
    let group: u64 = if k == 0 {
        u % 0x1_0000
    } else if k == 1 {
        (u / 0x1_0000) % 0x1_0000
    } else if k == 2 {
        (u / 0x1_0000_0000) % 0x1_0000
    } else {
        (u / 0x1_0000_0000_0000) % 0x1_0000
    };
    push_hex_fixed(out, group, 4);
    if k > 0 {
        proof {
            reveal_strlit("_");
        }
        out.append("_");
        assert("_"@ =~= seq!['_']);
        push_hex_groups(out, u, k - 1);
        assert(out@ =~= old(out)@ + hex_groups_text(u, k as nat));
    }
}

impl Imm64 {
    /// Create the immediate that stands for the signed number `x`.
    pub fn new(x: i64) -> (r: Imm64)
        ensures
            r.0 == x,
    {
        Imm64(x)
    }

    /// The signed number that the immediate stands for.
    pub fn bits(self) -> (r: i64)
        ensures
            r == self.0,
    {
        self.0
    }

    /// The immediate for the negated number; the least number stays as it is.
    pub fn wrapping_neg(self) -> (r: Imm64)
        ensures
            r.0 == (if self.0 == i64::MIN {
                i64::MIN
            } else {
                (-self.0) as i64
            }),
    {
        if self.0 == i64::MIN {
            Imm64(i64::MIN)
        } else {
            Imm64(-self.0)
        }
    }

    /// Write the immediate as text.
    pub fn to_string(&self) -> (r: String)
        ensures
            r@ == imm64_text(self.0),
    {
        let x = self.0;
        let mut out = String::new();
        if -10_000 < x && x < 10_000 {
            // Small numbers are written in decimal.
            push_signed_decimal(&mut out, x);
            assert(out@ =~= imm64_text(x));
        } else {
            // Others in hexadecimal, in groups of four digits.
            let u = to_bits(x);
            let top: u8 = if u >= 0x1_0000_0000_0000 {
                3
            } else if u >= 0x1_0000_0000 {
                2
            } else if u >= 0x1_0000 {
                1
            } else {
                0
            };
            out.append("0x");
            push_hex_groups(&mut out, u, top);
            assert(out@ =~= imm64_text(x));
        }
        out
    }
}

impl std::str::FromStr for Imm64 {
    type Err = &'static str;

    /// Read an immediate from text, decimal or hexadecimal: the number that the
    /// text stands for, or why it stands for none.
    fn from_str(s: &str) -> (r: Result<Imm64, &'static str>)
        ensures
            reads_as(r, s@),
    {
        Imm64::from_str(s)
    }
}

impl From<i64> for Imm64 {
    fn from(x: i64) -> (r: Imm64) {
        Imm64(x)
    }
}

impl vstd::std_specs::convert::FromSpecImpl<i64> for Imm64 {
    open spec fn obeys_from_spec() -> bool {
        true
    }

    open spec fn from_spec(x: i64) -> Imm64 {
        Imm64(x)
    }
}

impl From<Imm64> for i64 {
    fn from(x: Imm64) -> (r: i64) {
        x.0
    }
}

impl vstd::std_specs::convert::FromSpecImpl<Imm64> for i64 {
    open spec fn obeys_from_spec() -> bool {
        true
    }

    open spec fn from_spec(x: Imm64) -> i64 {
        x.0
    }
}

/// What has been read of a number: its value so far, and how many digits were seen.
pub struct Scan {
    /// The value of the digits read so far.
    pub value: u64,
    /// The number of digits read so far.
    pub digits: nat,
}

/// Reading the digits of a hexadecimal number, first to last: each digit moves
/// the value up by four bits, an underscore is passed over, and there may be
/// sixteen digits at most.
pub open spec fn scan_hex(text: Seq<char>) -> Result<Scan, Seq<char>>
    decreases text.len(),
{
    if text.len() == 0 {
        Ok(Scan { value: 0, digits: 0 })
    } else {
        match scan_hex(text.drop_last()) {
            Err(e) => Err(e),
            Ok(scan) => match crate::text::hex_digit_value(text.last()) {
                Some(d) => if scan.digits >= 16 {
                    Err("Too many hexadecimal digits in Imm64"@)
                } else {
                    Ok(Scan { value: (scan.value * 16 + d) as u64, digits: scan.digits + 1 })
                },
                None => if text.last() == '_' {
                    Ok(scan)
                } else {
                    Err("Invalid character in hexadecimal Imm64"@)
                },
            },
        }
    }
}

/// Reading the digits of a decimal number, first to last: each digit moves the
/// value up by a factor of ten, an underscore is passed over, and the value has
/// to stay below two to the power of 64. The letters `a` to `f`, in either case,
/// are taken as digits that stand for ten to fifteen.
pub open spec fn scan_decimal(text: Seq<char>) -> Result<Scan, Seq<char>>
    decreases text.len(),
{
    if text.len() == 0 {
        Ok(Scan { value: 0, digits: 0 })
    } else {
        match scan_decimal(text.drop_last()) {
            Err(e) => Err(e),
            Ok(scan) => match crate::text::hex_digit_value(text.last()) {
                Some(d) => if scan.value as nat * 10 + d as nat > u64::MAX {
                    Err("Too large decimal Imm64"@)
                } else {
                    Ok(
                        Scan {
                            value: (scan.value as nat * 10 + d as nat) as u64,
                            digits: scan.digits + 1,
                        },
                    )
                },
                None => if text.last() == '_' {
                    Ok(scan)
                } else {
                    Err("Invalid character in decimal Imm64"@)
                },
            },
        }
    }
}

/// Does `text` begin with the two characters `0x`?
pub open spec fn has_hex_prefix(text: Seq<char>) -> bool {
    text.len() >= 2 && text[0] == '0' && text[1] == 'x'
}

/// The digits of a number that may have a minus sign in front.
pub open spec fn after_sign(text: Seq<char>) -> Seq<char> {
    if text.len() > 0 && text[0] == '-' {
        text.drop_first()
    } else {
        text
    }
}

/// The number that a text stands for, or why it stands for none.
///
/// A number is written in decimal, or in hexadecimal after `0x`, with a minus
/// sign in front or without one, and with underscores among the digits where the
/// writer likes. Numbers from minus two to the power of 63 up to two to the power
/// of 64 less one can be written: those from two to the power of 63 on stand for
/// the negative number with the same 64 bits.
pub open spec fn imm64_of_text(text: Seq<char>) -> Result<i64, Seq<char>> {
    let negative = text.len() > 0 && text[0] == '-';
    let body = after_sign(text);
    let scanned = if has_hex_prefix(body) {
        scan_hex(body.subrange(2, body.len() as int))
    } else {
        scan_decimal(body)
    };
    match scanned {
        Err(e) => Err(e),
        Ok(scan) => if scan.digits == 0 {
            Err("No digits in Imm64"@)
        } else if negative {
            if scan.value > 0x8000_0000_0000_0000 {
                Err("Negative number too small for Imm64"@)
            } else {
                Ok((-(scan.value as int)) as i64)
            }
        } else {
            Ok(signed_of(scan.value))
        },
    }
}

/// Does the result of reading a number say what the text stands for?
pub open spec fn reads_as(r: Result<Imm64, &'static str>, text: Seq<char>) -> bool {
    match imm64_of_text(text) {
        Ok(x) => r == Ok::<Imm64, &'static str>(Imm64(x)),
        Err(e) => r is Err && r->Err_0@ == e,
    }
}

impl Imm64 {
    /// Read an immediate from text, decimal or hexadecimal.
    pub fn from_str(s: &str) -> (r: Result<Imm64, &'static str>)
        ensures
            reads_as(r, s@),
    {
        let n = s.unicode_len();
        let negative = n > 0 && s.get_char(0) == '-';
        let start: usize = if negative {
            1
        } else {
            0
        };
        let ghost body = after_sign(s@);
        assert(body =~= s@.subrange(start as int, n as int));
        let hex = n - start >= 2 && s.get_char(start) == '0' && s.get_char(start + 1) == 'x';
        assert(hex == has_hex_prefix(body));
        let mut value: u64 = 0;
        let mut digits: usize = 0;
        if hex {
            let first = start + 2;
            let ghost text = body.subrange(2, body.len() as int);
            assert(text =~= s@.subrange(first as int, n as int));
            let mut i: usize = first;
            assert(text.subrange(0, 0) =~= Seq::<char>::empty());
            while i < n
                invariant
                    first <= i <= n,
                    n == s@.len(),
                    text == s@.subrange(first as int, n as int),
                    text == body.subrange(2, body.len() as int),
                    body == after_sign(s@),
                    has_hex_prefix(body),
                    scan_hex(text.subrange(0, i - first)) == Ok::<Scan, Seq<char>>(
                        Scan { value, digits: digits as nat },
                    ),
                    digits <= 16,
                    value < hex_limit(digits as nat),
                decreases n - i,
            {
                let ch = s.get_char(i);
                let ghost prefix = text.subrange(0, i - first + 1);
                assert(prefix.drop_last() =~= text.subrange(0, i - first));
                assert(prefix.last() == ch);
                match hex_digit(ch) {
                    Some(digit) => {
                        if digits >= 16 {
                            proof {
                                lemma_scan_hex_fails(text, i - first + 1);
                            }
                            return Err("Too many hexadecimal digits in Imm64");
                        }
                        proof {
                            lemma_hex_limit(digits as nat);
                            lemma_shift_in(value, digit);
                        }
                        digits += 1;
                        value = (value << 4) | (digit as u64);
                    },
                    None => {
                        // Underscores may stand among the digits, nothing else.
                        if ch != '_' {
                            proof {
                                lemma_scan_hex_fails(text, i - first + 1);
                            }
                            return Err("Invalid character in hexadecimal Imm64");
                        }
                    },
                }
                i += 1;
            }
            assert(text.subrange(0, n - first) =~= text);
        } else {
            let ghost text = body;
            let mut i: usize = start;
            assert(text.subrange(0, 0) =~= Seq::<char>::empty());
            while i < n
                invariant
                    start <= i <= n,
                    n == s@.len(),
                    text == s@.subrange(start as int, n as int),
                    text == after_sign(s@),
                    !has_hex_prefix(text),
                    scan_decimal(text.subrange(0, i - start)) == Ok::<Scan, Seq<char>>(
                        Scan { value, digits: digits as nat },
                    ),
                    digits <= i - start,
                decreases n - i,
            {
                let ch = s.get_char(i);
                let ghost prefix = text.subrange(0, i - start + 1);
                assert(prefix.drop_last() =~= text.subrange(0, i - start));
                assert(prefix.last() == ch);
                match hex_digit(ch) {
                    Some(digit) => {
                        let scaled = match value.checked_mul(10) {
                            None => {
                                proof {
                                    lemma_scan_decimal_fails(text, i - start + 1);
                                }
                                return Err("Too large decimal Imm64");
                            },
                            Some(v) => v,
                        };
                        match scaled.checked_add(digit as u64) {
                            None => {
                                proof {
                                    lemma_scan_decimal_fails(text, i - start + 1);
                                }
                                return Err("Too large decimal Imm64");
                            },
                            Some(v) => {
                                value = v;
                            },
                        }
                        digits += 1;
                    },
                    None => {
                        if ch != '_' {
                            proof {
                                lemma_scan_decimal_fails(text, i - start + 1);
                            }
                            return Err("Invalid character in decimal Imm64");
                        }
                    },
                }
                i += 1;
            }
            assert(text.subrange(0, n - start) =~= text);
        }
        if digits == 0 {
            return Err("No digits in Imm64");
        }
        // The range is from minus two to the power of 63 up to two to the power
        // of 64 less one.
        if negative {
            if value > 0x8000_0000_0000_0000u64 {
                return Err("Negative number too small for Imm64");
            }
            if value == 0x8000_0000_0000_0000u64 {
                Ok(Imm64::new(i64::MIN))
            } else {
                Ok(Imm64::new(-(value as i64)))
            }
        } else {
            Ok(Imm64::new(from_bits(value)))
        }
    }
}

/// Once reading a hexadecimal number has failed, it fails in the same way on
/// every longer text.
proof fn lemma_scan_hex_fails(text: Seq<char>, k: int)
    requires
        0 <= k <= text.len(),
        scan_hex(text.subrange(0, k)) is Err,
    ensures
        scan_hex(text) == scan_hex(text.subrange(0, k)),
    decreases text.len() - k,
{
    if k == text.len() {
        assert(text.subrange(0, k) =~= text);
    } else {
        assert(text.drop_last().subrange(0, k) =~= text.subrange(0, k));
        lemma_scan_hex_fails(text.drop_last(), k);
    }
}

/// Once reading a decimal number has failed, it fails in the same way on every
/// longer text.
proof fn lemma_scan_decimal_fails(text: Seq<char>, k: int)
    requires
        0 <= k <= text.len(),
        scan_decimal(text.subrange(0, k)) is Err,
    ensures
        scan_decimal(text) == scan_decimal(text.subrange(0, k)),
    decreases text.len() - k,
{
    if k == text.len() {
        assert(text.subrange(0, k) =~= text);
    } else {
        assert(text.drop_last().subrange(0, k) =~= text.subrange(0, k));
        lemma_scan_decimal_fails(text.drop_last(), k);
    }
}

/// Sixteen to the power of `digits`: the least number that takes more than
/// `digits` hexadecimal digits.
pub open spec fn hex_limit(digits: nat) -> nat
    decreases digits,
{
    if digits == 0 {
        1
    } else {
        16 * hex_limit((digits - 1) as nat)
    }
}

/// Up to fifteen hexadecimal digits leave the four highest bits of 64 clear.
proof fn lemma_hex_limit(digits: nat)
    requires
        digits <= 15,
    ensures
        hex_limit(digits) <= 0x1000_0000_0000_0000,
{
    assert(hex_limit(15) == 0x1000_0000_0000_0000) by {
        reveal_with_fuel(hex_limit, 16);
    }
    lemma_hex_limit_grows(digits, 15);
}

/// More digits have a higher limit.
proof fn lemma_hex_limit_grows(a: nat, b: nat)
    requires
        a <= b,
    ensures
        hex_limit(a) <= hex_limit(b),
    decreases b,
{
    if a < b {
        lemma_hex_limit_grows(a, (b - 1) as nat);
    }
}

/// Moving a value up by four bits and putting a digit in the space is
/// multiplying by sixteen and adding the digit, as long as the four highest bits
/// are clear.
proof fn lemma_shift_in(value: u64, digit: u32)
    requires
        digit < 16,
        value < 0x1000_0000_0000_0000,
    ensures
        (value << 4) | (digit as u64) == value * 16 + digit,
{
    let d = digit as u64;
    assert((value << 4) | d == value * 16 + d) by (bit_vector)
        requires
            d < 16,
            value < 0x1000_0000_0000_0000,
    ;
}

/// A binary floating point format: `w` bits of exponent and `t` bits of trailing
/// significand under one sign bit.
///
/// Is it one that fits in 64 bits and can be written and read here: an exponent
/// of one to sixteen bits, a significand of at least one bit, and a power of two
/// for the number of bits in all?
pub open spec fn is_float_format(w: u8, t: u8) -> bool {
    &&& 0 < w <= 16
    &&& 0 < t
    &&& (1 + w + t == 8 || 1 + w + t == 16 || 1 + w + t == 32 || 1 + w + t == 64)
}

/// The trailing significand of a floating point number: its lowest `t` bits.
pub open spec fn float_significand(bits: u64, t: u8) -> u64 {
    bits & (((1u64 << t) - 1) as u64)
}

/// The biased exponent of a floating point number: the `w` bits above the
/// trailing significand.
pub open spec fn float_exponent(bits: u64, w: u8, t: u8) -> u64 {
    (bits >> t) & (((1u64 << w) - 1) as u64)
}

/// Is the sign bit of a floating point number set?
pub open spec fn float_is_negative(bits: u64, w: u8, t: u8) -> bool {
    (bits >> ((w + t) as u8)) & 1 != 0
}

/// The bias of the exponent: two to the power of `w - 1`, less one.
pub open spec fn float_bias(w: u8) -> int {
    ((1u32 << ((w - 1) as u8)) - 1) as int
}

/// The number of hexadecimal digits that hold the trailing significand.
pub open spec fn float_digits(t: u8) -> nat {
    ((t + 3) / 4) as nat
}

/// The trailing significand moved up so that it fills its hexadecimal digits
/// from the left.
pub open spec fn float_left_significand(bits: u64, t: u8) -> u64 {
    float_significand(bits, t) << ((4 * float_digits(t) - t) as u8)
}

/// The payload of a NaN: the trailing significand without its highest bit.
pub open spec fn float_payload(bits: u64, t: u8) -> u64 {
    float_significand(bits, t) & (((1u64 << ((t - 1) as u8)) - 1) as u64)
}

/// Is the NaN a quiet one: is the highest bit of its trailing significand set?
pub open spec fn float_is_quiet(bits: u64, t: u8) -> bool {
    float_significand(bits, t) & (1u64 << ((t - 1) as u8)) != 0
}

/// The text of a floating point number without its sign.
///
/// Zero is `0.0`. A normal number is `0x1.`, the trailing significand in
/// hexadecimal, `p` and the exponent in decimal; a subnormal number the same
/// with `0x0.` and the least exponent. Infinity is `Inf`. A quiet NaN is `NaN`,
/// followed by `:0x` and its payload in hexadecimal where that is not zero, and
/// a signaling NaN is `sNaN:0x` and its payload.
pub open spec fn float_magnitude_text(bits: u64, w: u8, t: u8) -> Seq<char> {
    let e_bits = float_exponent(bits, w, t);
    let t_bits = float_significand(bits, t);
    let fraction = crate::text::hex_fixed_text(
        float_left_significand(bits, t) as nat,
        float_digits(t),
    );
    if e_bits == 0 {
        if t_bits == 0 {
            "0.0"@
        } else {
            "0x0."@ + fraction + "p"@ + crate::text::signed_decimal_text(1 - float_bias(w))
        }
    } else if e_bits == ((1u64 << w) - 1) as u64 {
        if t_bits == 0 {
            "Inf"@
        } else if float_is_quiet(bits, t) {
            if float_payload(bits, t) != 0 {
                "NaN:0x"@ + crate::text::hex_text(float_payload(bits, t) as nat)
            } else {
                "NaN"@
            }
        } else {
            "sNaN:0x"@ + crate::text::hex_text(float_payload(bits, t) as nat)
        }
    } else {
        "0x1."@ + fraction + "p"@ + crate::text::signed_decimal_text(e_bits - float_bias(w))
    }
}

/// The text of a floating point number: a minus sign where the sign bit is set,
/// then the magnitude.
pub open spec fn float_text(bits: u64, w: u8, t: u8) -> Seq<char> {
    if float_is_negative(bits, w, t) {
        "-"@ + float_magnitude_text(bits, w, t)
    } else {
        float_magnitude_text(bits, w, t)
    }
}

/// Write a floating point number in a way that reads well and that can be read
/// back without rounding. Normal and subnormal numbers are written in the
/// hexadecimal form of C99.
///
/// `w` is the width of the exponent in bits, and `t` that of the trailing
/// significand.
#[verifier::rlimit(40)]
pub fn format_float(bits: u64, w: u8, t: u8) -> (r: String)
    requires
        is_float_format(w, t),
    ensures
        r@ == float_text(bits, w, t),
{
    proof {
        lemma_float_fields(bits, w, t);
    }
    let max_e_bits: u64 = (1u64 << w) - 1;
    let t_bits: u64 = bits & ((1u64 << t) - 1);
    let e_bits: u64 = (bits >> t) & max_e_bits;
    let sign_bit: u64 = (bits >> (w + t)) & 1;
    let bias: i32 = ((1u32 << (w - 1)) - 1) as i32;
    let e: i32 = e_bits as i32 - bias;
    let emin: i32 = 1 - bias;
    // The number of hexadecimal digits of the trailing significand, and the
    // significand moved to the left of them.
    let digits: u8 = (t + 3) / 4;
    let left_t_bits: u64 = t_bits << (4 * digits - t);
    let mut out = String::new();
    if sign_bit != 0 {
        out.append("-");
    }
    let ghost sign = out@;
    if e_bits == 0 {
        if t_bits == 0 {
            out.append("0.0");
        } else {
            out.append("0x0.");
            push_hex_fixed(&mut out, left_t_bits, digits);
            out.append("p");
            push_signed_decimal(&mut out, emin as i64);
        }
    } else if e_bits == max_e_bits {
        if t_bits == 0 {
            out.append("Inf");
        } else {
            let payload: u64 = t_bits & ((1u64 << (t - 1)) - 1);
            if t_bits & (1u64 << (t - 1)) != 0 {
                if payload != 0 {
                    out.append("NaN:0x");
                    crate::text::push_hex(&mut out, payload);
                } else {
                    out.append("NaN");
                }
            } else {
                out.append("sNaN:0x");
                crate::text::push_hex(&mut out, payload);
            }
        }
    } else {
        out.append("0x1.");
        push_hex_fixed(&mut out, left_t_bits, digits);
        out.append("p");
        push_signed_decimal(&mut out, e as i64);
    }
    assert(out@ =~= sign + float_magnitude_text(bits, w, t));
    proof {
        assert(Seq::<char>::empty() + float_magnitude_text(bits, w, t) =~= float_magnitude_text(
            bits,
            w,
            t,
        ));
    }
    out
}

/// The fields of a floating point number are as small as their widths say.
proof fn lemma_float_fields(bits: u64, w: u8, t: u8)
    requires
        is_float_format(w, t),
    ensures
        1 <= (1u64 << w) <= 0x1_0000,
        1 <= (1u64 << t),
        1 <= (1u64 << ((t - 1) as u8)),
        1 <= (1u32 << ((w - 1) as u8)) <= 0x8000,
        2 <= (1u32 << w) <= 0x1_0000,
        float_exponent(bits, w, t) <= 0xffff,
{
    assert(2 <= (1u32 << w) <= 0x1_0000) by (bit_vector)
        requires
            0 < w <= 16,
    ;
    assert(1 <= (1u64 << w) <= 0x1_0000) by (bit_vector)
        requires
            0 < w <= 16,
    ;
    assert(1 <= (1u64 << t)) by (bit_vector)
        requires
            t < 64,
    ;
    let t1 = (t - 1) as u8;
    assert(1 <= (1u64 << t1)) by (bit_vector)
        requires
            t1 < 64,
    ;
    let w1 = (w - 1) as u8;
    assert(1 <= (1u32 << w1) <= 0x8000) by (bit_vector)
        requires
            w1 < 16,
    ;
    let m = ((1u64 << w) - 1) as u64;
    let x = bits >> t;
    assert(x & m <= m) by (bit_vector);
}

/// What has been read of a hexadecimal floating point number.
pub struct FloatScan {
    /// The number of digits read so far.
    pub digits: nat,
    /// The number of digits that came before the radix point, once it was met.
    pub before_point: Option<nat>,
    /// The digits read so far, as one number.
    pub significand: u64,
    /// The exponent that was written after `p`; 0 if none was.
    pub exponent: int,
    /// Was the exponent met? It ends the number.
    pub done: bool,
}

/// Reading the first `k` characters of the digits of a hexadecimal floating
/// point number: digits with at most one radix point among them, sixteen
/// digits at most, and then perhaps `p` and an exponent in decimal, which
/// takes up the rest of the text.
pub open spec fn scan_float(text: Seq<char>, k: nat) -> Result<FloatScan, Seq<char>>
    decreases k,
{
    if k == 0 {
        Ok(
            FloatScan {
                digits: 0,
                before_point: None,
                significand: 0,
                exponent: 0,
                done: false,
            },
        )
    } else {
        match scan_float(text, (k - 1) as nat) {
            Err(e) => Err(e),
            Ok(scan) => {
                let ch = text[k - 1];
                if scan.done {
                    Ok(scan)
                } else if ch == '.' {
                    if scan.before_point is Some {
                        Err("Multiple radix points"@)
                    } else {
                        Ok(FloatScan { before_point: Some(scan.digits), ..scan })
                    }
                } else if ch == 'p' {
                    match crate::text::i16_number(text.subrange(k as int, text.len() as int)) {
                        Some(e) => Ok(FloatScan { exponent: e as int, done: true, ..scan }),
                        None => Err("Bad exponent"@),
                    }
                } else {
                    match crate::text::hex_digit_value(ch) {
                        Some(d) => if scan.digits >= 16 {
                            Err("Too many digits"@)
                        } else {
                            Ok(
                                FloatScan {
                                    digits: scan.digits + 1,
                                    significand: (scan.significand * 16 + d) as u64,
                                    ..scan
                                },
                            )
                        },
                        None => Err("Invalid character"@),
                    }
                }
            },
        }
    }
}

/// The number of bits that `m` takes: one more than the number of its highest
/// bit that is set, and 0 for zero.
pub open spec fn bit_length(m: u64) -> int {
    64 - vstd::std_specs::bits::u64_leading_zeros(m)
}

/// The bits of the floating point number with the significand `significand`,
/// which is not zero, and the exponent `exponent`, or why it has none.
///
/// The significand is moved so that its highest bit stands just above the
/// trailing significand, which must not lose a bit that is set, and the exponent
/// is changed to make up for it. An exponent in the range of the format gives a
/// normal number. One that is below it gives a subnormal number where the
/// significand can be moved down further without loss of a bit.
pub open spec fn float_from_parts(
    significand: u64,
    exponent: int,
    sign_bit: u64,
    w: u8,
    t: u8,
) -> Result<u64, Seq<char>> {
    let bits = bit_length(significand);
    let lost = bits - (t + 1);
    if lost > 0 && significand & (((1u64 << (lost as u8)) - 1) as u64) != 0 {
        Err("Too many significant bits"@)
    } else {
        let normal: u64 = if lost > 0 {
            significand >> (lost as u8)
        } else {
            significand << ((-lost) as u8)
        };
        let biased = exponent + lost + float_bias(w) + t;
        let t_bits = normal & (((1u64 << t) - 1) as u64);
        if biased > ((1u32 << w) - 2) {
            Err("Magnitude too large"@)
        } else if biased > 0 {
            Ok(sign_bit | ((biased as u64) << t) | t_bits)
        } else if 1 - biased <= t {
            if normal & (((1u64 << ((1 - biased) as u8)) - 1) as u64) != 0 {
                Err("Subnormal underflow"@)
            } else {
                Ok(sign_bit | (normal >> ((1 - biased) as u8)))
            }
        } else {
            Err("Magnitude too small"@)
        }
    }
}

/// The bits of a floating point number that is written in hexadecimal, given
/// what was read of it.
pub open spec fn float_from_scan(scan: FloatScan, sign_bit: u64, w: u8, t: u8) -> Result<
    u64,
    Seq<char>,
> {
    if scan.digits == 0 {
        Err("No digits"@)
    } else if scan.significand == 0 {
        Ok(sign_bit)
    } else {
        let exponent = match scan.before_point {
            None => scan.exponent,
            Some(d) => scan.exponent - 4 * (scan.digits - d),
        };
        float_from_parts(scan.significand, exponent, sign_bit, w, t)
    }
}

/// The bits of a floating point number that is written by name, without `0x`:
/// `0.0`, `Inf`, `NaN`, or a NaN with its payload in hexadecimal. The payload
/// has to fit under the quiet bit, and that of a signaling NaN is not zero.
pub open spec fn float_from_name(body: Seq<char>, sign_bit: u64, w: u8, t: u8) -> Result<
    u64,
    Seq<char>,
> {
    let max_e_bits: u64 = (((1u64 << w) - 1) as u64) << t;
    let quiet_bit: u64 = 1u64 << ((t - 1) as u8);
    if body == "0.0"@ {
        Ok(sign_bit)
    } else if body == "Inf"@ {
        Ok(sign_bit | max_e_bits)
    } else if body == "NaN"@ {
        Ok(sign_bit | max_e_bits | quiet_bit)
    } else if "NaN:0x"@.is_prefix_of(body) {
        match crate::text::hex_number(body.subrange(6, body.len() as int)) {
            Some(payload) => if payload < quiet_bit {
                Ok(sign_bit | max_e_bits | quiet_bit | payload)
            } else {
                Err("Invalid NaN payload"@)
            },
            None => Err("Invalid NaN payload"@),
        }
    } else if "sNaN:0x"@.is_prefix_of(body) {
        match crate::text::hex_number(body.subrange(7, body.len() as int)) {
            Some(payload) => if 0 < payload < quiet_bit {
                Ok(sign_bit | max_e_bits | payload)
            } else {
                Err("Invalid sNaN payload"@)
            },
            None => Err("Invalid sNaN payload"@),
        }
    } else {
        Err("Float must be hexadecimal"@)
    }
}

/// The bits of the floating point number that a text stands for, or why it
/// stands for none. The text is what `float_text` writes, and more: a number in
/// hexadecimal may have digits before the radix point, or no radix point and no
/// exponent at all.
pub open spec fn float_of_text(text: Seq<char>, w: u8, t: u8) -> Result<u64, Seq<char>> {
    let negative = text.len() > 0 && text[0] == '-';
    let sign_bit: u64 = if negative {
        1u64 << ((t + w) as u8)
    } else {
        0
    };
    let body = after_sign(text);
    if !has_hex_prefix(body) {
        float_from_name(body, sign_bit, w, t)
    } else {
        let digits = body.subrange(2, body.len() as int);
        match scan_float(digits, digits.len()) {
            Err(e) => Err(e),
            Ok(scan) => float_from_scan(scan, sign_bit, w, t),
        }
    }
}

/// Does the result of reading a floating point number say what the text stands for?
pub open spec fn reads_as_float(r: Result<u64, &'static str>, text: Seq<char>, w: u8, t: u8) -> bool {
    match float_of_text(text, w, t) {
        Ok(bits) => r == Ok::<u64, &'static str>(bits),
        Err(e) => r is Err && r->Err_0@ == e,
    }
}

/// Does the result of one step of reading say what the step gives?
pub open spec fn agrees(r: Result<u64, &'static str>, want: Result<u64, Seq<char>>) -> bool {
    match want {
        Ok(bits) => r == Ok::<u64, &'static str>(bits),
        Err(e) => r is Err && r->Err_0@ == e,
    }
}

/// Put a floating point number together from a significand that is not zero
/// and an exponent.
#[verifier::rlimit(40)]
fn float_of_parts(significand: u64, exponent: i32, sign_bit: u64, w: u8, t: u8) -> (r: Result<
    u64,
    &'static str,
>)
    requires
        is_float_format(w, t),
        significand != 0,
        -40_000 <= exponent <= 40_000,
    ensures
        agrees(r, float_from_parts(significand, exponent as int, sign_bit, w, t)),
{
    proof {
        lemma_float_fields(0, w, t);
        vstd::std_specs::bits::axiom_u64_leading_zeros(significand);
    }
    let mut significand = significand;
    let mut exponent = exponent;
    // Move the significand so that its highest bit stands just above the
    // trailing significand.
    let significant_bits: u8 = (64 - significand.leading_zeros()) as u8;
    if significant_bits > t + 1 {
        let adjust: u8 = significant_bits - (t + 1);
        proof {
            lemma_shift_bounds(adjust);
        }
        if significand & ((1u64 << adjust) - 1) != 0 {
            return Err("Too many significant bits");
        }
        significand = significand >> adjust;
        exponent = exponent + adjust as i32;
    } else {
        let adjust: u8 = t + 1 - significant_bits;
        significand = significand << adjust;
        exponent = exponent - adjust as i32;
    }
    // The trailing significand leaves out the highest bit.
    let t_bits: u64 = significand & ((1u64 << t) - 1);
    let max_exp: i32 = ((1u32 << w) - 2) as i32;
    let bias: i32 = ((1u32 << (w - 1)) - 1) as i32;
    exponent = exponent + bias + t as i32;
    if exponent > max_exp {
        Err("Magnitude too large")
    } else if exponent > 0 {
        // A normal number.
        let e_bits: u64 = (exponent as u64) << t;
        Ok(sign_bit | e_bits | t_bits)
    } else if 1 - exponent <= t as i32 {
        // A subnormal number: the exponent field is zero, and the significand
        // is moved down to the least exponent.
        let adjust: u8 = (1 - exponent) as u8;
        proof {
            lemma_shift_bounds(adjust);
        }
        if significand & ((1u64 << adjust) - 1) != 0 {
            Err("Subnormal underflow")
        } else {
            Ok(sign_bit | (significand >> adjust))
        }
    } else {
        Err("Magnitude too small")
    }
}

/// A bit below the highest is at least one.
proof fn lemma_shift_bounds(k: u8)
    requires
        k < 64,
    ensures
        1 <= (1u64 << k),
{
    assert(1 <= (1u64 << k)) by (bit_vector)
        requires
            k < 64,
    ;
}

/// Read a floating point number that is written by name, without `0x`; `from` is
/// where the name begins in `s`, after the sign.
#[verifier::rlimit(40)]
fn float_of_name(s: &str, from: usize, sign_bit: u64, w: u8, t: u8) -> (r: Result<
    u64,
    &'static str,
>)
    requires
        is_float_format(w, t),
        from <= s@.len(),
    ensures
        agrees(
            r,
            float_from_name(s@.subrange(from as int, s@.len() as int), sign_bit, w, t),
        ),
{
    proof {
        lemma_float_fields(0, w, t);
        reveal_strlit("0.0");
        reveal_strlit("Inf");
        reveal_strlit("NaN");
        reveal_strlit("NaN:0x");
        reveal_strlit("sNaN:0x");
    }
    let n = s.unicode_len();
    let ghost body = s@.subrange(from as int, n as int);
    let max_e_bits: u64 = ((1u64 << w) - 1) << t;
    let quiet_bit: u64 = 1u64 << (t - 1);
    let len = n - from;
    // The only number that may be written in decimal is 0.
    let zero = len == 3 && crate::text::starts_with_from(s, from, "0.0");
    assert(zero == (body == "0.0"@)) by {
        if body == "0.0"@ {
            assert("0.0"@.is_prefix_of(body));
        }
        if zero {
            assert(body =~= "0.0"@);
        }
    }
    if zero {
        return Ok(sign_bit);
    }
    let inf = len == 3 && crate::text::starts_with_from(s, from, "Inf");
    assert(inf == (body == "Inf"@)) by {
        if body == "Inf"@ {
            assert("Inf"@.is_prefix_of(body));
        }
        if inf {
            assert(body =~= "Inf"@);
        }
    }
    if inf {
        // Infinity: the greatest exponent, and no significand.
        return Ok(sign_bit | max_e_bits);
    }
    let nan = len == 3 && crate::text::starts_with_from(s, from, "NaN");
    assert(nan == (body == "NaN"@)) by {
        if body == "NaN"@ {
            assert("NaN"@.is_prefix_of(body));
        }
        if nan {
            assert(body =~= "NaN"@);
        }
    }
    if nan {
        // The quiet NaN without payload.
        return Ok(sign_bit | max_e_bits | quiet_bit);
    }
    if crate::text::starts_with_from(s, from, "NaN:0x") {
        // A quiet NaN with payload.
        assert(body.subrange(6, body.len() as int) =~= s@.subrange(from + 6, n as int));
        return match crate::text::parse_hex_u64(s, from + 6) {
            Some(payload) => {
                if payload < quiet_bit {
                    Ok(sign_bit | max_e_bits | quiet_bit | payload)
                } else {
                    Err("Invalid NaN payload")
                }
            },
            None => Err("Invalid NaN payload"),
        };
    }
    if crate::text::starts_with_from(s, from, "sNaN:0x") {
        // A signaling NaN with payload.
        assert(body.subrange(7, body.len() as int) =~= s@.subrange(from + 7, n as int));
        return match crate::text::parse_hex_u64(s, from + 7) {
            Some(payload) => {
                if 0 < payload && payload < quiet_bit {
                    Ok(sign_bit | max_e_bits | payload)
                } else {
                    Err("Invalid sNaN payload")
                }
            },
            None => Err("Invalid sNaN payload"),
        };
    }
    Err("Float must be hexadecimal")
}

/// Once the exponent was met or reading has failed, the rest of the text
/// changes nothing.
proof fn lemma_scan_float_settled(text: Seq<char>, k: nat, m: nat)
    requires
        k <= m,
        scan_float(text, k) is Err || scan_float(text, k)->Ok_0.done,
    ensures
        scan_float(text, m) == scan_float(text, k),
    decreases m,
{
    if k < m {
        lemma_scan_float_settled(text, k, (m - 1) as nat);
    }
}

/// Read a floating point number in the form that `format_float` writes.
///
/// `w` is the width of the exponent in bits, and `t` that of the trailing
/// significand. The bits of the number are returned.
#[verifier::rlimit(40)]
pub fn parse_float(s: &str, w: u8, t: u8) -> (r: Result<u64, &'static str>)
    requires
        is_float_format(w, t),
    ensures
        reads_as_float(r, s@, w, t),
{
    let n = s.unicode_len();
    let negative = n > 0 && s.get_char(0) == '-';
    let (sign_bit, start): (u64, usize) = if negative {
        (1u64 << (t + w), 1)
    } else {
        (0, 0)
    };
    let ghost body = after_sign(s@);
    assert(body =~= s@.subrange(start as int, n as int));
    let hex = n - start >= 2 && s.get_char(start) == '0' && s.get_char(start + 1) == 'x';
    assert(hex == has_hex_prefix(body));
    if !hex {
        return float_of_name(s, start, sign_bit, w, t);
    }
    let first = start + 2;
    let ghost text = body.subrange(2, body.len() as int);
    assert(text =~= s@.subrange(first as int, n as int));
    let mut digits: u8 = 0;
    let mut digits_before_period: Option<u8> = None;
    let mut significand: u64 = 0;
    let mut exponent: i32 = 0;
    let mut done = false;
    let mut i: usize = first;
    while i < n && !done
        invariant
            first <= i <= n,
            n == s@.len(),
            text == s@.subrange(first as int, n as int),
            text == body.subrange(2, body.len() as int),
            body == after_sign(s@),
            has_hex_prefix(body),
            digits <= 16,
            significand < hex_limit(digits as nat),
            -32768 <= exponent <= 32767,
            digits_before_period is Some ==> digits_before_period.unwrap() <= digits,
            scan_float(text, (i - first) as nat) == Ok::<FloatScan, Seq<char>>(
                FloatScan {
                    digits: digits as nat,
                    before_point: match digits_before_period {
                        Some(d) => Some(d as nat),
                        None => None,
                    },
                    significand,
                    exponent: exponent as int,
                    done,
                },
            ),
        decreases n - i,
    {
        let ch = s.get_char(i);
        assert(ch == text[i - first]);
        let ghost k = (i - first + 1) as nat;
        let ghost before = scan_float(text, (k - 1) as nat)->Ok_0;
        assert(scan_float(text, (k - 1) as nat) == Ok::<FloatScan, Seq<char>>(before));
        assert(!before.done);
        if ch == '.' {
            // The radix point: there can only be one.
            if digits_before_period.is_some() {
                proof {
                    assert(scan_float(text, k) == Err::<FloatScan, Seq<char>>(
                        "Multiple radix points"@,
                    ));
                    lemma_scan_float_settled(text, k, text.len());
                }
                return Err("Multiple radix points");
            } else {
                digits_before_period = Some(digits);
                assert(scan_float(text, k) == Ok::<FloatScan, Seq<char>>(
                    FloatScan { before_point: Some(before.digits), ..before },
                ));
            }
        } else if ch == 'p' {
            // The exponent follows, a decimal number.
            assert(text.subrange(k as int, text.len() as int) =~= s@.subrange(i + 1, n as int));
            match crate::text::parse_i16(s, i + 1) {
                Some(e) => {
                    exponent = e as i32;
                    done = true;
                    assert(scan_float(text, k) == Ok::<FloatScan, Seq<char>>(
                        FloatScan { exponent: e as int, done: true, ..before },
                    ));
                },
                None => {
                    proof {
                        assert(scan_float(text, k) == Err::<FloatScan, Seq<char>>(
                            "Bad exponent"@,
                        ));
                        lemma_scan_float_settled(text, k, text.len());
                    }
                    return Err("Bad exponent");
                },
            }
        } else {
            match hex_digit(ch) {
                Some(digit) => {
                    if digits >= 16 {
                        proof {
                            assert(scan_float(text, k) == Err::<FloatScan, Seq<char>>(
                                "Too many digits"@,
                            ));
                            lemma_scan_float_settled(text, k, text.len());
                        }
                        return Err("Too many digits");
                    }
                    proof {
                        lemma_hex_limit(digits as nat);
                        lemma_shift_in(significand, digit);
                    }
                    digits += 1;
                    significand = (significand << 4) | (digit as u64);
                    assert(scan_float(text, k) == Ok::<FloatScan, Seq<char>>(
                        FloatScan {
                            digits: before.digits + 1,
                            significand: (before.significand * 16 + digit) as u64,
                            ..before
                        },
                    ));
                },
                None => {
                    proof {
                        assert(scan_float(text, k) == Err::<FloatScan, Seq<char>>(
                            "Invalid character"@,
                        ));
                        lemma_scan_float_settled(text, k, text.len());
                    }
                    return Err("Invalid character");
                },
            }
        }
        i += 1;
    }
    proof {
        if done {
            lemma_scan_float_settled(text, (i - first) as nat, text.len());
        }
    }
    if digits == 0 {
        return Err("No digits");
    }
    if significand == 0 {
        // This is zero, with its sign.
        return Ok(sign_bit);
    }
    // The digits after the radix point count four bits each.
    match digits_before_period {
        None => {},
        Some(d) => {
            exponent = exponent - 4 * ((digits - d) as i32);
        },
    }
    float_of_parts(significand, exponent, sign_bit, w, t)
}

/// A 32-bit floating point immediate, held as its bits. Every pattern of bits is
/// allowed.
#[derive(Copy, Clone, PartialEq, Eq, Structural, Debug)]
pub struct Ieee32(pub u32);

/// A 64-bit floating point immediate, held as its bits. Every pattern of bits is
/// allowed.
#[derive(Copy, Clone, PartialEq, Eq, Structural, Debug)]
pub struct Ieee64(pub u64);

impl Ieee32 {
    /// The immediate with the given bits.
    pub fn from_bits(x: u32) -> (r: Ieee32)
        ensures
            r.0 == x,
    {
        Ieee32(x)
    }

    /// The bits of the immediate.
    pub fn bits(self) -> (r: u32)
        ensures
            r == self.0,
    {
        self.0
    }

    /// Write the immediate as text.
    pub fn to_string(&self) -> (r: String)
        ensures
            r@ == float_text(self.0 as u64, 8, 23),
    {
        format_float(self.0 as u64, 8, 23)
    }

    /// Read an immediate from text. The bits that the text stands for are cut
    /// down to 32.
    pub fn from_str(s: &str) -> (r: Result<Ieee32, &'static str>)
        ensures
            (match float_of_text(s@, 8, 23) {
                Ok(bits) => r == Ok::<Ieee32, &'static str>(Ieee32((bits & 0xffff_ffff) as u32)),
                Err(e) => r is Err && r->Err_0@ == e,
            }),
    {
        match parse_float(s, 8, 23) {
            Ok(b) => {
                let low: u64 = b & 0xffff_ffff;
                assert(low <= 0xffff_ffff) by (bit_vector)
                    requires
                        low == b & 0xffff_ffff,
                ;
                Ok(Ieee32(low as u32))
            },
            Err(e) => Err(e),
        }
    }
}

impl Ieee64 {
    /// The immediate with the given bits.
    pub fn from_bits(x: u64) -> (r: Ieee64)
        ensures
            r.0 == x,
    {
        Ieee64(x)
    }

    /// The bits of the immediate.
    pub fn bits(self) -> (r: u64)
        ensures
            r == self.0,
    {
        self.0
    }

    /// Write the immediate as text.
    pub fn to_string(&self) -> (r: String)
        ensures
            r@ == float_text(self.0, 11, 52),
    {
        format_float(self.0, 11, 52)
    }

    /// Read an immediate from text.
    pub fn from_str(s: &str) -> (r: Result<Ieee64, &'static str>)
        ensures
            (match float_of_text(s@, 11, 52) {
                Ok(bits) => r == Ok::<Ieee64, &'static str>(Ieee64(bits)),
                Err(e) => r is Err && r->Err_0@ == e,
            }),
    {
        match parse_float(s, 11, 52) {
            Ok(b) => Ok(Ieee64(b)),
            Err(e) => Err(e),
        }
    }
}

} // verus!
