//! Text helpers: comparing strings and writing numbers.

use vstd::prelude::*;
use vstd::string::{StrSliceExecFns, StringExecFns};

verus! {

/// The character that stands for the digit `d` in bases up to sixteen, in lower case.
pub open spec fn digit_char(d: int) -> char {
    if d == 0 {
        '0'
    } else if d == 1 {
        '1'
    } else if d == 2 {
        '2'
    } else if d == 3 {
        '3'
    } else if d == 4 {
        '4'
    } else if d == 5 {
        '5'
    } else if d == 6 {
        '6'
    } else if d == 7 {
        '7'
    } else if d == 8 {
        '8'
    } else if d == 9 {
        '9'
    } else if d == 10 {
        'a'
    } else if d == 11 {
        'b'
    } else if d == 12 {
        'c'
    } else if d == 13 {
        'd'
    } else if d == 14 {
        'e'
    } else {
        'f'
    }
}

/// The decimal text of `n`: its digits, most significant first, without leading zeros.
pub open spec fn decimal_text(n: nat) -> Seq<char>
    decreases n,
{
    if n < 10 {
        seq![digit_char(n as int)]
    } else {
        decimal_text(n / 10).push(digit_char((n % 10) as int))
    }
}

/// The hexadecimal text of `n`, in lower case and without leading zeros.
pub open spec fn hex_text(n: nat) -> Seq<char>
    decreases n,
{
    if n < 16 {
        seq![digit_char(n as int)]
    } else {
        hex_text(n / 16).push(digit_char((n % 16) as int))
    }
}

/// The decimal text of a signed number: a minus sign in front of a negative one.
pub open spec fn signed_decimal_text(n: int) -> Seq<char> {
    if n < 0 {
        seq!['-'] + decimal_text((-n) as nat)
    } else {
        decimal_text(n as nat)
    }
}

/// The last `width` hexadecimal digits of `n`, most significant first.
pub open spec fn hex_fixed_text(n: nat, width: nat) -> Seq<char>
    decreases width,
{
    if width == 0 {
        Seq::empty()
    } else {
        hex_fixed_text(n / 16, (width - 1) as nat).push(digit_char((n % 16) as int))
    }
}

/// The one-character string of a digit.
pub fn digit_str(d: u8) -> (r: &'static str)
    requires
        d < 16,
    ensures
        r@ == seq![digit_char(d as int)],
{
    proof {
        reveal_strlit("0");
        reveal_strlit("1");
        reveal_strlit("2");
        reveal_strlit("3");
        reveal_strlit("4");
        reveal_strlit("5");
        reveal_strlit("6");
        reveal_strlit("7");
        reveal_strlit("8");
        reveal_strlit("9");
        reveal_strlit("a");
        reveal_strlit("b");
        reveal_strlit("c");
        reveal_strlit("d");
        reveal_strlit("e");
        reveal_strlit("f");
    }
    let r = match d {
        0 => "0",
        1 => "1",
        2 => "2",
        3 => "3",
        4 => "4",
        5 => "5",
        6 => "6",
        7 => "7",
        8 => "8",
        9 => "9",
        10 => "a",
        11 => "b",
        12 => "c",
        13 => "d",
        14 => "e",
        _ => "f",
    };
    assert(r@ =~= seq![digit_char(d as int)]);
    r
}

/// Append the decimal text of `n` to `out`.
pub fn push_decimal(out: &mut String, n: u64)
    ensures
        final(out)@ == old(out)@ + decimal_text(n as nat),
    decreases n,
{
    if n >= 10 {
        push_decimal(out, n / 10);
    }
    out.append(digit_str((n % 10) as u8));
    assert(out@ =~= old(out)@ + decimal_text(n as nat));
}

/// Append the decimal text of the signed number `n` to `out`.
pub fn push_signed_decimal(out: &mut String, n: i64)
    ensures
        final(out)@ == old(out)@ + signed_decimal_text(n as int),
{
    if n < 0 {
        proof {
            reveal_strlit("-");
        }
        out.append("-");
        let magnitude: u64 = if n == i64::MIN {
            0x8000_0000_0000_0000u64
        } else {
            (-n) as u64
        };
        push_decimal(out, magnitude);
        assert(out@ =~= old(out)@ + signed_decimal_text(n as int));
    } else {
        push_decimal(out, n as u64);
    }
}

/// Append the hexadecimal text of `n` to `out`.
pub fn push_hex(out: &mut String, n: u64)
    ensures
        final(out)@ == old(out)@ + hex_text(n as nat),
    decreases n,
{
    if n >= 16 {
        push_hex(out, n / 16);
    }
    out.append(digit_str((n % 16) as u8));
    assert(out@ =~= old(out)@ + hex_text(n as nat));
}

/// Append the last `width` hexadecimal digits of `n` to `out`.
pub fn push_hex_fixed(out: &mut String, n: u64, width: u8)
    ensures
        final(out)@ == old(out)@ + hex_fixed_text(n as nat, width as nat),
    decreases width,
{
    if width > 0 {
        push_hex_fixed(out, n / 16, width - 1);
        out.append(digit_str((n % 16) as u8));
    }
    assert(out@ =~= old(out)@ + hex_fixed_text(n as nat, width as nat));
}

/// Do two strings hold the same text?
pub fn str_eq(a: &str, b: &str) -> (r: bool)
    ensures
        r == (a@ == b@),
{
    let x = a.as_bytes();
    let y = b.as_bytes();
    proof {
        vstd::utf8::encode_utf8_decode_utf8(a@);
        vstd::utf8::encode_utf8_decode_utf8(b@);
        assert(x@ == vstd::string::StringSliceAdditionalSpecFns::spec_bytes(a));
        assert(y@ == vstd::string::StringSliceAdditionalSpecFns::spec_bytes(b));
        assert(x@ == vstd::utf8::encode_utf8(a@));
        assert(y@ == vstd::utf8::encode_utf8(b@));
    }
    if x.len() != y.len() {
        return false;
    }
    let mut i: usize = 0;
    while i < x.len()
        invariant
            i <= x.len(),
            x.len() == y.len(),
            x@ == vstd::utf8::encode_utf8(a@),
            y@ == vstd::utf8::encode_utf8(b@),
            forall|k: int| 0 <= k < i ==> x@[k] == y@[k],
        decreases x.len() - i,
    {
        if x[i] != y[i] {
            return false;
        }
        i += 1;
    }
    assert(x@ =~= y@);
    true
}

/// The upper-case form of an ASCII letter; any other character stays as it is.
pub open spec fn ascii_upper(c: char) -> char {
    if 'a' <= c <= 'z' {
        ((c as u32 - 32) as u32) as char
    } else {
        c
    }
}

/// The one-character string of the upper-case form of an ASCII lower-case
/// letter.
fn upper_str(c: char) -> (r: &'static str)
    requires
        'a' <= c <= 'z',
    ensures
        r@ == seq![ascii_upper(c)],
{
    proof {
        reveal_strlit("A");
        reveal_strlit("B");
        reveal_strlit("C");
        reveal_strlit("D");
        reveal_strlit("E");
        reveal_strlit("F");
        reveal_strlit("G");
        reveal_strlit("H");
        reveal_strlit("I");
        reveal_strlit("J");
        reveal_strlit("K");
        reveal_strlit("L");
        reveal_strlit("M");
        reveal_strlit("N");
        reveal_strlit("O");
        reveal_strlit("P");
        reveal_strlit("Q");
        reveal_strlit("R");
        reveal_strlit("S");
        reveal_strlit("T");
        reveal_strlit("U");
        reveal_strlit("V");
        reveal_strlit("W");
        reveal_strlit("X");
        reveal_strlit("Y");
        reveal_strlit("Z");
    }
    let r = match c {
        'a' => "A",
        'b' => "B",
        'c' => "C",
        'd' => "D",
        'e' => "E",
        'f' => "F",
        'g' => "G",
        'h' => "H",
        'i' => "I",
        'j' => "J",
        'k' => "K",
        'l' => "L",
        'm' => "M",
        'n' => "N",
        'o' => "O",
        'p' => "P",
        'q' => "Q",
        'r' => "R",
        's' => "S",
        't' => "T",
        'u' => "U",
        'v' => "V",
        'w' => "W",
        'x' => "X",
        'y' => "Y",
        _ => "Z",
    };
    assert(r@ =~= seq![ascii_upper(c)]);
    r
}

/// The camel-case form of a name that is written with underscores: the underscores
/// are left out, and the first character and each one after an underscore is put
/// in upper case. `capitalize` says whether the next character begins a word.
pub open spec fn camel_case_from(name: Seq<char>, capitalize: bool) -> Seq<char>
    decreases name.len(),
{
    if name.len() == 0 {
        Seq::empty()
    } else if name[0] == '_' {
        camel_case_from(name.drop_first(), true)
    } else {
        seq![
            if capitalize {
                ascii_upper(name[0])
            } else {
                name[0]
            },
        ] + camel_case_from(name.drop_first(), false)
    }
}

/// The camel-case form of `name`.
pub open spec fn camel_case_text(name: Seq<char>) -> Seq<char> {
    camel_case_from(name, true)
}

/// Convert a name written with underscores to camel case.
pub fn camel_case(name: &str) -> (r: String)
    ensures
        r@ == camel_case_text(name@),
{
    let mut out = String::new();
    let mut capitalize = true;
    let n = name.unicode_len();
    let mut i: usize = 0;
    assert(name@.subrange(0, n as int) =~= name@);
    assert(out@ + camel_case_from(name@, true) =~= camel_case_text(name@));
    while i < n
        invariant
            i <= n,
            n == name@.len(),
            out@ + camel_case_from(name@.subrange(i as int, n as int), capitalize)
                == camel_case_text(name@),
        decreases n - i,
    {
        let c = name.get_char(i);
        let ghost rest = name@.subrange(i as int, n as int);
        assert(rest.drop_first() =~= name@.subrange(i + 1, n as int));
        assert(rest[0] == c);
        if c == '_' {
            capitalize = true;
        } else {
            let ghost before = out@;
            if capitalize && 'a' <= c && c <= 'z' {
                out.append(upper_str(c));
            } else {
                out.append(name.substring_char(i, i + 1));
                assert(name@.subrange(i as int, i + 1) =~= seq![c]);
            }
            assert(out@ + camel_case_from(rest.drop_first(), false) =~= before + camel_case_from(
                rest,
                capitalize,
            ));
            capitalize = false;
        }
        i += 1;
    }
    assert(name@.subrange(n as int, n as int) =~= Seq::<char>::empty());
    assert(out@ + Seq::<char>::empty() =~= out@);
    out
}

/// The value of a hexadecimal digit, in either case.
pub open spec fn hex_digit_value(c: char) -> Option<u32> {
    if '0' <= c <= '9' {
        Some((c as u32 - '0' as u32) as u32)
    } else if 'a' <= c <= 'f' {
        Some((c as u32 - 'a' as u32 + 10) as u32)
    } else if 'A' <= c <= 'F' {
        Some((c as u32 - 'A' as u32 + 10) as u32)
    } else {
        None
    }
}

/// The value of `c` as a hexadecimal digit, if it is one.
pub fn hex_digit(c: char) -> (r: Option<u32>)
    ensures
        r == hex_digit_value(c),
        r is Some ==> r.unwrap() < 16,
{
    if '0' <= c && c <= '9' {
        Some(c as u32 - '0' as u32)
    } else if 'a' <= c && c <= 'f' {
        Some(c as u32 - 'a' as u32 + 10)
    } else if 'A' <= c && c <= 'F' {
        Some(c as u32 - 'A' as u32 + 10)
    } else {
        None
    }
}

/// The value of `c` as a digit in base `radix`, if it is one.
pub open spec fn digit_in(c: char, radix: u32) -> Option<u32> {
    match hex_digit_value(c) {
        Some(d) => if d < radix {
            Some(d)
        } else {
            None
        },
        None => None,
    }
}

/// Is every character of `text` a digit in base `radix`?
pub open spec fn all_digits_in(text: Seq<char>, radix: u32) -> bool {
    forall|i: int| 0 <= i < text.len() ==> digit_in(#[trigger] text[i], radix) is Some
}

/// The number that a string of digits in base `radix` stands for.
pub open spec fn digits_value(text: Seq<char>, radix: u32) -> nat
    decreases text.len(),
{
    if text.len() == 0 {
        0
    } else {
        (radix * digits_value(text.drop_last(), radix) + (match digit_in(text.last(), radix) {
            Some(d) => d as nat,
            None => 0nat,
        })) as nat
    }
}

/// The number that `text` stands for in base `radix`, where it is one or more
/// digits and the number is no greater than `limit`.
pub open spec fn number_in(text: Seq<char>, radix: u32, limit: u64) -> Option<u64> {
    if text.len() > 0 && all_digits_in(text, radix) && digits_value(text, radix) <= limit {
        Some(digits_value(text, radix) as u64)
    } else {
        None
    }
}

/// A string of digits stands for at least as much as any of its beginnings.
pub proof fn lemma_digits_value_grows(text: Seq<char>, radix: u32, k: int)
    requires
        0 <= k <= text.len(),
        radix >= 1,
    ensures
        digits_value(text.subrange(0, k), radix) <= digits_value(text, radix),
    decreases text.len() - k,
{
    if k == text.len() {
        assert(text.subrange(0, k) =~= text);
    } else {
        assert(text.drop_last().subrange(0, k) =~= text.subrange(0, k));
        lemma_digits_value_grows(text.drop_last(), radix, k);
        assert(radix * digits_value(text.drop_last(), radix) >= digits_value(
            text.drop_last(),
            radix,
        )) by (nonlinear_arith)
            requires
                radix >= 1,
        ;
    }
}

/// Read the number that the characters of `s` from `start` up to `end` stand
/// for in base `radix`: one or more digits, and a number no greater than `limit`.
pub fn parse_digits(s: &str, start: usize, end: usize, radix: u32, limit: u64) -> (r: Option<u64>)
    requires
        start <= end <= s@.len(),
        2 <= radix <= 16,
    ensures
        r == number_in(s@.subrange(start as int, end as int), radix, limit),
{
    let ghost text = s@.subrange(start as int, end as int);
    if start == end {
        return None;
    }
    let mut acc: u64 = 0;
    let mut i: usize = start;
    assert(text.subrange(0, 0) =~= Seq::<char>::empty());
    while i < end
        invariant
            start <= i <= end <= s@.len(),
            2 <= radix <= 16,
            text == s@.subrange(start as int, end as int),
            acc == digits_value(text.subrange(0, i - start), radix),
            acc <= limit,
            all_digits_in(text.subrange(0, i - start), radix),
        decreases end - i,
    {
        let c = s.get_char(i);
        assert(c == text[i - start]);
        let d = match hex_digit(c) {
            Some(d) => d,
            None => {
                return None;
            },
        };
        if d >= radix {
            return None;
        }
        let ghost prefix = text.subrange(0, i - start + 1);
        assert(prefix.drop_last() =~= text.subrange(0, i - start));
        assert(prefix.last() == c);
        assert(all_digits_in(prefix, radix)) by {
            assert forall|k: int| 0 <= k < prefix.len() implies digit_in(
                #[trigger] prefix[k],
                radix,
            ) is Some by {
                if k < i - start {
                    assert(prefix[k] == text.subrange(0, i - start)[k]);
                }
            }
        }
        let ghost next = radix * acc + d;
        assert(next == digits_value(prefix, radix));
        if d as u64 > limit || acc > (limit - d as u64) / (radix as u64) {
            proof {
                assert(next > limit) by (nonlinear_arith)
                    requires
                        acc > (limit - d) / (radix as int) || d > limit,
                        radix >= 2,
                        next == radix * acc + d,
                        d >= 0,
                        acc >= 0,
                        limit >= 0,
                ;
                lemma_digits_value_grows(text, radix, i - start + 1);
            }
            return None;
        }
        assert(next <= limit) by (nonlinear_arith)
            requires
                acc <= (limit - d) / (radix as int),
                d <= limit,
                radix >= 2,
                next == radix * acc + d,
        ;
        assert(acc * radix == radix * acc) by (nonlinear_arith);
        acc = acc * (radix as u64) + d as u64;
        i += 1;
    }
    assert(text.subrange(0, end - start) =~= text);
    Some(acc)
}

/// Do the characters of `s` from `start` on begin with `prefix`?
pub fn starts_with_from(s: &str, start: usize, prefix: &str) -> (r: bool)
    requires
        start <= s@.len(),
    ensures
        r == prefix@.is_prefix_of(s@.subrange(start as int, s@.len() as int)),
{
    let n = s.unicode_len();
    let m = prefix.unicode_len();
    let ghost rest = s@.subrange(start as int, n as int);
    if m > n - start {
        return false;
    }
    let mut i: usize = 0;
    while i < m
        invariant
            i <= m <= n - start,
            n == s@.len(),
            m == prefix@.len(),
            rest == s@.subrange(start as int, n as int),
            forall|k: int| 0 <= k < i ==> prefix@[k] == rest[k],
        decreases m - i,
    {
        if prefix.get_char(i) != s.get_char(start + i) {
            assert(prefix@[i as int] != rest.subrange(0, m as int)[i as int]);
            return false;
        }
        i += 1;
    }
    assert(prefix@ =~= rest.subrange(0, m as int));
    true
}

/// A text without the plus sign that may stand in front of a number.
pub open spec fn without_plus(text: Seq<char>) -> Seq<char> {
    if text.len() > 0 && text[0] == '+' {
        text.drop_first()
    } else {
        text
    }
}

/// The number that a hexadecimal text stands for: one or more digits in either
/// case, after a plus sign or without one, that give a number of 64 bits.
pub open spec fn hex_number(text: Seq<char>) -> Option<u64> {
    number_in(without_plus(text), 16, u64::MAX)
}

/// Read the hexadecimal number that the characters of `s` from `start` on stand for.
pub fn parse_hex_u64(s: &str, start: usize) -> (r: Option<u64>)
    requires
        start <= s@.len(),
    ensures
        r == hex_number(s@.subrange(start as int, s@.len() as int)),
{
    let n = s.unicode_len();
    let from: usize = if start < n && s.get_char(start) == '+' {
        start + 1
    } else {
        start
    };
    let ghost text = s@.subrange(start as int, n as int);
    assert(without_plus(text) =~= s@.subrange(from as int, n as int));
    parse_digits(s, from, n, 16, u64::MAX)
}

/// The 16-bit signed number that a decimal text stands for: one or more digits
/// after a plus sign, a minus sign or no sign.
pub open spec fn i16_number(text: Seq<char>) -> Option<i16> {
    if text.len() > 0 && text[0] == '-' {
        match number_in(text.drop_first(), 10, 32768) {
            Some(v) => Some((-(v as int)) as i16),
            None => None,
        }
    } else {
        match number_in(without_plus(text), 10, 32767) {
            Some(v) => Some(v as i16),
            None => None,
        }
    }
}

/// Read the 16-bit signed number that the characters of `s` from `start` on
/// stand for.
pub fn parse_i16(s: &str, start: usize) -> (r: Option<i16>)
    requires
        start <= s@.len(),
    ensures
        r == i16_number(s@.subrange(start as int, s@.len() as int)),
{
    let n = s.unicode_len();
    let ghost text = s@.subrange(start as int, n as int);
    if start < n && s.get_char(start) == '-' {
        assert(text.drop_first() =~= s@.subrange(start + 1, n as int));
        match parse_digits(s, start + 1, n, 10, 32768) {
            Some(v) => Some((-(v as i32)) as i16),
            None => None,
        }
    } else {
        let from: usize = if start < n && s.get_char(start) == '+' {
            start + 1
        } else {
            start
        };
        assert(without_plus(text) =~= s@.subrange(from as int, n as int));
        match parse_digits(s, from, n, 10, 32767) {
            Some(v) => Some(v as i16),
            None => None,
        }
    }
}

/// Whether a character is a letter or a number, as the standard library has it.
pub uninterp spec fn is_alphanumeric_char(c: char) -> bool;

/// Is `c` a letter or a number?
///
/// This is `char::is_alphanumeric` of the standard library, which goes by the
/// classes of the Unicode standard. Its answer depends on the character alone.
#[verifier::external_body]
pub(crate) fn char_is_alphanumeric(c: char) -> (r: bool)
    ensures
        r == is_alphanumeric_char(c),
{
    c.is_alphanumeric()
}

} // verus!
