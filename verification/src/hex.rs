//! Upper-case hexadecimal code points, the form in which the dictionary
//! stores each character (`unicode` column), and their decoding.

use vstd::prelude::*;
use crate::text::{push_char, chars_of};

verus! {

/// The upper-case hexadecimal digit (`0`-`9`, `A`-`F`) for a value below 16.
pub open spec fn hex_digit(d: nat) -> char {
    if d < 10 {
        (d + 0x30) as char
    } else {
        (d + 0x37) as char
    }
}

/// The value of a hexadecimal digit of either case, or `None` for any
/// other character.
pub open spec fn hex_digit_value(c: char) -> Option<u32> {
    let v = c as u32;
    if 0x30 <= v && v <= 0x39 {
        Some((v - 0x30) as u32)
    } else if 0x41 <= v && v <= 0x46 {
        Some((v - 0x37) as u32)
    } else if 0x61 <= v && v <= 0x66 {
        Some((v - 0x57) as u32)
    } else {
        None
    }
}

/// `n` written in upper-case hexadecimal without leading zeros
/// (what `format!("{:X}", n)` gives).
pub open spec fn hex_upper(n: nat) -> Seq<char>
    decreases n,
{
    if n < 16 {
        seq![hex_digit(n)]
    } else {
        hex_upper(n / 16).push(hex_digit(n % 16))
    }
}

/// Every character of `s` is a hexadecimal digit.
pub open spec fn all_hex(s: Seq<char>) -> bool {
    forall|i: int| 0 <= i < s.len() ==> (#[trigger] hex_digit_value(s[i])) is Some
}

/// The number that a string of hexadecimal digits denotes.
pub open spec fn hex_value(s: Seq<char>) -> nat
    decreases s.len(),
{
    if s.len() == 0 {
        0
    } else {
        hex_value(s.drop_last()) * 16 + match hex_digit_value(s.last()) {
            Some(d) => d as nat,
            None => 0,
        }
    }
}

proof fn lemma_hex_digit_roundtrip(d: nat)
    requires
        d < 16,
    ensures
        hex_digit_value(hex_digit(d)) == Some(d as u32),
{
}

fn hex_digit_char(d: u32) -> (c: char)
    requires
        d < 16,
    ensures
        c == hex_digit(d as nat),
{
    if d < 10 {
        ((d as u8) + 48) as char
    } else {
        ((d as u8) + 55) as char
    }
}


/// The upper-case hexadecimal of `n` is made of hexadecimal digits, does not
/// start with `+`, and denotes `n`.
pub proof fn lemma_hex_upper(n: nat)
    ensures
        hex_upper(n).len() >= 1,
        all_hex(hex_upper(n)),
        hex_value(hex_upper(n)) == n,
        hex_upper(n)[0] != '+',
    decreases n,
{
    if n < 16 {
        lemma_hex_digit_roundtrip(n);
        assert(hex_upper(n).drop_last() =~= Seq::<char>::empty());
        assert(hex_value(Seq::<char>::empty()) == 0);
    } else {
        lemma_hex_upper(n / 16);
        lemma_hex_digit_roundtrip(n % 16);
        let s = hex_upper(n);
        assert(s.drop_last() =~= hex_upper(n / 16));
        assert forall|i: int| 0 <= i < s.len() implies (#[trigger] hex_digit_value(s[i])) is Some by {
            if i < s.len() - 1 {
                assert(s[i] == hex_upper(n / 16)[i]);
            }
        }
        assert(s[0] == hex_upper(n / 16)[0]);
        assert(s.last() == hex_digit(n % 16));
        assert(n == (n / 16) * 16 + n % 16);
    }
}

/// Reading a longer prefix of a string of hexadecimal digits never gives a
/// smaller number.
proof fn lemma_hex_value_prefix(s: Seq<char>, j: int)
    requires
        all_hex(s),
        0 <= j <= s.len(),
    ensures
        hex_value(s.take(j)) <= hex_value(s),
    decreases s.len(),
{
    if j < s.len() {
        assert(s.drop_last().take(j) =~= s.take(j));
        assert(all_hex(s.drop_last())) by {
            assert forall|i: int| 0 <= i < s.drop_last().len() implies
                (#[trigger] hex_digit_value(s.drop_last()[i])) is Some by {
                assert(s.drop_last()[i] == s[i]);
            }
        }
        lemma_hex_value_prefix(s.drop_last(), j);
    } else {
        assert(s.take(j) =~= s);
    }
}

/// What `u32::from_str_radix(s, 16)` returns: an optional `+` sign followed
/// by at least one hexadecimal digit (either case) whose value fits in a `u32`.
pub open spec fn radix16_u32(s: Seq<char>) -> Option<u32> {
    let digits = if s.len() > 0 && s[0] == '+' { s.drop_first() } else { s };
    if digits.len() == 0 || !all_hex(digits) || hex_value(digits) > u32::MAX {
        None
    } else {
        Some(hex_value(digits) as u32)
    }
}

fn hex_digit_of(c: char) -> (r: Option<u32>)
    ensures
        r == hex_digit_value(c),
{
    let v = c as u32;
    if 0x30 <= v && v <= 0x39 {
        Some(v - 0x30)
    } else if 0x41 <= v && v <= 0x46 {
        Some(v - 0x37)
    } else if 0x61 <= v && v <= 0x66 {
        Some(v - 0x57)
    } else {
        None
    }
}

fn push_hex(s: &mut String, n: u32)
    ensures
        final(s)@ == old(s)@ + hex_upper(n as nat),
    decreases n,
{
    let ghost start = s@;
    if n >= 16 {
        push_hex(s, n / 16);
    }
    let d = hex_digit_char(n % 16);
    push_char(s, d);
    proof {
        if n >= 16 {
            assert(start + hex_upper(n as nat) =~= (start + hex_upper((n / 16) as nat)).push(d));
        } else {
            assert(start + hex_upper(n as nat) =~= start.push(d));
        }
    }
}

/// The code point of `c` in upper-case hexadecimal, as the dictionary stores
/// it and as `format!("{:X}", c as u32)` writes it.
pub fn unicode_hex(c: char) -> (res: String)
    ensures
        res@ == hex_upper(c as nat),
{
    let mut s = String::new();
    push_hex(&mut s, c as u32);
    assert(s@ =~= hex_upper(c as nat));
    s
}

/// Parses `s` as `u32::from_str_radix(s, 16)` does.
pub fn parse_hex_u32(s: &str) -> (res: Option<u32>)
    ensures
        res == radix16_u32(s@),
{
    let chars = chars_of(s);
    let len = chars.len();
    if len == 0 {
        return None;
    }
    let start: usize = if chars[0] == '+' { 1 } else { 0 };
    let ghost digits = chars@.subrange(start as int, len as int);
    assert(digits =~= (if s@.len() > 0 && s@[0] == '+' { s@.drop_first() } else { s@ }));
    if start == len {
        return None;
    }
    let mut acc: u32 = 0;
    let mut i: usize = start;
    while i < len
        invariant
            chars@ == s@,
            len == chars@.len(),
            start <= i <= len,
            digits == chars@.subrange(start as int, len as int),
            digits == (if s@.len() > 0 && s@[0] == '+' { s@.drop_first() } else { s@ }),
            all_hex(digits.take(i - start)),
            acc as nat == hex_value(digits.take(i - start)),
        decreases len - i,
    {
        let ghost k = i - start;
        assert(digits[k] == chars@[i as int]);
        match hex_digit_of(chars[i]) {
            None => {
                assert(!all_hex(digits));
                return None;
            },
            Some(d) => {
                assert(digits.take(k + 1).drop_last() =~= digits.take(k));
                assert(digits.take(k + 1).last() == digits[k]);
                assert(all_hex(digits.take(k + 1))) by {
                    assert forall|j: int| 0 <= j < digits.take(k + 1).len() implies
                        (#[trigger] hex_digit_value(digits.take(k + 1)[j])) is Some by {
                        if j < k {
                            assert(digits.take(k + 1)[j] == digits.take(k)[j]);
                        }
                    }
                }
                let wide: u64 = (acc as u64) * 16 + (d as u64);
                if wide > 0xFFFF_FFFF {
                    proof {
                        if all_hex(digits) {
                            lemma_hex_value_prefix(digits, k + 1);
                        }
                    }
                    return None;
                }
                acc = wide as u32;
            },
        }
        i = i + 1;
    }
    assert(digits.take(len - start) =~= digits);
    Some(acc)
}

/// `c` is a decimal digit or an upper-case letter `A` to `F`.
pub open spec fn is_upper_hex_char(c: char) -> bool {
    ('0' as u32 <= c as u32 && c as u32 <= '9' as u32) || ('A' as u32 <= c as u32 && c as u32
        <= 'F' as u32)
}

/// Law: the hexadecimal written for a number uses only `0`-`9` and the
/// upper-case letters `A`-`F` (as the dictionary stores codes), and has no
/// leading zero.
pub proof fn hex_upper_is_upper_case(n: nat)
    ensures
        forall|i: int| 0 <= i < hex_upper(n).len() ==> is_upper_hex_char(#[trigger] hex_upper(n)[i]),
        n > 0 ==> hex_upper(n)[0] != '0',
        n == 0 ==> hex_upper(n) == seq!['0'],
    decreases n,
{
    let s = hex_upper(n);
    if n < 16 {
        assert(is_upper_hex_char(s[0]));
        if n > 0 {
            assert(s[0] as u32 != '0' as u32);
        }
        if n == 0 {
            assert(hex_digit(0) as u32 == '0' as u32);
            assert(s =~= seq!['0']);
        }
    } else {
        hex_upper_is_upper_case(n / 16);
        let t = hex_upper(n / 16);
        assert forall|i: int| 0 <= i < s.len() implies is_upper_hex_char(#[trigger] s[i]) by {
            if i < t.len() {
                assert(s[i] == t[i]);
            } else {
                assert(s[i] == hex_digit(n % 16));
            }
        }
        assert(s[0] == t[0]);
    }
}

/// Law: a non-empty string of hexadecimal digits is read as the number it
/// denotes when that fits in 32 bits, and rejected otherwise; a string with
/// any other character (after an optional leading `+`) is rejected.
pub proof fn radix16_reads_digits(s: Seq<char>)
    requires
        s.len() > 0,
        s[0] != '+',
    ensures
        all_hex(s) && hex_value(s) <= 0xFFFF_FFFF ==> radix16_u32(s) == Some(hex_value(s) as u32),
        all_hex(s) && hex_value(s) > 0xFFFF_FFFF ==> radix16_u32(s) is None,
        !all_hex(s) ==> radix16_u32(s) is None,
{
}

/// Law: a `+` sign in front of hexadecimal digits is accepted and does
/// not change the number.
pub proof fn radix16_accepts_plus_sign(s: Seq<char>)
    requires
        s.len() > 0,
        s[0] != '+',
    ensures
        radix16_u32(seq!['+'] + s) == radix16_u32(s),
{
    assert((seq!['+'] + s).drop_first() =~= s);
}

/// Law: the digits `0`-`9` are worth 0 to 9, and the letters `A`-`F` and
/// `a`-`f` alike are worth 10 to 15; no other character is a digit.
pub proof fn hex_digits_of_either_case(c: char)
    ensures
        '0' as u32 <= c as u32 <= '9' as u32 ==> hex_digit_value(c) == Some(
            (c as u32 - '0' as u32) as u32,
        ),
        'A' as u32 <= c as u32 <= 'F' as u32 ==> hex_digit_value(c) == Some(
            (c as u32 - 'A' as u32 + 10) as u32,
        ),
        'a' as u32 <= c as u32 <= 'f' as u32 ==> hex_digit_value(c) == Some(
            (c as u32 - 'a' as u32 + 10) as u32,
        ),
        !('0' as u32 <= c as u32 <= '9' as u32) && !('A' as u32 <= c as u32 <= 'F' as u32) && !('a'
            as u32 <= c as u32 <= 'f' as u32) ==> hex_digit_value(c) is None,
{
}

/// Law: appending a digit to a string of hexadecimal digits multiplies its
/// number by sixteen and adds the digit's worth.
pub proof fn hex_value_appends_digit(s: Seq<char>, c: char)
    requires
        hex_digit_value(c) is Some,
    ensures
        hex_value(s.push(c)) == hex_value(s) * 16 + hex_digit_value(c)->0,
{
    assert(s.push(c).drop_last() =~= s);
}

/// Law: a number decoded from a `unicode` field is the code of a
/// character: at most U+10FFFF and not a surrogate (U+D800 to U+DFFF).
pub proof fn decoded_code_is_scalar(s: Seq<char>)
    ensures
        decoded_code(s) matches Some(v) ==> v <= 0x10FFFF && !(0xD800 <= v <= 0xDFFF),
        decoded_code(s) matches Some(v) ==> radix16_u32(s) == Some(v),
{
}

/// Whether `v` is a Unicode scalar value, that is, the code of some `char`.
pub open spec fn is_unicode_scalar(v: u32) -> bool {
    v <= 0x10FFFF && !(0xD800 <= v && v <= 0xDFFF)
}

/// The character with code `v`, if there is one.
///
/// Trusted: calls std's `char::from_u32`, which is documented to return
/// `None` exactly when `v` is a surrogate or above `0x10FFFF`, and otherwise
/// the character whose code is `v`.
#[verifier::external_body]
fn char_from_code(v: u32) -> (res: Option<char>)
    ensures
        res == (if is_unicode_scalar(v) { Some(v as char) } else { None::<char> }),
{
    char::from_u32(v)
}

/// The code point that a dictionary `unicode` field denotes: the number read
/// as `u32::from_str_radix(s, 16)` does, when it is the code of a character.
pub open spec fn decoded_code(s: Seq<char>) -> Option<u32> {
    match radix16_u32(s) {
        Some(v) => if is_unicode_scalar(v) { Some(v) } else { None },
        None => None,
    }
}

/// Decodes a dictionary `unicode` field (hexadecimal code point) into the
/// character it names; `None` where the field is not the hexadecimal code of
/// a character.
pub fn hanzi_from_unicode(s: &str) -> (res: Option<char>)
    ensures
        res == (match decoded_code(s@) {
            Some(v) => Some(v as char),
            None => None::<char>,
        }),
{
    match parse_hex_u32(s) {
        Some(v) => char_from_code(v),
        None => None,
    }
}

/// Law: decoding the upper-case hexadecimal code of any character gives the
/// character back, so the code the service writes into a query names the
/// same character that a row carrying it decodes to.
pub proof fn unicode_hex_roundtrip(c: char)
    ensures
        decoded_code(hex_upper(c as nat)) == Some(c as u32),
{
    lemma_hex_upper(c as nat);
    let s = hex_upper(c as nat);
    assert(radix16_u32(s) == Some(c as u32));
}

} // verus!
