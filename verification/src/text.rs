//! Character-level string helpers shared by the other modules.

use vstd::prelude::*;

verus! {

/// Appends one character to a `String`.
///
/// Trusted: calls std's `String::push`, whose documentation says it appends
/// the given `char` to the end of the string.
#[verifier::external_body]
pub(crate) fn push_char(s: &mut String, c: char)
    ensures
        final(s)@ == old(s)@.push(c),
{
    s.push(c);
}

/// The characters of `s`, in order.
pub fn chars_of(s: &str) -> (res: Vec<char>)
    ensures
        res@ == s@,
{
    let mut res: Vec<char> = Vec::new();
    for c in it: s.chars()
        invariant
            it.seq() == s@,
            res@ == it.seq().take(it.index() as int),
    {
        res.push(c);
    }
    res
}


/// The first character of `s`, if any (what `s.chars().next()` gives).
pub fn first_char(s: &str) -> (res: Option<char>)
    ensures
        res == (if s@.len() > 0 { Some(s@[0]) } else { None::<char> }),
{
    let chars = chars_of(s);
    if chars.len() == 0 {
        None
    } else {
        Some(chars[0])
    }
}

/// The decimal digit for a value below ten.
pub open spec fn decimal_digit(d: nat) -> char {
    (d + 0x30) as char
}

/// `n` in decimal without leading zeros.
pub open spec fn decimal_nat(n: nat) -> Seq<char>
    decreases n,
{
    if n < 10 {
        seq![decimal_digit(n)]
    } else {
        decimal_nat(n / 10).push(decimal_digit(n % 10))
    }
}

/// `n` in decimal, with a leading `-` when negative: what `{}` writes for an
/// integer.
pub open spec fn decimal_int(n: int) -> Seq<char> {
    if n < 0 {
        seq!['-'] + decimal_nat((-n) as nat)
    } else {
        decimal_nat(n as nat)
    }
}

/// `c` is one of the digits `0` to `9`.
pub open spec fn is_decimal_char(c: char) -> bool {
    '0' as u32 <= c as u32 && c as u32 <= '9' as u32
}

/// The number that a string of decimal digits denotes, read in base ten.
pub open spec fn decimal_value(s: Seq<char>) -> int
    decreases s.len(),
{
    if s.len() == 0 {
        0
    } else {
        decimal_value(s.drop_last()) * 10 + (s.last() as u32 - '0' as u32)
    }
}

/// Law: the decimal written for a number is made of digits, reads back as
/// that number, and has no leading zero.
pub proof fn decimal_nat_denotes(n: nat)
    ensures
        decimal_nat(n).len() > 0,
        forall|i: int| 0 <= i < decimal_nat(n).len() ==> is_decimal_char(#[trigger] decimal_nat(n)[i]),
        decimal_value(decimal_nat(n)) == n,
        n > 0 ==> decimal_nat(n)[0] != '0',
    decreases n,
{
    let s = decimal_nat(n);
    if n < 10 {
        assert(s.drop_last() =~= Seq::<char>::empty());
        assert(decimal_value(Seq::<char>::empty()) == 0);
        assert(s[0] as u32 == n + 0x30);
        if n > 0 {
            assert(s[0] as u32 != '0' as u32);
        }
    } else {
        decimal_nat_denotes(n / 10);
        let t = decimal_nat(n / 10);
        assert(s.drop_last() =~= t);
        assert(s.last() as u32 == n % 10 + 0x30);
        assert forall|i: int| 0 <= i < s.len() implies is_decimal_char(#[trigger] s[i]) by {
            if i < t.len() {
                assert(s[i] == t[i]);
            }
        }
        assert(s[0] == t[0]);
        assert(n == (n / 10) * 10 + n % 10);
    }
}

/// Law: an integer is written with a `-` exactly when it is negative,
/// followed by the digits of its magnitude.
pub proof fn decimal_int_denotes(n: int)
    ensures
        (decimal_int(n)[0] == '-') <==> n < 0,
        n < 0 ==> decimal_value(decimal_int(n).drop_first()) == -n,
        n >= 0 ==> decimal_value(decimal_int(n)) == n,
        forall|i: int|
            (if n < 0 { 1int } else { 0int }) <= i < decimal_int(n).len() ==> is_decimal_char(
                #[trigger] decimal_int(n)[i],
            ),
{
    if n < 0 {
        let m = (-n) as nat;
        decimal_nat_denotes(m);
        assert((seq!['-'] + decimal_nat(m)).drop_first() =~= decimal_nat(m));
        assert forall|i: int| 1 <= i < decimal_int(n).len() implies is_decimal_char(
            #[trigger] decimal_int(n)[i],
        ) by {
            assert(decimal_int(n)[i] == decimal_nat(m)[i - 1]);
        }
    } else {
        decimal_nat_denotes(n as nat);
        let c = decimal_int(n)[0];
        assert(is_decimal_char(c));
        assert(c as u32 != '-' as u32);
    }
}

fn push_decimal(s: &mut String, n: u64)
    ensures
        final(s)@ == old(s)@ + decimal_nat(n as nat),
    decreases n,
{
    let ghost start = s@;
    if n >= 10 {
        push_decimal(s, n / 10);
    }
    let d: char = (((n % 10) as u8) + 48) as char;
    push_char(s, d);
    proof {
        if n >= 10 {
            assert(start + decimal_nat(n as nat) =~= (start + decimal_nat((n / 10) as nat)).push(d));
        } else {
            assert(start + decimal_nat(n as nat) =~= start.push(d));
        }
    }
}

/// Appends `n` written in decimal to `s`.
pub(crate) fn push_i64(s: &mut String, n: i64)
    ensures
        final(s)@ == old(s)@ + decimal_int(n as int),
{
    let ghost start = s@;
    if n < 0 {
        push_char(s, '-');
        let magnitude: u64 = if n == i64::MIN {
            0x8000_0000_0000_0000
        } else {
            (-n) as u64
        };
        push_decimal(s, magnitude);
        assert(s@ =~= start + decimal_int(n as int));
    } else {
        push_decimal(s, n as u64);
    }
}

} // verus!
