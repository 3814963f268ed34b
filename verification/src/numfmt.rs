//! Decimal and lowercase hexadecimal formatting of integers, with the
//! facts that make the formats unambiguous (they read back to the same
//! number, so different numbers never share a rendering).
use vstd::prelude::*;

use crate::text::{digit_of, digits_value, is_digit, push_char};

verus! {

/// The lowercase hexadecimal digit for `d < 16`.
pub open spec fn hex_char(d: nat) -> char {
    if d < 10 {
        (d + '0' as nat) as char
    } else {
        (d - 10 + 'a' as nat) as char
    }
}

/// `format!("{:x}", n)`: lowercase hexadecimal without leading zeros.
pub open spec fn hex(n: nat) -> Seq<char>
    decreases n,
{
    if n < 16 {
        seq![hex_char(n)]
    } else {
        hex(n / 16).push(hex_char(n % 16))
    }
}

/// `format!("{}", n)`: decimal without leading zeros.
pub open spec fn dec(n: nat) -> Seq<char>
    decreases n,
{
    if n < 10 {
        seq![(n + '0' as nat) as char]
    } else {
        dec(n / 10).push(((n % 10) + '0' as nat) as char)
    }
}

/// A lowercase hexadecimal digit.
pub open spec fn is_hex_char(c: char) -> bool {
    ('0' <= c && c <= '9') || ('a' <= c && c <= 'f')
}

/// The value of a lowercase hexadecimal digit.
pub open spec fn hex_value_of(c: char) -> nat {
    if c <= '9' {
        (c as int - '0' as int) as nat
    } else {
        (c as int - 'a' as int + 10) as nat
    }
}

/// The number that the hexadecimal digits `s` denote.
pub open spec fn hex_value(s: Seq<char>) -> nat
    decreases s.len(),
{
    if s.len() == 0 {
        0
    } else {
        hex_value(s.drop_last()) * 16 + hex_value_of(s.last())
    }
}

/// A hexadecimal digit reads back to its value.
pub proof fn lemma_hex_char(d: nat)
    requires
        d < 16,
    ensures
        is_hex_char(hex_char(d)),
        hex_value_of(hex_char(d)) == d,
{
    if d < 10 {
        assert(((d + 48) as char) as int == d + 48);
    } else {
        assert(((d + 87) as char) as int == d + 87);
    }
}

/// A decimal digit reads back to its value.
pub proof fn lemma_dec_char(d: nat)
    requires
        d < 10,
    ensures
        is_digit(((d + '0' as nat) as char)),
        digit_of(((d + '0' as nat) as char)) == d,
{
    assert(((d + 48) as char) as int == d + 48);
}

/// Hexadecimal renderings are made of hexadecimal digits, read back to the
/// number, and are no longer than needed.
pub proof fn lemma_hex(n: nat)
    ensures
        hex(n).len() >= 1,
        forall|i: int| 0 <= i < hex(n).len() ==> is_hex_char(#[trigger] hex(n)[i]),
        hex_value(hex(n)) == n,
    decreases n,
{
    lemma_hex_char(n % 16);
    if n < 16 {
        let s = seq![hex_char(n)];
        assert(s.drop_last() =~= Seq::<char>::empty());
        assert(hex_value(s) == hex_value(s.drop_last()) * 16 + hex_value_of(s.last()));
        assert(hex(n) == s);
    }
    if n >= 16 {
        lemma_hex(n / 16);
        let h = hex(n / 16);
        let s = h.push(hex_char(n % 16));
        assert(s.drop_last() =~= h);
        assert(s.last() == hex_char(n % 16));
        assert(hex_value(s) == hex_value(h) * 16 + hex_value_of(hex_char(n % 16)));
        assert((n / 16) * 16 + n % 16 == n);
        assert(hex(n) == s);
        assert forall|i: int| 0 <= i < s.len() implies is_hex_char(#[trigger] s[i]) by {
            if i < h.len() {
                assert(s[i] == h[i]);
            }
        }
    }
}

/// Different numbers have different hexadecimal renderings.
pub proof fn lemma_hex_injective(a: nat, b: nat)
    requires
        hex(a) == hex(b),
    ensures
        a == b,
{
    lemma_hex(a);
    lemma_hex(b);
}

/// `16^k`.
pub open spec fn pow16(k: nat) -> nat
    decreases k,
{
    if k == 0 {
        1
    } else {
        16 * pow16((k - 1) as nat)
    }
}

/// A number below `16^k` has at most `k` hexadecimal digits.
pub proof fn lemma_hex_len(n: nat, k: nat)
    requires
        k >= 1,
        n < pow16(k),
    ensures
        hex(n).len() <= k,
    decreases k,
{
    if n >= 16 {
        let b2 = pow16((k - 1) as nat);
        assert(n / 16 < b2);
        if k == 1 {
            assert(false);
        } else {
            lemma_hex_len(n / 16, (k - 1) as nat);
        }
    }
}

/// Appends the lowercase hexadecimal rendering of `n` to `s`.
pub fn push_hex(s: &mut String, n: u128)
    ensures
        final(s)@ == old(s)@ + hex(n as nat),
    decreases n,
{
    if n >= 16 {
        push_hex(s, n / 16);
    }
    let d = (n % 16) as u32;
    let c: char = if d < 10 {
        char_from(d + 48)
    } else {
        char_from(d - 10 + 97)
    };
    push_char(s, c);
    proof {
        if n >= 16 {
            assert(hex(n as nat) == hex((n / 16) as nat).push(hex_char((n % 16) as nat)));
        }
    }
    assert(final(s)@ =~= old(s)@ + hex(n as nat)) by {
        if n >= 16 {
            assert(hex(n as nat) == hex((n / 16) as nat).push(hex_char((n % 16) as nat)));
        }
    }
}

/// Appends the decimal rendering of `n` to `s`.
pub fn push_dec(s: &mut String, n: u64)
    ensures
        final(s)@ == old(s)@ + dec(n as nat),
    decreases n,
{
    if n >= 10 {
        push_dec(s, n / 10);
    }
    let d = (n % 10) as u32;
    push_char(s, char_from(d + 48));
    assert(final(s)@ =~= old(s)@ + dec(n as nat));
}

/// The character with an ASCII code point.
fn char_from(code: u32) -> (c: char)
    requires
        code < 128,
    ensures
        c == code as char,
{
    (code as u8) as char
}

/// Decimal renderings read back to the number.
pub proof fn lemma_dec(n: nat)
    ensures
        dec(n).len() >= 1,
        forall|i: int| 0 <= i < dec(n).len() ==> is_digit(#[trigger] dec(n)[i]),
        digits_value(dec(n)) == n,
    decreases n,
{
    lemma_dec_char(n % 10);
    if n < 10 {
        let s = seq![(n + '0' as nat) as char];
        assert(s.drop_last() =~= Seq::<char>::empty());
        assert(digits_value(s) == digits_value(s.drop_last()) * 10 + digit_of(s.last()));
        assert(dec(n) == s);
    }
    if n >= 10 {
        lemma_dec(n / 10);
        let h = dec(n / 10);
        let s = h.push(((n % 10) + '0' as nat) as char);
        assert(s.drop_last() =~= h);
        assert(s.last() == ((n % 10) + '0' as nat) as char);
        assert(digits_value(s) == digits_value(h) * 10 + digit_of(((n % 10) + '0' as nat) as char));
        assert((n / 10) * 10 + n % 10 == n);
        assert(dec(n) == s);
        assert forall|i: int| 0 <= i < s.len() implies is_digit(#[trigger] s[i]) by {
            if i < h.len() {
                assert(s[i] == h[i]);
            }
        }
    }
}

} // verus!
