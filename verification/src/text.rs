//! Numbers written out as text.

use vstd::prelude::*;
use vstd::string::StringExecFns;

verus! {

/// `String::push` appends the character to the end of the string.
pub assume_specification[ std::string::String::push ](s: &mut std::string::String, c: char)
    ensures
        final(s)@ == old(s)@.push(c),
;

/// The character for a digit below 16: `0` to `9`, then `a` to `f`.
pub open spec fn digit_char(d: nat) -> char {
    if d < 10 {
        ((48 + d) as u8) as char
    } else {
        ((87 + d) as u8) as char
    }
}

/// The decimal notation of a number, without leading zeros.
pub open spec fn decimal_chars(n: nat) -> Seq<char>
    decreases n,
{
    if n < 10 {
        seq![digit_char(n)]
    } else {
        decimal_chars(n / 10).push(digit_char(n % 10))
    }
}

/// The hexadecimal notation of a number in lower case, padded with leading
/// zeros to at least `width` digits.
pub open spec fn hex_chars(n: nat, width: nat) -> Seq<char>
    decreases n + width,
{
    if n < 16 && width <= 1 {
        seq![digit_char(n)]
    } else {
        hex_chars(n / 16, if width >= 1 { (width - 1) as nat } else { 0 }).push(digit_char(n % 16))
    }
}

/// The decimal notation of a number, padded with leading zeros to at least
/// `width` digits.
pub open spec fn padded_decimal_chars(n: nat, width: nat) -> Seq<char>
    decreases n + width,
{
    if n < 10 && width <= 1 {
        seq![digit_char(n)]
    } else {
        padded_decimal_chars(n / 10, if width >= 1 { (width - 1) as nat } else { 0 }).push(
            digit_char(n % 10),
        )
    }
}

/// The decimal notation of a number, as ASCII bytes.
pub open spec fn decimal_bytes(n: nat) -> Seq<u8> {
    Seq::new(decimal_chars(n).len(), |i: int| decimal_chars(n)[i] as u8)
}

/// The character for a digit below 16.
pub fn digit_to_char(d: u8) -> (c: char)
    requires
        d < 16,
    ensures
        c == digit_char(d as nat),
{
    if d < 10 {
        (48u8 + d) as char
    } else {
        (87u8 + d) as char
    }
}

/// Appends the decimal notation of `n`.
pub fn push_decimal(out: &mut String, n: u64)
    ensures
        final(out)@ == old(out)@ + decimal_chars(n as nat),
    decreases n,
{
    if n >= 10 {
        push_decimal(out, n / 10);
    }
    out.push(digit_to_char((n % 10) as u8));
    assert(out@ =~= old(out)@ + decimal_chars(n as nat));
}

/// Appends the hexadecimal notation of `n`, at least `width` digits long.
pub fn push_hex(out: &mut String, n: u32, width: u32)
    ensures
        final(out)@ == old(out)@ + hex_chars(n as nat, width as nat),
    decreases n + width,
{
    if n >= 16 || width > 1 {
        push_hex(
            out,
            n / 16,
            if width >= 1 {
                width - 1
            } else {
                0
            },
        );
    }
    out.push(digit_to_char((n % 16) as u8));
    assert(out@ =~= old(out)@ + hex_chars(n as nat, width as nat));
}

/// Appends the decimal notation of `n`, at least `width` digits long.
pub fn push_padded_decimal(out: &mut String, n: u32, width: u32)
    ensures
        final(out)@ == old(out)@ + padded_decimal_chars(n as nat, width as nat),
    decreases n + width,
{
    if n >= 10 || width > 1 {
        push_padded_decimal(
            out,
            n / 10,
            if width >= 1 {
                width - 1
            } else {
                0
            },
        );
    }
    out.push(digit_to_char((n % 10) as u8));
    assert(out@ =~= old(out)@ + padded_decimal_chars(n as nat, width as nat));
}

/// Appends the decimal notation of `n` as ASCII bytes.
pub fn push_decimal_bytes(out: &mut Vec<u8>, n: u64)
    ensures
        final(out)@ == old(out)@ + decimal_bytes(n as nat),
    decreases n,
{
    if n >= 10 {
        push_decimal_bytes(out, n / 10);
    }
    out.push(digit_to_char((n % 10) as u8) as u8);
    assert(out@ =~= old(out)@ + decimal_bytes(n as nat));
}

/// A decimal notation has at least one digit, and each is a digit.
pub proof fn lemma_decimal_chars(n: nat)
    ensures
        decimal_chars(n).len() >= 1,
        forall|i: int| 0 <= i < decimal_chars(n).len() ==> '0' <= #[trigger] decimal_chars(n)[i] <= '9',
    decreases n,
{
    if n >= 10 {
        lemma_decimal_chars(n / 10);
    }
}

/// Different numbers have different decimal notations.
pub proof fn lemma_decimal_chars_injective(a: nat, b: nat)
    requires
        decimal_chars(a) == decimal_chars(b),
    ensures
        a == b,
    decreases a,
{
    lemma_decimal_chars(a / 10);
    lemma_decimal_chars(b / 10);
    assert(digit_char(a % 10) as int == 48 + a % 10);
    assert(digit_char(b % 10) as int == 48 + b % 10);
    if a < 10 && b < 10 {
        assert(decimal_chars(a)[0] == digit_char(a));
        assert(decimal_chars(b)[0] == digit_char(b));
        assert(digit_char(a) as int == 48 + a);
        assert(digit_char(b) as int == 48 + b);
    } else if a >= 10 && b >= 10 {
        let x = decimal_chars(a / 10);
        let y = decimal_chars(b / 10);
        let xa = x.push(digit_char(a % 10));
        let yb = y.push(digit_char(b % 10));
        assert(decimal_chars(a) == xa);
        assert(decimal_chars(b) == yb);
        assert(xa.last() == digit_char(a % 10));
        assert(yb.last() == digit_char(b % 10));
        assert(a % 10 == b % 10);
        assert(x =~= xa.drop_last());
        assert(y =~= yb.drop_last());
        lemma_decimal_chars_injective(a / 10, b / 10);
        assert(a == b);
    } else {
        if a < 10 {
            assert(decimal_chars(a).len() == 1);
            assert(decimal_chars(b).len() == decimal_chars(b / 10).len() + 1);
        } else {
            assert(decimal_chars(b).len() == 1);
            assert(decimal_chars(a).len() == decimal_chars(a / 10).len() + 1);
        }
    }
}

/// Different numbers have different decimal notations in bytes.
pub proof fn lemma_decimal_bytes_injective(a: nat, b: nat)
    requires
        decimal_bytes(a) == decimal_bytes(b),
    ensures
        a == b,
{
    lemma_decimal_chars(a);
    lemma_decimal_chars(b);
    let x = decimal_chars(a);
    let y = decimal_chars(b);
    assert(x.len() == decimal_bytes(a).len());
    assert(y.len() == decimal_bytes(b).len());
    assert forall|i: int| 0 <= i < x.len() implies x[i] == y[i] by {
        assert(decimal_bytes(a)[i] == x[i] as u8);
        assert(decimal_bytes(b)[i] == y[i] as u8);
    }
    assert(x =~= y);
    lemma_decimal_chars_injective(a, b);
}

} // verus!
