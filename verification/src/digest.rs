//! The keyed digest family behind index derivation.
//!
//! An element's bit positions come from a single hex digest of the string
//! `salt ++ element ++ decimal(i)`, reduced modulo the filter's capacity.
//! The digest itself and the modular reduction of its hex numeral are the
//! only outside calls of the library; both stand behind trusted wrappers.

use vstd::prelude::*;
use vstd::string::StringExecFns;
use num_bigint::BigInt;
use num_traits::cast::ToPrimitive;
use sha1::Digest;
use sha1::Sha1;

verus! {

/// The hex digest of a character string, as a sequence of characters.
/// Its value is not stated: it stands for what the digest pipeline returns,
/// which depends on the input characters alone.
pub uninterp spec fn sha1_hex_of(s: Seq<char>) -> Seq<char>;

/// A character that a hexadecimal numeral may contain.
pub open spec fn is_hex_digit(c: char) -> bool {
    ('0' as int <= c as int && c as int <= '9' as int)
    || ('a' as int <= c as int && c as int <= 'f' as int)
    || ('A' as int <= c as int && c as int <= 'F' as int)
}

/// The value of one hexadecimal digit.
pub open spec fn hex_digit_value(c: char) -> nat
    recommends
        is_hex_digit(c),
{
    if '0' as int <= c as int && c as int <= '9' as int {
        (c as int - '0' as int) as nat
    } else if 'a' as int <= c as int && c as int <= 'f' as int {
        (c as int - 'a' as int + 10) as nat
    } else {
        (c as int - 'A' as int + 10) as nat
    }
}

/// The value of a hexadecimal numeral, most significant digit first.
pub open spec fn hex_to_nat(s: Seq<char>) -> nat
    decreases s.len(),
{
    if s.len() == 0 {
        0
    } else {
        hex_to_nat(s.drop_last()) * 16 + hex_digit_value(s.last())
    }
}

/// The character for one decimal digit.
pub open spec fn decimal_digit(d: nat) -> char
    recommends
        d < 10,
{
    if d == 0 { '0' }
    else if d == 1 { '1' }
    else if d == 2 { '2' }
    else if d == 3 { '3' }
    else if d == 4 { '4' }
    else if d == 5 { '5' }
    else if d == 6 { '6' }
    else if d == 7 { '7' }
    else if d == 8 { '8' }
    else { '9' }
}

/// The decimal numeral of `n`, most significant digit first, no leading zeros.
pub open spec fn dec_digits(n: nat) -> Seq<char>
    decreases n,
{
    if n < 10 {
        seq![decimal_digit(n)]
    } else {
        dec_digits(n / 10) + seq![decimal_digit(n % 10)]
    }
}

/// Relies on `sha1::Sha1` (`new`, `update`, `finalize`) for the 20-byte SHA-1
/// digest of the argument's UTF-8 bytes, and on `hex::encode` for writing each
/// byte as two lowercase hexadecimal digits. The result is a function of the
/// argument's characters alone.
#[verifier::external_body]
pub(crate) fn sha1_hex(value: &str) -> (r: String)
    ensures
        r@ == sha1_hex_of(value@),
        r@.len() == 40,
        forall|j: int| 0 <= j < r@.len() ==> is_hex_digit(#[trigger] r@[j]),
{
    let mut hasher = Sha1::new();
    hasher.update(value);
    hex::encode(hasher.finalize())
}

/// Relies on `num_bigint::BigInt::parse_bytes` with radix 16, which reads an
/// ASCII hexadecimal numeral big-endian, on the remainder of a nonnegative
/// `BigInt` by a positive `usize`, whose result is the dividend's value modulo
/// the divisor, and on `num_traits::ToPrimitive::to_usize`, which returns the
/// value whenever it fits.
#[verifier::external_body]
pub(crate) fn hex_mod(numeral: &str, m: usize) -> (r: usize)
    requires
        m > 0,
        numeral@.len() > 0,
        forall|j: int| 0 <= j < numeral@.len() ==> is_hex_digit(#[trigger] numeral@[j]),
    ensures
        r as nat == hex_to_nat(numeral@) % (m as nat),
{
    let value = BigInt::parse_bytes(numeral.as_bytes(), 16).unwrap() % m;
    value.to_usize().unwrap()
}

/// Appends the character of the decimal digit `d` to `s`.
fn push_digit(s: &mut String, d: u32)
    requires
        d < 10,
    ensures
        final(s)@ == old(s)@ + seq![decimal_digit(d as nat)],
{
    if d == 0 {
        proof { reveal_strlit("0"); }
        s.append("0");
        proof { assert(s@ =~= old(s)@ + seq![decimal_digit(d as nat)]); }
    } else if d == 1 {
        proof { reveal_strlit("1"); }
        s.append("1");
        proof { assert(s@ =~= old(s)@ + seq![decimal_digit(d as nat)]); }
    } else if d == 2 {
        proof { reveal_strlit("2"); }
        s.append("2");
        proof { assert(s@ =~= old(s)@ + seq![decimal_digit(d as nat)]); }
    } else if d == 3 {
        proof { reveal_strlit("3"); }
        s.append("3");
        proof { assert(s@ =~= old(s)@ + seq![decimal_digit(d as nat)]); }
    } else if d == 4 {
        proof { reveal_strlit("4"); }
        s.append("4");
        proof { assert(s@ =~= old(s)@ + seq![decimal_digit(d as nat)]); }
    } else if d == 5 {
        proof { reveal_strlit("5"); }
        s.append("5");
        proof { assert(s@ =~= old(s)@ + seq![decimal_digit(d as nat)]); }
    } else if d == 6 {
        proof { reveal_strlit("6"); }
        s.append("6");
        proof { assert(s@ =~= old(s)@ + seq![decimal_digit(d as nat)]); }
    } else if d == 7 {
        proof { reveal_strlit("7"); }
        s.append("7");
        proof { assert(s@ =~= old(s)@ + seq![decimal_digit(d as nat)]); }
    } else if d == 8 {
        proof { reveal_strlit("8"); }
        s.append("8");
        proof { assert(s@ =~= old(s)@ + seq![decimal_digit(d as nat)]); }
    } else {
        proof { reveal_strlit("9"); }
        s.append("9");
        proof { assert(s@ =~= old(s)@ + seq![decimal_digit(d as nat)]); }
    }
}

/// Appends the decimal numeral of `n` to `s`.
fn push_decimal(s: &mut String, n: u32)
    ensures
        final(s)@ == old(s)@ + dec_digits(n as nat),
    decreases n,
{
    if n >= 10 {
        push_decimal(s, n / 10);
        push_digit(s, n % 10);
        proof {
            assert(dec_digits(n as nat) == dec_digits(n as nat / 10) + seq![
                decimal_digit(n as nat % 10),
            ]);
            assert(s@ =~= old(s)@ + dec_digits(n as nat));
        }
    } else {
        push_digit(s, n);
        proof {
            assert(s@ =~= old(s)@ + dec_digits(n as nat));
        }
    }
}

/// The digest input for slot `i`: the salt, the element, and the slot's
/// decimal numeral, concatenated without a delimiter.
pub(crate) fn hash_input(salt: &str, element: &str, i: u32) -> (s: String)
    ensures
        s@ == salt@ + element@ + dec_digits(i as nat),
{
    let mut s = String::new();
    s.append(salt);
    s.append(element);
    push_decimal(&mut s, i);
    proof {
        assert(s@ =~= salt@ + element@ + dec_digits(i as nat));
    }
    s
}

} // verus!
