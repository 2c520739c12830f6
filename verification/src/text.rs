//! Text forms of identifiers and decimals, as their crates write them.
use crate::decimal::{Dec, max_scale, pow10};
use rust_decimal::Decimal;
use uuid::Uuid;
use vstd::prelude::*;
use vstd::string::StringExecFns;

verus! {

/// The lower-case hexadecimal digit of `n` (below 16).
pub open spec fn hex_digit(n: int) -> char {
    if n < 10 {
        (48 + n) as char
    } else {
        (87 + n) as char
    }
}

/// `16^k`.
pub open spec fn pow16(k: nat) -> int
    decreases k,
{
    if k == 0 {
        1
    } else {
        16 * pow16((k - 1) as nat)
    }
}

/// The `i`-th of the 32 hexadecimal digits of a 128-bit id, most
/// significant first.
pub open spec fn nibble(id: u128, i: int) -> int {
    (id as int / pow16((31 - i) as nat)) % 16
}

/// Hexadecimal digits `from` to `to` (exclusive) of an id.
pub open spec fn hex_run(id: u128, from: int, to: int) -> Seq<char> {
    Seq::new((to - from) as nat, |j: int| hex_digit(nibble(id, from + j)))
}

/// The hyphenated text of a UUID: its 32 lower-case hexadecimal digits in
/// groups of 8, 4, 4, 4 and 12.
pub open spec fn uuid_text_of(id: u128) -> Seq<char> {
    hex_run(id, 0, 8) + "-"@ + hex_run(id, 8, 12) + "-"@ + hex_run(id, 12, 16) + "-"@ + hex_run(
        id,
        16,
        20,
    ) + "-"@ + hex_run(id, 20, 32)
}

/// `Uuid::from_u128(id).to_string()`: the hyphenated lower-case form that
/// `uuid`'s `Display` writes.
#[verifier::external_body]
pub(crate) fn uuid_text(id: u128) -> (r: String)
    ensures
        r@ == uuid_text_of(id),
{
    Uuid::from_u128(id).to_string()
}

/// The character of a decimal digit.
pub open spec fn digit_char(d: int) -> char {
    (48 + d) as char
}

/// The decimal digits of a natural number, no leading zero ("0" for zero).
pub open spec fn nat_text(n: nat) -> Seq<char>
    decreases n,
{
    if n < 10 {
        seq![digit_char(n as int)]
    } else {
        nat_text(n / 10).push(digit_char((n % 10) as int))
    }
}

/// The last `width` decimal digits of `r`, with leading zeros.
pub open spec fn zero_padded(r: nat, width: nat) -> Seq<char>
    decreases width,
{
    if width == 0 {
        Seq::empty()
    } else {
        zero_padded(r / 10, (width - 1) as nat).push(digit_char((r % 10) as int))
    }
}

/// The text `rust_decimal`'s `Display` writes for `m / 10^s`: a minus sign
/// when negative, the whole part, and when the scale is not zero a point
/// followed by exactly `s` fractional digits.
pub open spec fn decimal_text_of(m: i128, s: u32) -> Seq<char> {
    let a: nat = if m < 0 {
        (-m) as nat
    } else {
        m as nat
    };
    let p = pow10(s as nat) as nat;
    (if m < 0 {
        "-"@
    } else {
        ""@
    }) + nat_text(a / p) + (if s == 0 {
        ""@
    } else {
        "."@ + zero_padded(a % p, s as nat)
    })
}

/// `Decimal::from_i128_with_scale(m, s).to_string()`.
#[verifier::external_body]
pub(crate) fn decimal_text(d: &Dec) -> (r: String)
    requires
        d.wf(),
    ensures
        r@ == decimal_text_of(d.mantissa, d.scale),
{
    Decimal::from_i128_with_scale(d.mantissa, d.scale).to_string()
}

/// A decimal without the trailing zeros of its fraction: zero becomes
/// `0` with scale 0, and otherwise factors of ten leave the mantissa while
/// the scale allows.
pub open spec fn normalized(m: int, s: nat) -> (int, nat)
    decreases s,
{
    if m == 0 {
        (0, 0)
    } else if s == 0 || m % 10 != 0 {
        (m, s)
    } else {
        normalized(m / 10, (s - 1) as nat)
    }
}

/// What `rust_decimal`'s `normalize` gives, as mantissa and scale.
pub open spec fn decimal_normalize(m: i128, s: u32) -> (i128, u32) {
    let r = normalized(m as int, s as nat);
    (r.0 as i128, r.1 as u32)
}

proof fn lemma_normalized(m: int, s: nat)
    ensures
        ({
            let r = normalized(m, s);
            &&& -(if m < 0 { -m } else { m }) <= r.0 <= (if m < 0 { -m } else { m })
            &&& r.1 <= s
            &&& s <= max_scale() ==> r.0 * pow10((max_scale() - r.1) as nat) == m * pow10((max_scale() - s) as nat)
        }),
    decreases s,
{
    if m != 0 && s != 0 && m % 10 == 0 {
        lemma_normalized(m / 10, (s - 1) as nat);
        if s <= max_scale() {
            let k = (max_scale() - s) as nat;
            assert(pow10((k + 1) as nat) == 10 * pow10(k));
            assert(m == (m / 10) * 10);
            assert((m / 10) * (10 * pow10(k)) == ((m / 10) * 10) * pow10(k)) by (nonlinear_arith);
        }
    }
}

/// `Decimal::normalize` (strip trailing zeros, make zero positive).
#[verifier::external_body]
fn decimal_normalize_call(d: &Dec) -> (r: Dec)
    requires
        d.wf(),
    ensures
        (r.mantissa, r.scale) == decimal_normalize(d.mantissa, d.scale),
{
    let n = Decimal::from_i128_with_scale(d.mantissa, d.scale).normalize();
    Dec { mantissa: n.mantissa(), scale: n.scale() }
}

/// A decimal's normalized form: the same value, without trailing zeros.
pub(crate) fn dec_normalize(d: &Dec) -> (r: Dec)
    requires
        d.wf(),
    ensures
        (r.mantissa, r.scale) == decimal_normalize(d.mantissa, d.scale),
        r.wf(),
        r.value() == d.value(),
{
    let r = decimal_normalize_call(d);
    proof {
        lemma_normalized(d.mantissa as int, d.scale as nat);
    }
    r
}

/// The text of a decimal digit.
pub open spec fn digit_str(d: u64) -> &'static str {
    if d == 0 {
        "0"
    } else if d == 1 {
        "1"
    } else if d == 2 {
        "2"
    } else if d == 3 {
        "3"
    } else if d == 4 {
        "4"
    } else if d == 5 {
        "5"
    } else if d == 6 {
        "6"
    } else if d == 7 {
        "7"
    } else if d == 8 {
        "8"
    } else {
        "9"
    }
}

#[verifier::when_used_as_spec(digit_str)]
fn digit_text(d: u64) -> (r: &'static str)
    requires
        d < 10,
    ensures
        r == digit_str(d),
{
    if d == 0 {
        "0"
    } else if d == 1 {
        "1"
    } else if d == 2 {
        "2"
    } else if d == 3 {
        "3"
    } else if d == 4 {
        "4"
    } else if d == 5 {
        "5"
    } else if d == 6 {
        "6"
    } else if d == 7 {
        "7"
    } else if d == 8 {
        "8"
    } else {
        "9"
    }
}

/// The decimal text of a number: its digits, most significant first, with
/// no leading zero.
pub open spec fn number_text(n: u64) -> Seq<char>
    decreases n,
{
    if n < 10 {
        digit_str(n)@
    } else {
        number_text(n / 10) + digit_str(n % 10)@
    }
}

/// The decimal text of a number.
pub fn u64_text(n: u64) -> (r: String)
    ensures
        r@ == number_text(n),
    decreases n,
{
    if n < 10 {
        String::from_str(digit_text(n))
    } else {
        u64_text(n / 10).concat(digit_text(n % 10))
    }
}

} // verus!
