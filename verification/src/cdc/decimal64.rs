//! Decimals as the analytics store keeps them: whole multiples of 10^-8 in an
//! `i64`; and decimals as the change events carry them: as text.
use crate::decimal::{
    lemma_pow10_add,
    Dec, dec_checked_mul, dec_round, dec_to_i64, decimal_checked_mul, max_mantissa, max_scale, parse_decimal,
    pow10, representable, round_half_even, trunc_whole, whole, decimal_parse, option_parts,
};
use vstd::prelude::*;

verus! {

/// Digits kept after the decimal point.
pub const SCALE: u32 = 8;

/// Why a decimal cannot be stored.
#[derive(Clone, Copy, Debug, PartialEq, Eq, Structural)]
pub enum Decimal64Error {
    /// Scaling by 10^8 overflowed the decimal.
    Overflow,
    /// The scaled value does not fit in an `i64`.
    OutOfRange,
}

/// The stored form of a decimal: its value times 10^8, rounded to the
/// nearest whole number (halves to even), when the scaling and the result
/// are representable.
pub open spec fn stored(value: Dec) -> Result<i64, Decimal64Error> {
    match representable(decimal_checked_mul(value.mantissa, value.scale, 100000000, 0)) {
        None => Err(Decimal64Error::Overflow),
        Some(p) => {
            let n = round_half_even(p.value());
            if i64::MIN <= n <= i64::MAX {
                Ok(n as i64)
            } else {
                Err(Decimal64Error::OutOfRange)
            }
        },
    }
}

proof fn lemma_trunc_whole(n: int)
    ensures
        trunc_whole(whole(n)) == n,
{
    let p = pow10(max_scale());
    crate::decimal::lemma_pow10_positive(max_scale());
    if n >= 0 {
        assert((n * p) / p == n) by (nonlinear_arith)
            requires
                p >= 1,
        ;
        assert(n * p >= 0) by (nonlinear_arith)
            requires
                p >= 1,
                n >= 0,
        ;
    } else {
        assert(((-n) * p) / p == -n) by (nonlinear_arith)
            requires
                p >= 1,
        ;
        assert(n * p < 0) by (nonlinear_arith)
            requires
                p >= 1,
                n < 0,
        ;
        assert(-(n * p) == (-n) * p) by (nonlinear_arith);
    }
}

proof fn lemma_round_whole(k: int)
    ensures
        round_half_even(k * pow10(max_scale())) == k,
{
    let p = pow10(max_scale());
    crate::decimal::lemma_pow10_positive(max_scale());
    assert((k * p) / p == k) by (nonlinear_arith)
        requires
            p >= 1,
    ;
}

/// The stored form of a decimal with at most 8 fractional digits whose
/// mantissa times 10^8 fits: the decimal itself in units of 10^-8, exactly.
pub open spec fn exact_units(value: Dec) -> int {
    value.mantissa * pow10((SCALE - value.scale) as nat)
}

/// Scales a decimal for storage (see [`stored`]). A decimal with at most
/// eight fractional digits is stored without loss whenever its mantissa
/// times 10^8 is representable and the result fits in an `i64`.
pub fn serialize(value: &Dec) -> (r: Result<i64, Decimal64Error>)
    requires
        value.wf(),
    ensures
        r == stored(*value),
        (value.scale <= SCALE && -max_mantissa() <= value.mantissa * 100000000 <= max_mantissa()
            && i64::MIN <= exact_units(*value) <= i64::MAX) ==> r == Ok::<i64, Decimal64Error>(
            exact_units(*value) as i64),
{
    let factor = Dec { mantissa: 100000000, scale: 0 };
    let scaled = match dec_checked_mul(value, &factor) {
        Some(p) => p,
        None => return Err(Decimal64Error::Overflow),
    };
    let rounded = dec_round(&scaled);
    proof {
        lemma_trunc_whole(round_half_even(scaled.value()));
        if value.scale <= SCALE && -max_mantissa() <= value.mantissa * 100000000 <= max_mantissa() {
            let s = value.scale as nat;
            let m = value.mantissa as int;
            assert(pow10(8) == 100000000) by {
                reveal_with_fuel(pow10, 9);
            }
            lemma_pow10_add((8 - s) as nat, max_scale());
            lemma_pow10_add(8, (max_scale() - s) as nat);
            assert((8 - s) as nat + max_scale() == 8 + (max_scale() - s) as nat);
            let u = pow10((8 - s) as nat);
            let q = pow10(max_scale());
            let r = pow10((max_scale() - s) as nat);
            assert(scaled.value() == m * 100000000 * r);
            assert(m * 100000000 * r == (m * u) * q) by (nonlinear_arith)
                requires
                    100000000 * r == u * q,
            ;
            lemma_round_whole(m * u);
        }
    }
    match dec_to_i64(&rounded) {
        Some(x) => Ok(x),
        None => Err(Decimal64Error::OutOfRange),
    }
}

/// Reads a decimal from its text (see [`parse_decimal`]).
pub fn deserialize(raw: &String) -> (r: Option<Dec>)
    ensures
        option_parts(r) == decimal_parse(raw@),
        r matches Some(x) ==> x.wf(),
{
    parse_decimal(raw)
}

} // verus!
