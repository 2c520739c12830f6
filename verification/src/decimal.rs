//! Exact decimal quantities (prices, share counts, amounts) as a signed
//! mantissa and a decimal scale, the representation `rust_decimal` uses.
//! Every operation whose result depends on `rust_decimal`'s rounding rules
//! is delegated to that crate through the trusted items at the end of the file.
use rust_decimal::Decimal;
use vstd::prelude::*;

verus! {

/// Largest mantissa magnitude a decimal can hold (96 bits).
pub open spec fn max_mantissa() -> int {
    79228162514264337593543950335
}

/// Largest decimal scale (number of fractional digits).
pub open spec fn max_scale() -> nat {
    28
}

/// `10^n`.
pub open spec fn pow10(n: nat) -> int
    decreases n,
{
    if n == 0 {
        1
    } else {
        10 * pow10((n - 1) as nat)
    }
}

pub proof fn lemma_pow10_positive(n: nat)
    ensures
        pow10(n) >= 1,
    decreases n,
{
    if n > 0 {
        lemma_pow10_positive((n - 1) as nat);
    }
}

/// A decimal number `mantissa / 10^scale`.
#[derive(Clone, Copy, Debug, PartialEq, Eq)]
pub struct Dec {
    pub mantissa: i128,
    pub scale: u32,
}

impl Dec {
    /// The value stays inside the range `rust_decimal` can represent.
    pub open spec fn wf(self) -> bool {
        &&& -max_mantissa() <= self.mantissa <= max_mantissa()
        &&& self.scale <= max_scale()
    }

    /// The value of the decimal multiplied by `10^28`: an exact integer for
    /// every well-formed decimal, so that decimal values compare as integers.
    pub open spec fn value(self) -> int {
        self.mantissa * pow10((max_scale() - self.scale) as nat)
    }

    /// The decimal `m / 10^s`.
    pub fn new(mantissa: i128, scale: u32) -> (d: Dec)
        ensures
            d.mantissa == mantissa,
            d.scale == scale,
    {
        Dec { mantissa, scale }
    }

    /// Zero with scale 0.
    pub fn zero() -> (d: Dec)
        ensures
            d.wf(),
            d.value() == 0,
            d.mantissa == 0,
            d.scale == 0,
    {
        Dec { mantissa: 0, scale: 0 }
    }
}

/// Value of a whole number `n` in the scaled integer domain of [`Dec::value`].
pub open spec fn whole(n: int) -> int {
    n * pow10(max_scale())
}

/// Sign of `x`: -1, 0 or 1.
pub open spec fn sign(x: int) -> int {
    if x < 0 {
        -1
    } else if x == 0 {
        0
    } else {
        1
    }
}

pub open spec fn parts(d: Dec) -> (i128, u32) {
    (d.mantissa, d.scale)
}

pub open spec fn from_parts(p: (i128, u32)) -> Dec {
    Dec { mantissa: p.0, scale: p.1 }
}

/// A named decimal result, kept when it is a representable decimal.
pub open spec fn representable(p: Option<(i128, u32)>) -> Option<Dec> {
    match p {
        Some(d) => if from_parts(d).wf() {
            Some(from_parts(d))
        } else {
            None
        },
        None => None,
    }
}

pub open spec fn option_parts(d: Option<Dec>) -> Option<(i128, u32)> {
    match d {
        Some(x) => Some(parts(x)),
        None => None,
    }
}

/// The two operands, brought to their common scale, and the exact result of
/// adding or subtracting them, all fit in the 96-bit mantissa.
pub open spec fn aligned_fit(a: Dec, b: Dec, exact: int) -> bool {
    let s: nat = if a.scale >= b.scale { a.scale as nat } else { b.scale as nat };
    let unit = pow10((max_scale() - s) as nat);
    &&& -max_mantissa() * unit <= a.value() <= max_mantissa() * unit
    &&& -max_mantissa() * unit <= b.value() <= max_mantissa() * unit
    &&& -max_mantissa() * unit <= exact <= max_mantissa() * unit
}

/// What `rust_decimal`'s `checked_sub` returns on `m1/10^s1` and `m2/10^s2`,
/// as a mantissa and a scale.
pub uninterp spec fn decimal_checked_sub(m1: i128, s1: u32, m2: i128, s2: u32) -> Option<(i128, u32)>;

/// What `rust_decimal`'s `checked_mul` returns.
pub uninterp spec fn decimal_checked_mul(m1: i128, s1: u32, m2: i128, s2: u32) -> Option<(i128, u32)>;

/// What `rust_decimal`'s `checked_div` returns.
pub uninterp spec fn decimal_checked_div(m1: i128, s1: u32, m2: i128, s2: u32) -> Option<(i128, u32)>;

/// Compares two decimals by value with `rust_decimal`'s `Ord::cmp`, which
/// brings both operands to a common scale before comparing: the result is the
/// sign of the difference of the values (-1, 0, 1).
#[verifier::external_body]
pub(crate) fn dec_compare(a: &Dec, b: &Dec) -> (r: i8)
    requires
        a.wf(),
        b.wf(),
    ensures
        r == sign(a.value() - b.value()),
{
    let x = Decimal::from_i128_with_scale(a.mantissa, a.scale);
    let y = Decimal::from_i128_with_scale(b.mantissa, b.scale);
    match x.cmp(&y) {
        std::cmp::Ordering::Less => -1,
        std::cmp::Ordering::Equal => 0,
        std::cmp::Ordering::Greater => 1,
    }
}

/// `rust_decimal`'s `checked_sub`. Claimed of it: the result is a
/// representable decimal; when both operands are non-negative it never
/// overflows (the difference is no larger than the larger operand); its sign
/// is that of the exact difference (it is exact whenever it fits in 96 bits,
/// and it is rounded only when it is too large for them, which keeps it far
/// from zero); and when both operands and the exact difference fit at the
/// larger of the two scales, no rounding happens and the result is the exact
/// difference. Beyond that the result is only named.
#[verifier::external_body]
pub(crate) fn dec_checked_sub(a: &Dec, b: &Dec) -> (r: Option<Dec>)
    requires
        a.wf(),
        b.wf(),
    ensures
        option_parts(r) == decimal_checked_sub(a.mantissa, a.scale, b.mantissa, b.scale),
        r matches Some(x) ==> x.wf(),
        a.value() >= 0 && b.value() >= 0 ==> r is Some,
        r matches Some(x) ==> sign(x.value()) == sign(a.value() - b.value()),
        aligned_fit(*a, *b, a.value() - b.value()) ==> r is Some && r->0.value() == a.value()
            - b.value(),
{
    let x = Decimal::from_i128_with_scale(a.mantissa, a.scale);
    let y = Decimal::from_i128_with_scale(b.mantissa, b.scale);
    match x.checked_sub(y) {
        Some(d) => Some(Dec { mantissa: d.mantissa(), scale: d.scale() }),
        None => None,
    }
}

/// `rust_decimal`'s `checked_mul`. Claimed of it: the result is
/// representable; when the product of the mantissas fits in 96 bits and the
/// scales add up to at most 28, the product is exact (mantissas multiplied,
/// scales added). Otherwise the result is only named.
#[verifier::external_body]
pub(crate) fn dec_checked_mul(a: &Dec, b: &Dec) -> (r: Option<Dec>)
    requires
        a.wf(),
        b.wf(),
    ensures
        option_parts(r) == decimal_checked_mul(a.mantissa, a.scale, b.mantissa, b.scale),
        r matches Some(x) ==> x.wf(),
        (-max_mantissa() <= a.mantissa * b.mantissa <= max_mantissa() && a.scale + b.scale
            <= max_scale()) ==> r is Some && r->0.value() == a.mantissa * b.mantissa * pow10(
            (max_scale() - a.scale - b.scale) as nat),
{
    let x = Decimal::from_i128_with_scale(a.mantissa, a.scale);
    let y = Decimal::from_i128_with_scale(b.mantissa, b.scale);
    match x.checked_mul(y) {
        Some(d) => Some(Dec { mantissa: d.mantissa(), scale: d.scale() }),
        None => None,
    }
}

/// `rust_decimal`'s `checked_div`: `None` on a zero divisor (as its
/// documentation says); the quotient, rounded to the available precision, is
/// only named.
#[verifier::external_body]
pub(crate) fn dec_checked_div(a: &Dec, b: &Dec) -> (r: Option<Dec>)
    requires
        a.wf(),
        b.wf(),
    ensures
        option_parts(r) == decimal_checked_div(a.mantissa, a.scale, b.mantissa, b.scale),
        r matches Some(x) ==> x.wf(),
        b.value() == 0 ==> r is None,
{
    let x = Decimal::from_i128_with_scale(a.mantissa, a.scale);
    let y = Decimal::from_i128_with_scale(b.mantissa, b.scale);
    match x.checked_div(y) {
        Some(d) => Some(Dec { mantissa: d.mantissa(), scale: d.scale() }),
        None => None,
    }
}

/// `10^(a + b) = 10^a * 10^b`.
pub proof fn lemma_pow10_add(a: nat, b: nat)
    ensures
        pow10(a + b) == pow10(a) * pow10(b),
    decreases a,
{
    if a > 0 {
        lemma_pow10_add((a - 1) as nat, b);
        assert(pow10(a + b) == 10 * pow10((a - 1 + b) as nat));
        assert(10 * (pow10((a - 1) as nat) * pow10(b)) == (10 * pow10((a - 1) as nat)) * pow10(b))
            by (nonlinear_arith);
    }
}

/// Dividing both sides by the same positive factor keeps the quotient.
proof fn lemma_div_cancel(m: int, d: int, c: int)
    requires
        d > 0,
        c > 0,
    ensures
        (m * c) / (d * c) == m / d,
{
    let q = m / d;
    let r = m % d;
    vstd::arithmetic::div_mod::lemma_fundamental_div_mod(m, d);
    assert(d * q == q * d) by (nonlinear_arith);
    assert(m == q * d + r && 0 <= r < d);
    assert(m * c == q * (d * c) + r * c && 0 <= r * c < d * c) by (nonlinear_arith)
        requires
            m == q * d + r,
            0 <= r < d,
            c > 0,
    ;
    vstd::arithmetic::div_mod::lemma_fundamental_div_mod_converse(m * c, d * c, q, r * c);
}

/// A decimal's value divided by `10^28` (rounded down) is its mantissa
/// divided by `10^scale` (rounded down).
pub proof fn lemma_whole_part(a: Dec)
    requires
        a.wf(),
    ensures
        a.value() / pow10(max_scale()) == a.mantissa as int / pow10(a.scale as nat),
{
    let s = a.scale as nat;
    let k = (max_scale() - s) as nat;
    lemma_pow10_add(s, k);
    lemma_pow10_positive(s);
    lemma_pow10_positive(k);
    lemma_div_cancel(a.mantissa as int, pow10(s), pow10(k));
}

/// A quotient by a power of ten no larger than the dividend in magnitude.
pub proof fn lemma_div_pow10_bound(m: int, s: nat)
    requires
        -max_mantissa() <= m <= max_mantissa(),
    ensures
        -max_mantissa() <= m / pow10(s) <= max_mantissa(),
{
    lemma_pow10_positive(s);
    let p = pow10(s);
    assert(-max_mantissa() <= m / p <= max_mantissa()) by (nonlinear_arith)
        requires
            p >= 1,
            -max_mantissa() <= m <= max_mantissa(),
    {
        assert(m / p <= m || m < 0);
    }
}

/// What `rust_decimal`'s `floor` returns, as a mantissa and a scale: the
/// largest whole number not above the value, at scale 0.
pub open spec fn decimal_floor(m: i128, s: u32) -> (i128, u32) {
    ((m as int / pow10(s as nat)) as i128, 0)
}

/// `rust_decimal`'s `floor`: a value already at scale 0 comes back as it
/// is; otherwise the fraction is cut off and, for a negative value with a
/// fraction, one is subtracted; the result has scale 0.
#[verifier::external_body]
fn decimal_floor_call(a: &Dec) -> (r: Dec)
    requires
        a.wf(),
    ensures
        parts(r) == decimal_floor(a.mantissa, a.scale),
{
    let d = Decimal::from_i128_with_scale(a.mantissa, a.scale).floor();
    Dec { mantissa: d.mantissa(), scale: d.scale() }
}

/// The largest whole number not above a decimal.
pub(crate) fn dec_floor(a: &Dec) -> (r: Dec)
    requires
        a.wf(),
    ensures
        parts(r) == decimal_floor(a.mantissa, a.scale),
        r.wf(),
        r.value() == whole(a.value() / pow10(max_scale())),
{
    let r = decimal_floor_call(a);
    proof {
        lemma_div_pow10_bound(a.mantissa as int, a.scale as nat);
        lemma_whole_part(*a);
    }
    r
}

/// `value / 10^28` rounded toward zero: the whole part of a decimal.
pub open spec fn trunc_whole(v: int) -> int {
    if v >= 0 {
        v / pow10(max_scale())
    } else {
        -((-v) / pow10(max_scale()))
    }
}

/// `value / 10^28` rounded to the nearest whole number, halves to the even
/// neighbour.
pub open spec fn round_half_even(v: int) -> int {
    let p = pow10(max_scale());
    let q = v / p;
    let rem = v - q * p;
    if 2 * rem < p {
        q
    } else if 2 * rem > p {
        q + 1
    } else if q % 2 == 0 {
        q
    } else {
        q + 1
    }
}

/// The negation of a decimal: the sign flips, the scale stays.
pub fn dec_neg(a: &Dec) -> (r: Dec)
    requires
        a.wf(),
    ensures
        r.wf(),
        r.mantissa == -a.mantissa,
        r.scale == a.scale,
        r.value() == -a.value(),
{
    let r = Dec { mantissa: -a.mantissa, scale: a.scale };
    proof {
        let p = pow10((max_scale() - a.scale) as nat);
        let m = a.mantissa as int;
        assert((-m) * p == -(m * p)) by (nonlinear_arith);
    }
    r
}

/// What `rust_decimal`'s `checked_add` returns.
pub uninterp spec fn decimal_checked_add(m1: i128, s1: u32, m2: i128, s2: u32) -> Option<(i128, u32)>;

/// `rust_decimal`'s `checked_add`. Claimed of it: the result is
/// representable; its sign is that of the exact sum (as for `checked_sub`,
/// which shares its code); and when both operands and the exact sum fit at
/// the larger of the two scales no rounding happens and the result is the
/// exact sum. Beyond that the result is only named.
#[verifier::external_body]
pub(crate) fn dec_checked_add(a: &Dec, b: &Dec) -> (r: Option<Dec>)
    requires
        a.wf(),
        b.wf(),
    ensures
        option_parts(r) == decimal_checked_add(a.mantissa, a.scale, b.mantissa, b.scale),
        r matches Some(x) ==> x.wf(),
        r matches Some(x) ==> sign(x.value()) == sign(a.value() + b.value()),
        aligned_fit(*a, *b, a.value() + b.value()) ==> r is Some && r->0.value() == a.value()
            + b.value(),
{
    let x = Decimal::from_i128_with_scale(a.mantissa, a.scale);
    let y = Decimal::from_i128_with_scale(b.mantissa, b.scale);
    match x.checked_add(y) {
        Some(d) => Some(Dec { mantissa: d.mantissa(), scale: d.scale() }),
        None => None,
    }
}

/// What `rust_decimal`'s `round` returns, as mantissa and scale: the
/// nearest whole number, halves to the even neighbour, at scale 0.
pub open spec fn decimal_round(m: i128, s: u32) -> (i128, u32) {
    (round_half_even(m * pow10((max_scale() - s) as nat)) as i128, 0)
}

proof fn lemma_round_bound(a: Dec)
    requires
        a.wf(),
    ensures
        -max_mantissa() <= round_half_even(a.value()) <= max_mantissa(),
{
    let p = pow10(max_scale());
    let v = a.value();
    let q = v / p;
    let rem = v - q * p;
    lemma_pow10_positive(max_scale());
    lemma_whole_part(a);
    lemma_div_pow10_bound(a.mantissa as int, a.scale as nat);
    assert(0 <= rem < p) by (nonlinear_arith)
        requires
            p >= 1,
            q == v / p,
            rem == v - q * p,
    ;
    if a.scale == 0 {
        assert(pow10((max_scale() - 0) as nat) == p);
        assert(v == a.mantissa * p);
        assert(rem == 0) by (nonlinear_arith)
            requires
                p >= 1,
                v == a.mantissa * p,
                q == v / p,
                rem == v - q * p,
        {
            vstd::arithmetic::div_mod::lemma_fundamental_div_mod_converse(v, p, a.mantissa as int, 0);
        }
    } else {
        let s = a.scale as nat;
        lemma_pow10_positive((s - 1) as nat);
        assert(pow10(s) == 10 * pow10((s - 1) as nat));
        assert(-max_mantissa() < q < max_mantissa()) by (nonlinear_arith)
            requires
                q == a.mantissa as int / pow10(s),
                pow10(s) >= 10,
                -max_mantissa() <= a.mantissa <= max_mantissa(),
        {
            assert(q <= a.mantissa / 10 || a.mantissa < 0);
        }
    }
}

/// `rust_decimal`'s `round` (`round_dp(0)`): bankers rounding to a whole
/// number ("Bankers Rounding", as its documentation says), at scale 0.
#[verifier::external_body]
fn decimal_round_call(a: &Dec) -> (r: Dec)
    requires
        a.wf(),
    ensures
        parts(r) == decimal_round(a.mantissa, a.scale),
{
    let d = Decimal::from_i128_with_scale(a.mantissa, a.scale).round();
    Dec { mantissa: d.mantissa(), scale: d.scale() }
}

/// The nearest whole number to a decimal, halves to the even neighbour.
pub(crate) fn dec_round(a: &Dec) -> (r: Dec)
    requires
        a.wf(),
    ensures
        parts(r) == decimal_round(a.mantissa, a.scale),
        r.wf(),
        r.value() == whole(round_half_even(a.value())),
{
    let r = decimal_round_call(a);
    proof {
        lemma_round_bound(*a);
    }
    r
}

/// `i64::try_from` on a decimal (`rust_decimal`'s `to_i64`): the whole part,
/// rounded toward zero, when it fits in an `i64`.
#[verifier::external_body]
pub(crate) fn dec_to_i64(a: &Dec) -> (r: Option<i64>)
    requires
        a.wf(),
    ensures
        (i64::MIN <= trunc_whole(a.value()) <= i64::MAX) <==> r is Some,
        r matches Some(x) ==> x == trunc_whole(a.value()),
{
    match i64::try_from(Decimal::from_i128_with_scale(a.mantissa, a.scale)) {
        Ok(x) => Some(x),
        Err(_) => None,
    }
}

/// What `Decimal::from_str` makes of a text, as mantissa and scale.
pub uninterp spec fn decimal_parse(s: Seq<char>) -> Option<(i128, u32)>;

/// `Decimal::from_str`: the parse of the text is named
/// [`decimal_parse`]; a parsed decimal is representable.
#[verifier::external_body]
pub(crate) fn parse_decimal(s: &String) -> (r: Option<Dec>)
    ensures
        option_parts(r) == decimal_parse(s@),
        r matches Some(x) ==> x.wf(),
{
    match <Decimal as std::str::FromStr>::from_str(s.as_str()) {
        Ok(d) => Some(Dec { mantissa: d.mantissa(), scale: d.scale() }),
        Err(_) => None,
    }
}

} // verus!
