use vstd::prelude::*;

use crate::pallet::Pallet;

verus! {

/// 10^18, the fixed-point representation of 100%.
pub const PERCENTAGE_FACTOR: u128 = 1_000_000_000_000_000_000;

/// `min(v, u128::MAX)`.
pub open spec fn saturate_u128(v: int) -> int {
    if v > u128::MAX as int {
        u128::MAX as int
    } else {
        v
    }
}

/// `x·y / 10^18`, truncated, saturated at `u128::MAX`; zero when either operand is zero.
pub open spec fn spec_percent_mul(x: int, y: int) -> int {
    if x == 0 || y == 0 {
        0
    } else {
        saturate_u128((x * y) / (PERCENTAGE_FACTOR as int))
    }
}

/// `x·10^18 / y`, truncated, saturated at `u128::MAX`; zero when either operand is zero.
pub open spec fn spec_percent_div(x: int, y: int) -> int {
    if x == 0 || y == 0 {
        0
    } else {
        saturate_u128((x * (PERCENTAGE_FACTOR as int)) / y)
    }
}

/// A 256-bit unsigned value, as its high and low 128-bit halves.
#[derive(Debug, Clone, Copy, PartialEq, Eq, Structural)]
pub struct WideU256 {
    pub high: u128,
    pub low: u128,
}

/// 2^64.
pub const WORD: u128 = 0x1_0000_0000_0000_0000;

impl WideU256 {
    pub open spec fn value(self) -> int {
        self.high as int * 0x1_0000_0000_0000_0000_0000_0000_0000_0000 + self.low as int
    }
}

/// 2^256, one more than the largest 256-bit value.
pub open spec fn two_pow_256() -> int {
    (0x1_0000_0000_0000_0000_0000_0000_0000_0000 * 0x1_0000_0000_0000_0000_0000_0000_0000_0000) as int
}

/// The value of four 64-bit words, least significant first.
pub open spec fn words_value(w: [u64; 4]) -> int {
    w[0] as int + w[1] as int * 0x1_0000_0000_0000_0000 + w[2] as int * 0x1_0000_0000_0000_0000_0000_0000_0000_0000 + w[3] as int * 0x1_0000_0000_0000_0000_0000_0000_0000_0000_0000_0000_0000_0000
}

/// Relies on sp_core::U256: a value is its four 64-bit words, least significant first;
/// `checked_mul` gives no value exactly when the product needs more than 256 bits, and
/// `checked_div` gives no value exactly when the divisor is zero, and truncates otherwise.
#[verifier::external_body]
fn wide_checked_mul_div(x: [u64; 4], y: [u64; 4], z: [u64; 4]) -> (r: Option<[u64; 4]>)
    ensures
        r is Some == (words_value(x) * words_value(y) < two_pow_256() && words_value(z) != 0),
        r matches Some(q) ==> words_value(q) == words_value(x) * words_value(y) / words_value(z),
{
    match sp_core::U256(x).checked_mul(sp_core::U256(y)) {
        Some(p) => match p.checked_div(sp_core::U256(z)) {
            Some(q) => Some(q.0),
            None => None,
        },
        None => None,
    }
}

/// The words of a wide value, least significant first.
fn words_of(v: WideU256) -> (w: [u64; 4])
    ensures
        words_value(w) == v.value(),
{
    let w = [
        (v.low % WORD) as u64,
        (v.low / WORD) as u64,
        (v.high % WORD) as u64,
        (v.high / WORD) as u64,
    ];
    assert(v.low as int == (v.low / WORD) as int * 0x1_0000_0000_0000_0000 + (v.low % WORD) as int);
    assert(v.high as int == (v.high / WORD) as int * 0x1_0000_0000_0000_0000 + (v.high % WORD) as int);
    assert(words_value(w) == v.value()) by (nonlinear_arith)
        requires
            v.low as int == w[1] as int * 0x1_0000_0000_0000_0000 + w[0] as int,
            v.high as int == w[3] as int * 0x1_0000_0000_0000_0000 + w[2] as int,
            v.value() == v.high as int * 0x1_0000_0000_0000_0000_0000_0000_0000_0000 + v.low as int,
            words_value(w) == w[0] as int + w[1] as int * 0x1_0000_0000_0000_0000 + w[2] as int * 0x1_0000_0000_0000_0000_0000_0000_0000_0000 + w[3] as int * 0x1_0000_0000_0000_0000_0000_0000_0000_0000_0000_0000_0000_0000,
    ;
    w
}

/// The wide value of four words, least significant first.
fn from_words(w: [u64; 4]) -> (r: WideU256)
    ensures
        r.value() == words_value(w),
{
    let high = (w[3] as u128) * WORD + w[2] as u128;
    let low = (w[1] as u128) * WORD + w[0] as u128;
    let r = WideU256 { high, low };
    assert(r.value() == words_value(w)) by (nonlinear_arith)
        requires
            high as int == w[3] as int * 0x1_0000_0000_0000_0000 + w[2] as int,
            low as int == w[1] as int * 0x1_0000_0000_0000_0000 + w[0] as int,
            r.value() == high as int * 0x1_0000_0000_0000_0000_0000_0000_0000_0000 + low as int,
            words_value(w) == w[0] as int + w[1] as int * 0x1_0000_0000_0000_0000 + w[2] as int * 0x1_0000_0000_0000_0000_0000_0000_0000_0000 + w[3] as int * 0x1_0000_0000_0000_0000_0000_0000_0000_0000_0000_0000_0000_0000,
    ;
    r
}

/// `a·b / c`, truncated, computed at full width.
fn mul_div_wide(a: u128, b: u128, c: u128) -> (r: WideU256)
    requires
        c > 0,
    ensures
        r.value() == (a as int * b as int) / (c as int),
{
    let x = WideU256 { high: 0, low: a };
    let y = WideU256 { high: 0, low: b };
    let z = WideU256 { high: 0, low: c };
    assert((a as int) * (b as int) < two_pow_256()) by (nonlinear_arith)
        requires
            a <= u128::MAX,
            b <= u128::MAX,
    ;
    match wide_checked_mul_div(words_of(x), words_of(y), words_of(z)) {
        Some(q) => from_words(q),
        None => {
            assert(false);
            WideU256 { high: 0, low: 0 }
        },
    }
}

/// The value of a wide quotient as a u128, saturated at `u128::MAX`.
fn saturating_low(q: WideU256) -> (r: u128)
    ensures
        r as int == saturate_u128(q.value()),
{
    if q.high == 0 {
        q.low
    } else {
        assert(q.value() > u128::MAX as int) by (nonlinear_arith)
            requires
                q.high >= 1,
                q.value() == q.high as int * 0x1_0000_0000_0000_0000_0000_0000_0000_0000
                    + q.low as int,
        ;
        u128::MAX
    }
}

impl Pallet {
    /// `x` is a value, `y` a percentage scaled by 10^18.
    pub fn percent_mul(x: u128, y: u128) -> (r: u128)
        ensures
            r as int == spec_percent_mul(x as int, y as int),
    {
        if x == 0 || y == 0 {
            return 0;
        }
        saturating_low(mul_div_wide(x, y, PERCENTAGE_FACTOR))
    }

    /// `x` is a value, `y` a percentage scaled by 10^18; a zero divisor gives zero.
    pub fn percent_div(x: u128, y: u128) -> (r: u128)
        ensures
            r as int == spec_percent_div(x as int, y as int),
    {
        if x == 0 || y == 0 {
            return 0;
        }
        saturating_low(mul_div_wide(x, PERCENTAGE_FACTOR, y))
    }

    pub fn percentage_factor_as_u128() -> (r: u128)
        ensures
            r == PERCENTAGE_FACTOR,
    {
        PERCENTAGE_FACTOR
    }

    /// `x·y / z` at full width; `None` when `z` is zero or the product needs more than 256
    /// bits.
    pub fn checked_mul_div(x: WideU256, y: WideU256, z: WideU256) -> (r: Option<WideU256>)
        ensures
            r.is_some() == (z.value() != 0 && x.value() * y.value() < two_pow_256()),
            r matches Some(q) ==> q.value() == x.value() * y.value() / z.value(),
    {
        if z.high == 0 && z.low == 0 {
            return None;
        }
        match wide_checked_mul_div(words_of(x), words_of(y), words_of(z)) {
            Some(q) => Some(from_words(q)),
            None => None,
        }
    }
}

/// Multiplying by zero, on either side, gives zero; multiplying by 100% gives the operand back;
/// and the result is never more than `u128::MAX`, whatever the operands.
pub proof fn lemma_percent_mul_identities(x: u128, y: u128)
    ensures
        spec_percent_mul(x as int, 0) == 0,
        spec_percent_mul(0, y as int) == 0,
        spec_percent_mul(PERCENTAGE_FACTOR as int, y as int) == y as int,
        0 <= spec_percent_mul(x as int, y as int) <= u128::MAX as int,
{
    let f = PERCENTAGE_FACTOR as int;
    let yi = y as int;
    assert((f * yi) / f == yi) by (nonlinear_arith)
        requires
            f > 0,
    ;
    assert(x as int * y as int >= 0) by (nonlinear_arith);
    assert((x as int * y as int) / f >= 0) by (nonlinear_arith)
        requires
            f > 0,
            x as int * y as int >= 0,
    ;
}

} // verus!
