//! Fixed-point money values.
//!
//! An [`Amount`] stores a monetary value as a count of ten-thousandths
//! (four fractional digits, the precision that input amounts are
//! normalized to), together with the number of fractional digits the
//! value uses when displayed. Addition and subtraction combine display
//! scales by taking the maximum of the two operands' scales, so the
//! scale of a balance reflects the amounts that flowed into it.

use vstd::prelude::*;

verus! {

use vstd::arithmetic::div_mod::{lemma_add_mod_noop, lemma_sub_mod_noop, lemma_mod_mod,
    lemma_mod_multiples_basic};

/// Number of fractional digits an amount is stored with.
pub const AMOUNT_DIGITS: u32 = 4;

/// Largest magnitude, in ten-thousandths, that an amount may carry.
/// Generous enough for any amount an input row can denote.
pub const AMOUNT_LIMIT: i128 = 1000000000000000000000000000000000;

/// Whether a value in ten-thousandths lies within the representable range.
pub open spec fn fits(v: int) -> bool {
    -(AMOUNT_LIMIT as int) <= v <= AMOUNT_LIMIT as int
}

/// Ten raised to a small exponent; meaningful for exponents up to
/// [`AMOUNT_DIGITS`].
pub open spec fn pow10(e: int) -> int {
    if e <= 0 {
        1
    } else if e == 1 {
        10
    } else if e == 2 {
        100
    } else if e == 3 {
        1000
    } else {
        10000
    }
}

/// A monetary value: `units` ten-thousandths, displayed with `scale`
/// fractional digits.
#[derive(Clone, Copy, Debug, PartialEq, Eq, Structural)]
pub struct Amount {
    /// The value, counted in ten-thousandths.
    pub units: i128,
    /// How many fractional digits the value shows when rendered.
    pub scale: u32,
}

/// The zero amount, displayed without fractional digits.
pub open spec fn amount_zero() -> Amount {
    Amount { units: 0, scale: 0 }
}

/// The display scale of a sum or difference: the larger operand scale.
pub open spec fn scale_max(a: u32, b: u32) -> u32 {
    if a >= b {
        a
    } else {
        b
    }
}

/// The sum of two amounts, at the combined display scale.
pub open spec fn amount_add(a: Amount, b: Amount) -> Amount {
    Amount { units: (a.units + b.units) as i128, scale: scale_max(a.scale, b.scale) }
}

/// The difference of two amounts, at the combined display scale.
pub open spec fn amount_sub(a: Amount, b: Amount) -> Amount {
    Amount { units: (a.units - b.units) as i128, scale: scale_max(a.scale, b.scale) }
}

/// The amount an optional field carries, taking absence as zero.
pub open spec fn amount_or_zero(a: Option<Amount>) -> Amount {
    match a {
        Some(x) => x,
        None => amount_zero(),
    }
}

impl Amount {
    /// A well-formed amount: the scale is at most [`AMOUNT_DIGITS`], the
    /// value is in range, and the value is expressible at its display
    /// scale (the digits below the scale are zero).
    pub open spec fn wf(self) -> bool {
        &&& self.scale <= AMOUNT_DIGITS
        &&& fits(self.units as int)
        &&& self.units as int % pow10(AMOUNT_DIGITS - self.scale) == 0
    }

    /// Builds the amount `mantissa / 10^scale`, mirroring how a decimal
    /// literal with `scale` fractional digits denotes a value.
    pub fn new(mantissa: i128, scale: u32) -> (r: Amount)
        requires
            scale <= AMOUNT_DIGITS,
            fits(mantissa * pow10(AMOUNT_DIGITS - scale)),
        ensures
            r.units == mantissa * pow10(AMOUNT_DIGITS - scale),
            r.scale == scale,
            r.wf(),
    {
        let p = pow10_exec(AMOUNT_DIGITS - scale);
        proof {
            lemma_mod_multiples_basic(mantissa as int, pow10(AMOUNT_DIGITS - scale));
        }
        Amount { units: mantissa * p, scale }
    }

    /// The sum, displayed at the combined scale.
    pub fn add(self, other: Amount) -> (r: Amount)
        requires
            self.wf(),
            other.wf(),
            fits(self.units + other.units),
        ensures
            r == amount_add(self, other),
            r.wf(),
    {
        proof {
            lemma_amount_add_wf(self, other);
        }
        Amount {
            units: self.units + other.units,
            scale: if self.scale >= other.scale {
                self.scale
            } else {
                other.scale
            },
        }
    }

    /// The difference, displayed at the combined scale.
    pub fn sub(self, other: Amount) -> (r: Amount)
        requires
            self.wf(),
            other.wf(),
            fits(self.units - other.units),
        ensures
            r == amount_sub(self, other),
            r.wf(),
    {
        proof {
            lemma_amount_sub_wf(self, other);
        }
        Amount {
            units: self.units - other.units,
            scale: if self.scale >= other.scale {
                self.scale
            } else {
                other.scale
            },
        }
    }

    /// The amount an optional field carries, taking absence as zero.
    pub fn or_zero(a: Option<Amount>) -> (r: Amount)
        ensures
            r == amount_or_zero(a),
    {
        match a {
            Some(x) => x,
            None => Amount { units: 0, scale: 0 },
        }
    }
}

/// Whether a value in ten-thousandths lies within the representable range.
pub fn within_limit(v: i128) -> (r: bool)
    ensures
        r == fits(v as int),
{
    -AMOUNT_LIMIT <= v && v <= AMOUNT_LIMIT
}

/// Ten raised to a small exponent.
fn pow10_exec(e: u32) -> (r: i128)
    requires
        e <= AMOUNT_DIGITS,
    ensures
        r == pow10(e as int),
{
    if e == 0 {
        1
    } else if e == 1 {
        10
    } else if e == 2 {
        100
    } else if e == 3 {
        1000
    } else {
        10000
    }
}

/// A value expressible at scale `s1` is expressible at any coarser
/// display scale `s2 <= s1` of the stored precision.
proof fn lemma_pow10_chain_divides(u: int, e1: int, e2: int)
    requires
        0 <= e1 <= e2 <= AMOUNT_DIGITS,
        u % pow10(e2) == 0,
    ensures
        u % pow10(e1) == 0,
{
    assert(pow10(e2) == pow10(e1) * pow10(e2 - e1));
    lemma_mod_mod(u, pow10(e1), pow10(e2 - e1));
}

/// Adding two well-formed amounts whose sum is in range yields a
/// well-formed amount.
pub proof fn lemma_amount_add_wf(a: Amount, b: Amount)
    requires
        a.wf(),
        b.wf(),
        fits(a.units + b.units),
    ensures
        amount_add(a, b).wf(),
{
    let s = scale_max(a.scale, b.scale);
    let d = pow10(AMOUNT_DIGITS - s);
    lemma_pow10_chain_divides(a.units as int, AMOUNT_DIGITS - s, AMOUNT_DIGITS - a.scale);
    lemma_pow10_chain_divides(b.units as int, AMOUNT_DIGITS - s, AMOUNT_DIGITS - b.scale);
    lemma_add_mod_noop(a.units as int, b.units as int, d);
}

/// Subtracting two well-formed amounts whose difference is in range
/// yields a well-formed amount.
pub proof fn lemma_amount_sub_wf(a: Amount, b: Amount)
    requires
        a.wf(),
        b.wf(),
        fits(a.units - b.units),
    ensures
        amount_sub(a, b).wf(),
{
    let s = scale_max(a.scale, b.scale);
    let d = pow10(AMOUNT_DIGITS - s);
    lemma_pow10_chain_divides(a.units as int, AMOUNT_DIGITS - s, AMOUNT_DIGITS - a.scale);
    lemma_pow10_chain_divides(b.units as int, AMOUNT_DIGITS - s, AMOUNT_DIGITS - b.scale);
    lemma_sub_mod_noop(a.units as int, b.units as int, d);
}

} // verus!
