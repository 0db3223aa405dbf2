//! Price derivation: the ratio of the two legs of a swap, each rescaled by
//! its token's decimals, as a fixed-point decimal.

use crate::amount::{amount_limit, lemma_pow10_monotonic, pow10, Amount};
use vstd::prelude::*;

verus! {

/// Number of fractional decimal digits that a [`Price`] carries.
pub const PRICE_DECIMALS: u32 = 18;

/// Why a price could not be derived.
#[derive(Clone, Copy, Debug, PartialEq, Eq, Structural)]
pub enum PriceError {
    /// The amount paid in is zero.
    DivideByZero,
    /// A rescaled leg does not fit in 256 bits.
    Overflow,
}

/// A fixed-point decimal: `scaled` counts units of ten to the power
/// minus [`PRICE_DECIMALS`].
#[derive(Clone, Copy, Debug, PartialEq, Eq, Structural)]
pub struct Price {
    pub scaled: Amount,
}

impl View for Price {
    type V = nat;

    open spec fn view(&self) -> nat {
        self.scaled@
    }
}

/// An amount multiplied by ten to the power `exponent`.
pub open spec fn rescaled(amount: nat, exponent: nat) -> nat {
    amount * pow10(exponent)
}

/// The leg received, rescaled by the decimals of the token paid in and by
/// the price's own precision.
pub open spec fn price_numerator(amount_out: nat, decimals_in: u8) -> nat {
    rescaled(amount_out, decimals_in as nat + PRICE_DECIMALS as nat)
}

/// The leg paid in, rescaled by the decimals of the token received.
pub open spec fn price_denominator(amount_in: nat, decimals_out: u8) -> nat {
    rescaled(amount_in, decimals_out as nat)
}

/// The price of a swap in units of ten to the power minus
/// [`PRICE_DECIMALS`], rounded down, or the reason why there is none.
pub open spec fn price_of(amount_in: nat, amount_out: nat, decimals_in: u8, decimals_out: u8)
    -> Result<nat, PriceError> {
    if amount_in == 0 {
        Err(PriceError::DivideByZero)
    } else if price_numerator(amount_out, decimals_in) >= amount_limit() || price_denominator(
        amount_in,
        decimals_out,
    ) >= amount_limit() {
        Err(PriceError::Overflow)
    } else {
        Ok(price_numerator(amount_out, decimals_in) / price_denominator(amount_in, decimals_out))
    }
}

/// Multiplies an amount by ten to the power `exponent`, where the product
/// fits in 256 bits.
pub fn rescale(amount: Amount, exponent: u32) -> (r: Option<Amount>)
    ensures
        r is Some <==> rescaled(amount@, exponent as nat) < amount_limit(),
        r matches Some(p) ==> p@ == rescaled(amount@, exponent as nat),
{
    match Amount::pow10(exponent) {
        Some(p) => amount.checked_mul(p),
        None => {
            if amount.is_zero() {
                assert(0 * pow10(exponent as nat) == 0) by (nonlinear_arith);
                Some(Amount::zero())
            } else {
                assert(amount@ * pow10(exponent as nat) >= amount_limit()) by (nonlinear_arith)
                    requires
                        amount@ >= 1,
                        pow10(exponent as nat) >= amount_limit(),
                ;
                None
            }
        },
    }
}

/// Derives the price of a swap: the amount received per unit paid in, both
/// legs taken in whole tokens.
pub fn price(amount_in: Amount, amount_out: Amount, decimals_in: u8, decimals_out: u8) -> (r:
    Result<Price, PriceError>)
    ensures
        match price_of(amount_in@, amount_out@, decimals_in, decimals_out) {
            Ok(v) => r matches Ok(p) && p@ == v,
            Err(e) => r == Err::<Price, PriceError>(e),
        },
{
    if amount_in.is_zero() {
        return Err(PriceError::DivideByZero);
    }
    let numerator = rescale(amount_out, decimals_in as u32 + PRICE_DECIMALS);
    let denominator = rescale(amount_in, decimals_out as u32);
    match (numerator, denominator) {
        (Some(n), Some(d)) => {
            proof {
                lemma_pow10_monotonic(0, decimals_out as nat);
                assert(amount_in@ * pow10(decimals_out as nat) >= 1) by (nonlinear_arith)
                    requires
                        amount_in@ >= 1,
                        pow10(decimals_out as nat) >= 1,
                ;
            }
            match n.checked_div(d) {
                Some(q) => Ok(Price { scaled: q }),
                None => Err(PriceError::Overflow),
            }
        },
        _ => Err(PriceError::Overflow),
    }
}

} // verus!
