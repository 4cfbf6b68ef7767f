use vstd::prelude::*;

use crate::errors::FieldError;
use crate::numeric::{div_pow10, pow10, U256};

verus! {

/// The price-lookup collaborator failed; the cause is never surfaced.
#[derive(Clone, Copy, Debug, PartialEq, Eq, Structural)]
pub struct PriceLookupFailure;

/// A token amount on one side of a swap or transfer: ticker, raw amount,
/// and the reference-currency value once enrichment has succeeded.
#[derive(Debug)]
pub struct TokenQuantity {
    pub ticker: String,
    pub amount: U256,
    pub reference_amount: Option<u128>,
}

/// A swap pairs what was given with what was received; no invariants
/// beyond each side's own.
#[derive(Debug)]
pub struct TokenSwap {
    pub from: TokenQuantity,
    pub to: TokenQuantity,
}

impl TokenQuantity {
    /// Attaches the outcome of a reference-price lookup. Success sets the
    /// reference amount; failure of any kind leaves it unset and is
    /// swallowed, so callers cannot tell "failed" from "never looked up".
    pub fn assign_reference_price(&mut self, lookup: Result<u128, PriceLookupFailure>)
        ensures
            final(self).ticker == old(self).ticker,
            final(self).amount == old(self).amount,
            final(self).reference_amount == (match lookup {
                Ok(v) => Some(v),
                Err(_) => None::<u128>,
            }),
    {
        self.reference_amount = match lookup {
            Ok(v) => Some(v),
            Err(_) => None,
        };
    }
}

/// Scales a raw token amount by its decimal count: floor division by ten
/// to the `decimals`, deliberately discarding the fractional part. A
/// decimal count whose power of ten cannot be computed in the divisor
/// width is rejected as `MalformedNumber` rather than silently wrapped.
pub fn scale_token_amount(amount: U256, decimals: u64) -> (r: Result<U256, FieldError>)
    ensures
        decimals <= 38 ==> (r matches Ok(v) && v.val() == amount.val() / pow10(decimals as nat)),
        decimals > 38 ==> r == Err::<U256, FieldError>(FieldError::MalformedNumber),
        decimals == 0 ==> r == Ok::<U256, FieldError>(amount),
{
    if decimals > 38 {
        return Err(FieldError::MalformedNumber);
    }
    if decimals == 0 {
        proof {
            vstd::arithmetic::div_mod::lemma_div_basics(amount.val() as int);
            assert(pow10(0) == 1);
            assert(amount.val() / pow10(0) == amount.val());
        }
        return Ok(amount);
    }
    Ok(div_pow10(amount, decimals))
}

} // verus!
