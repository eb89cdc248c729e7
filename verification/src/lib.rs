//! Automated market maker (AMM) pricing and execution core.
//!
//! Two independent families of market maker share this crate:
//!
//! 1. Cost-function market scoring rules (`cost_function`): Hanson's
//!    logarithmic market scoring rule (LMSR), its log-sum-exp-stabilized
//!    evaluation, and the liquidity-sensitive variant (LS-LMSR), pricing a
//!    fixed set of mutually exclusive outcomes.
//!
//! 2. Constant-function market makers (`cfmm`): a two-asset
//!    constant-product reserve pool (CPMM) pricing swaps between two
//!    fungible assets.
//!
//! All quantities are exact rationals (`rational::Ratio`), so the domain
//! invariants — odds that sum to one, a product of reserves preserved by a
//! trade — hold exactly and are proved, not approximated.  Evaluating the
//! transcendental parts of the cost function (exponentials and logarithms)
//! is left to the caller: this crate prepares the exact exponent arguments,
//! both naively scaled and log-sum-exp shifted.

use vstd::prelude::*;

pub mod rational;
pub mod utils;
pub mod cost_function;
pub mod cfmm;
pub mod dto;

use crate::rational::Ratio;

verus! {

/// Opaque 256-bit asset identifier, as two 128-bit halves.  It has no
/// structure beyond identity: two assets are the same asset exactly when
/// their identifiers are equal.
#[derive(Clone, Copy, Debug, PartialEq, Eq, Structural, PartialOrd, Ord, Hash)]
pub struct AssetId {
    pub hi: u128,
    pub lo: u128,
}

/// One asset held by a market maker: its identity, the exact amount in
/// reserve, and a display ticker.  The amount is kept non-negative
/// (`wf`); arithmetic across two `AssetInfo` values is only meaningful
/// when the identifiers match.
#[derive(Clone, Debug)]
pub struct AssetInfo {
    pub id: AssetId,
    pub amount: Ratio,
    pub ticker: String,
}

impl AssetInfo {
    /// A well-formed asset holds a well-formed, non-negative amount.
    pub open spec fn wf(&self) -> bool {
        &&& self.amount.wf()
        &&& self.amount@.num >= 0
    }

    /// Build an asset record; rejects a negative amount.
    pub fn new(id: AssetId, amount: Ratio, ticker: String) -> (r: Option<AssetInfo>)
        requires
            amount.wf(),
        ensures
            match r {
                Some(a) => {
                    &&& a.wf()
                    &&& a.id == id
                    &&& a.amount == amount
                    &&& amount@.num >= 0
                },
                None => amount@.num < 0,
            },
    {
        if amount.is_negative() {
            None
        } else {
            Some(AssetInfo { id, amount, ticker })
        }
    }
}

} // verus!

