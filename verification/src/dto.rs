//! Request and response shapes for services that wrap the engine.
//!
//! The engine itself defines no wire format; these are the plain value
//! shapes a transport layer exchanges with it.  A serialization layer
//! lives outside this crate and converts to and from these types.

use vstd::prelude::*;

use crate::utils::Numeric;

verus! {

/// Identifier of one market instance held by a service.
#[derive(Clone, Copy, Debug, PartialEq, Eq, Structural, Hash)]
pub struct MarketId(pub u64);

/// Ask the price a purchase vector would cost, without executing it.
#[derive(Clone, Debug)]
pub struct GetPriceForPurchase {
    pub purchase_vector: Vec<Numeric>,
}

/// Ask the per-outcome prices at the current point.
#[derive(Clone, Debug, PartialEq, Eq, Structural)]
pub struct GetPricesAtThePoint {}

/// Execute a purchase.
#[derive(Clone, Debug)]
pub struct Purchase {
    pub purchase_vector: Vec<Numeric>,
}

} // verus!
