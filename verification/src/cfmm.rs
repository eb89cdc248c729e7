//! Constant-function market makers.
//!
//! A two-asset reserve pool prices swaps by keeping a trading function
//! constant.  The one implemented variant is the constant-product market
//! maker ([`ConstantProductMarketMaker`]): the product
//! `k = base.amount * quote.amount` is held exactly constant by every
//! trade and only ever increased by funding.

use vstd::prelude::*;

use crate::rational::{
    rat_add, rat_div, rat_eq, rat_fits, rat_lt, rat_mul, rat_sub, rat_zero, Rat, Ratio,
};
use crate::{AssetId, AssetInfo};

verus! {

/// Failure of a constant-function market operation.  Any of these
/// leaves both reserves exactly as they were.
#[derive(Clone, Copy, Debug, PartialEq, Eq, Structural)]
pub enum Error {
    /// The assets handed over do not form a valid pair for this market.
    InvalidAssetCount,
    /// The asset identifier matches neither reserve.
    UnknownAssetId,
    /// The two reserves of a pool must hold distinct assets.
    DuplicateAssetId,
    /// An order or funding amount must be strictly positive.
    NonPositiveAmount,
    /// Filling the order would drive a reserve to zero or below.
    InsufficientReserve,
    /// The exact result does not fit the 64-bit representation.
    AmountOverflow,
}

/// Direction of an order, relative to the asset the order names.
#[derive(Clone, Copy, Debug, PartialEq, Eq, Structural, PartialOrd, Ord, Hash)]
pub enum OrderType {
    Buy,
    Sell,
}

/// Role of a reserve within the pair.
#[derive(Clone, Copy, Debug, PartialEq, Eq, Structural, PartialOrd, Ord, Hash)]
pub enum AssetIndex {
    /// The base asset.
    Zero,
    /// The quote asset.
    One,
}

/// A single swap request: which asset, how much of it, and whether the
/// caller buys it from the pool or sells it to the pool.  Constructed by
/// the caller, validated by the engine, consumed by one trade.
#[derive(Clone, Copy, Debug, PartialEq, Eq, Structural)]
pub struct OrderInfo {
    pub index: AssetIndex,
    pub id: AssetId,
    pub amount: Ratio,
    pub order_type: OrderType,
}

impl OrderInfo {
    /// An order carries a well-formed amount.
    pub open spec fn wf(&self) -> bool {
        self.amount.wf()
    }

    /// Whether the caller buys the named asset from the pool.
    pub fn is_buy(&self) -> (r: bool)
        ensures
            r == (self.order_type == OrderType::Buy),
    {
        matches!(self.order_type, OrderType::Buy)
    }

    /// Assembles an order.
    pub fn new(index: AssetIndex, id: AssetId, amount: Ratio, order_type: OrderType) -> (r:
        OrderInfo)
        ensures
            r == (OrderInfo { index, id, amount, order_type }),
    {
        OrderInfo { index, id, amount, order_type }
    }
}

} // verus!

verus! {

/// The trading invariant: the exact product of the two reserve amounts.
pub open spec fn spec_k(m: ConstantProductMarketMaker) -> Rat {
    rat_mul(m.base_asset.amount@, m.quote_asset.amount@)
}

/// Whether an order's asset identifier names one of the two reserves.
pub open spec fn order_known(m: ConstantProductMarketMaker, o: OrderInfo) -> bool {
    o.id == m.base_asset.id || o.id == m.quote_asset.id
}

/// Whether an order targets the base reserve; the identifier decides,
/// and the base reserve wins when both could match.
pub open spec fn order_targets_base(m: ConstantProductMarketMaker, o: OrderInfo) -> bool {
    o.id == m.base_asset.id
}

/// Current amount of the reserve the order targets.
pub open spec fn target_amount(m: ConstantProductMarketMaker, o: OrderInfo) -> Rat {
    if order_targets_base(m, o) {
        m.base_asset.amount@
    } else {
        m.quote_asset.amount@
    }
}

/// Current amount of the opposite reserve.
pub open spec fn counter_amount(m: ConstantProductMarketMaker, o: OrderInfo) -> Rat {
    if order_targets_base(m, o) {
        m.quote_asset.amount@
    } else {
        m.base_asset.amount@
    }
}

/// The amount the targeted reserve is left with: a buy removes the
/// ordered amount from it, a sell adds it.
pub open spec fn new_target_amount(m: ConstantProductMarketMaker, o: OrderInfo) -> Rat {
    if o.order_type == OrderType::Buy {
        rat_sub(target_amount(m, o), o.amount@)
    } else {
        rat_add(target_amount(m, o), o.amount@)
    }
}

/// The level the opposite reserve must move to so that the product of
/// reserves is unchanged: `k / new_target_amount`.
pub open spec fn quote_level(m: ConstantProductMarketMaker, o: OrderInfo) -> Rat {
    rat_div(spec_k(m), new_target_amount(m, o))
}

/// The counter-asset amount the caller pays (buy) or receives (sell):
/// the distance the opposite reserve moves.
pub open spec fn order_delta(m: ConstantProductMarketMaker, o: OrderInfo) -> Rat {
    if o.order_type == OrderType::Buy {
        rat_sub(quote_level(m, o), counter_amount(m, o))
    } else {
        rat_sub(counter_amount(m, o), quote_level(m, o))
    }
}

/// An order the pool accepts: it names a reserve, its amount is
/// strictly positive, and a buy never drains the targeted reserve to
/// zero or below.
pub open spec fn order_valid(m: ConstantProductMarketMaker, o: OrderInfo) -> bool {
    &&& order_known(m, o)
    &&& o.amount@.num > 0
    &&& (o.order_type == OrderType::Buy ==> rat_lt(o.amount@, target_amount(m, o)))
}

/// Whether the exact intermediate values of quoting an order fit the
/// 64-bit representation.
pub open spec fn order_fits(m: ConstantProductMarketMaker, o: OrderInfo) -> bool {
    &&& rat_fits(spec_k(m))
    &&& rat_fits(new_target_amount(m, o))
    &&& rat_fits(quote_level(m, o))
}

/// UniswapV2-style constant-product market maker over two reserves.
/// Users can fund either reserve, and every trade is bounded by the
/// pool: a reserve can never be drained to zero.
#[derive(Clone, Debug)]
pub struct ConstantProductMarketMaker {
    pub base_asset: AssetInfo,
    pub quote_asset: AssetInfo,
}

impl ConstantProductMarketMaker {
    /// Pool invariant: two well-formed reserves of distinct assets,
    /// both strictly positive.
    pub open spec fn wf(&self) -> bool {
        &&& self.base_asset.wf()
        &&& self.quote_asset.wf()
        &&& self.base_asset.amount@.num > 0
        &&& self.quote_asset.amount@.num > 0
        &&& self.base_asset.id != self.quote_asset.id
    }

    /// Opens a pool; the assets must be distinct and both reserves
    /// strictly positive, so the pool is never observable uninitialized.
    pub fn try_create(base: AssetInfo, quote: AssetInfo) -> (r: Result<
        ConstantProductMarketMaker,
        Error,
    >)
        requires
            base.wf(),
            quote.wf(),
        ensures
            match r {
                Ok(m) => {
                    &&& m.wf()
                    &&& m.base_asset == base
                    &&& m.quote_asset == quote
                },
                Err(Error::DuplicateAssetId) => base.id == quote.id,
                Err(Error::NonPositiveAmount) => {
                    &&& base.id != quote.id
                    &&& (base.amount@.num <= 0 || quote.amount@.num <= 0)
                },
                Err(_) => false,
            },
    {
        if base.id == quote.id {
            return Err(Error::DuplicateAssetId);
        }
        if base.amount.is_zero() || base.amount.is_negative() || quote.amount.is_zero()
            || quote.amount.is_negative() {
            return Err(Error::NonPositiveAmount);
        }
        Ok(ConstantProductMarketMaker { base_asset: base, quote_asset: quote })
    }

    /// The pool's spot price `base.amount / quote.amount`, exact;
    /// `None` only when the exact quotient pair does not fit the 64-bit
    /// representation.
    pub fn price(&self) -> (r: Option<Ratio>)
        requires
            self.wf(),
        ensures
            match r {
                Some(p) => {
                    &&& p.wf()
                    &&& p@ == rat_div(self.base_asset.amount@, self.quote_asset.amount@)
                },
                None => !rat_fits(rat_div(self.base_asset.amount@, self.quote_asset.amount@)),
            },
    {
        self.base_asset.amount.checked_div(&self.quote_asset.amount)
    }

    /// The reserve a role index names.
    pub fn asset_by_index(&self, index: AssetIndex) -> (r: &AssetInfo)
        ensures
            *r == if index == AssetIndex::Zero {
                self.base_asset
            } else {
                self.quote_asset
            },
    {
        match index {
            AssetIndex::Zero => &self.base_asset,
            AssetIndex::One => &self.quote_asset,
        }
    }

    /// The reserve an asset identifier names, or `UnknownAssetId`.
    pub fn asset_by_id(&self, id: &AssetId) -> (r: Result<&AssetInfo, Error>)
        ensures
            match r {
                Ok(a) => {
                    &&& (*id == self.base_asset.id || *id == self.quote_asset.id)
                    &&& *a == if *id == self.base_asset.id {
                        self.base_asset
                    } else {
                        self.quote_asset
                    }
                },
                Err(e) => {
                    &&& e == Error::UnknownAssetId
                    &&& *id != self.base_asset.id
                    &&& *id != self.quote_asset.id
                },
            },
    {
        if self.base_asset.id == *id {
            Ok(&self.base_asset)
        } else if self.quote_asset.id == *id {
            Ok(&self.quote_asset)
        } else {
            Err(Error::UnknownAssetId)
        }
    }
}

} // verus!

verus! {

/// Multiplication of rational values commutes.
proof fn lemma_rat_mul_comm(a: Rat, b: Rat)
    ensures
        rat_eq(rat_mul(a, b), rat_mul(b, a)),
{
    broadcast use vstd::arithmetic::mul::lemma_mul_is_associative;
    broadcast use vstd::arithmetic::mul::lemma_mul_is_commutative;
}

#[verifier::rlimit(100)]
proof fn lemma_fund_base_k_int(bn: int, bd: int, qn: int, qd: int, xn: int, xd: int)
    requires
        bd >= 1,
        qd >= 1,
        xd >= 1,
        qn >= 1,
        xn >= 1,
    ensures
        (bn * qn) * ((bd * xd) * qd) < ((bn * xd + xn * bd) * qn) * (bd * qd),
{
    broadcast use vstd::arithmetic::mul::lemma_mul_is_associative;
    broadcast use vstd::arithmetic::mul::lemma_mul_is_commutative;
    broadcast use vstd::arithmetic::mul::lemma_mul_is_distributive_add_other_way;
    assert(((bn * xd + xn * bd) * qn) * (bd * qd) == ((bn * xd) * qn) * (bd * qd) + ((xn * bd)
        * qn) * (bd * qd));
    assert((bn * qn) * ((bd * xd) * qd) == ((bn * xd) * qn) * (bd * qd));
    assert(((xn * bd) * qn) * (bd * qd) >= 1) by {
        crate::rational::lemma_pos_product(xn, bd);
        crate::rational::lemma_pos_product(xn * bd, qn);
        crate::rational::lemma_pos_product(bd, qd);
        crate::rational::lemma_pos_product((xn * bd) * qn, bd * qd);
    }
}

#[verifier::rlimit(100)]
proof fn lemma_fund_quote_k_int(bn: int, bd: int, qn: int, qd: int, xn: int, xd: int)
    requires
        bd >= 1,
        qd >= 1,
        xd >= 1,
        bn >= 1,
        xn >= 1,
    ensures
        (bn * qn) * (bd * ((qd * xd))) < (bn * ((qn * xd + xn * qd))) * (bd * qd),
{
    broadcast use vstd::arithmetic::mul::lemma_mul_is_associative;
    broadcast use vstd::arithmetic::mul::lemma_mul_is_commutative;
    broadcast use vstd::arithmetic::mul::lemma_mul_is_distributive_add;
    assert((bn * ((qn * xd + xn * qd))) * (bd * qd) == (bn * (qn * xd)) * (bd * qd) + (bn * (xn
        * qd)) * (bd * qd));
    assert((bn * qn) * (bd * (qd * xd)) == (bn * (qn * xd)) * (bd * qd));
    assert((bn * (xn * qd)) * (bd * qd) >= 1) by {
        crate::rational::lemma_pos_product(xn, qd);
        crate::rational::lemma_pos_product(bn, xn * qd);
        crate::rational::lemma_pos_product(bd, qd);
        crate::rational::lemma_pos_product(bn * (xn * qd), bd * qd);
    }
}

impl ConstantProductMarketMaker {
    /// Resolves an order against the pool and computes, exactly, the
    /// amount the targeted reserve is left with and the level the
    /// opposite reserve must move to.
    fn quote_computation(&self, order: &OrderInfo) -> (r: Result<(Ratio, Ratio), Error>)
        requires
            self.wf(),
            order.wf(),
        ensures
            match r {
                Ok((nt, y)) => {
                    &&& order_valid(*self, *order)
                    &&& order_fits(*self, *order)
                    &&& nt.wf()
                    &&& nt@ == new_target_amount(*self, *order)
                    &&& nt@.num > 0
                    &&& y.wf()
                    &&& y@ == quote_level(*self, *order)
                    &&& y@.num > 0
                },
                Err(Error::UnknownAssetId) => !order_known(*self, *order),
                Err(Error::NonPositiveAmount) => {
                    &&& order_known(*self, *order)
                    &&& order.amount@.num <= 0
                },
                Err(Error::InsufficientReserve) => {
                    &&& order_known(*self, *order)
                    &&& order.amount@.num > 0
                    &&& order.order_type == OrderType::Buy
                    &&& !rat_lt(order.amount@, target_amount(*self, *order))
                },
                Err(Error::AmountOverflow) => {
                    &&& order_valid(*self, *order)
                    &&& !order_fits(*self, *order)
                },
                Err(_) => false,
            },
    {
        let t = if order.id == self.base_asset.id {
            self.base_asset.amount
        } else if order.id == self.quote_asset.id {
            self.quote_asset.amount
        } else {
            return Err(Error::UnknownAssetId);
        };
        if order.amount.is_negative() || order.amount.is_zero() {
            return Err(Error::NonPositiveAmount);
        }
        let buy = order.is_buy();
        if buy && !order.amount.lt(&t) {
            return Err(Error::InsufficientReserve);
        }
        let k = match self.base_asset.amount.checked_mul(&self.quote_asset.amount) {
            Some(k) => k,
            None => {
                return Err(Error::AmountOverflow);
            },
        };
        let nt = if buy {
            t.checked_sub(&order.amount)
        } else {
            t.checked_add(&order.amount)
        };
        let nt = match nt {
            Some(nt) => nt,
            None => {
                return Err(Error::AmountOverflow);
            },
        };
        proof {
            if order.order_type != OrderType::Buy {
                crate::rational::lemma_pos_product(target_amount(*self, *order).num, order.amount@.den);
                crate::rational::lemma_pos_product(order.amount@.num, target_amount(*self, *order).den);
            }
            crate::rational::lemma_pos_product(
                self.base_asset.amount@.num,
                self.quote_asset.amount@.num,
            );
            crate::rational::lemma_pos_product(spec_k(*self).num, new_target_amount(*self, *order).den);
        }
        match k.checked_div(&nt) {
            Some(y) => Ok((nt, y)),
            None => Err(Error::AmountOverflow),
        }
    }

    /// Quotes an order without touching the reserves: the level
    /// `k / (t -/+ amount)` the opposite reserve would move to.  Fails
    /// on an unknown asset, a non-positive amount, a buy that would
    /// drain the targeted reserve, or an exact value that does not fit
    /// the 64-bit representation.
    pub fn price_for_order(&self, order: &OrderInfo) -> (r: Result<Ratio, Error>)
        requires
            self.wf(),
            order.wf(),
        ensures
            match r {
                Ok(y) => {
                    &&& order_valid(*self, *order)
                    &&& order_fits(*self, *order)
                    &&& y.wf()
                    &&& y@ == quote_level(*self, *order)
                },
                Err(Error::UnknownAssetId) => !order_known(*self, *order),
                Err(Error::NonPositiveAmount) => {
                    &&& order_known(*self, *order)
                    &&& order.amount@.num <= 0
                },
                Err(Error::InsufficientReserve) => {
                    &&& order_known(*self, *order)
                    &&& order.amount@.num > 0
                    &&& order.order_type == OrderType::Buy
                    &&& !rat_lt(order.amount@, target_amount(*self, *order))
                },
                Err(Error::AmountOverflow) => {
                    &&& order_valid(*self, *order)
                    &&& !order_fits(*self, *order)
                },
                Err(_) => false,
            },
    {
        match self.quote_computation(order) {
            Ok((_, y)) => Ok(y),
            Err(e) => Err(e),
        }
    }

    /// Executes an order: moves the targeted reserve by the ordered
    /// amount, moves the opposite reserve to exactly `k / new_target`,
    /// and returns the exact distance the opposite reserve moved — the
    /// amount the caller pays (buy) or receives (sell).  The product of
    /// reserves is exactly unchanged; any failure leaves both reserves
    /// exactly as they were.
    pub fn order(&mut self, order: &OrderInfo) -> (r: Result<Ratio, Error>)
        requires
            old(self).wf(),
            order.wf(),
        ensures
            match r {
                Ok(d) => {
                    &&& order_valid(*old(self), *order)
                    &&& order_fits(*old(self), *order)
                    &&& rat_fits(order_delta(*old(self), *order))
                    &&& d.wf()
                    &&& d@ == order_delta(*old(self), *order)
                    &&& rat_lt(rat_zero(), d@)
                    &&& final(self).wf()
                    &&& final(self).base_asset.id == old(self).base_asset.id
                    &&& final(self).quote_asset.id == old(self).quote_asset.id
                    &&& if order_targets_base(*old(self), *order) {
                        &&& final(self).base_asset.amount@ == new_target_amount(
                            *old(self),
                            *order,
                        )
                        &&& final(self).quote_asset.amount@ == quote_level(*old(self), *order)
                    } else {
                        &&& final(self).quote_asset.amount@ == new_target_amount(
                            *old(self),
                            *order,
                        )
                        &&& final(self).base_asset.amount@ == quote_level(*old(self), *order)
                    }
                    &&& rat_eq(spec_k(*final(self)), spec_k(*old(self)))
                },
                Err(Error::UnknownAssetId) => {
                    &&& *final(self) == *old(self)
                    &&& !order_known(*old(self), *order)
                },
                Err(Error::NonPositiveAmount) => {
                    &&& *final(self) == *old(self)
                    &&& order_known(*old(self), *order)
                    &&& order.amount@.num <= 0
                },
                Err(Error::InsufficientReserve) => {
                    &&& *final(self) == *old(self)
                    &&& order_known(*old(self), *order)
                    &&& order.amount@.num > 0
                    &&& order.order_type == OrderType::Buy
                    &&& !rat_lt(order.amount@, target_amount(*old(self), *order))
                },
                Err(Error::AmountOverflow) => {
                    &&& *final(self) == *old(self)
                    &&& order_valid(*old(self), *order)
                    &&& (!order_fits(*old(self), *order) || !rat_fits(
                        order_delta(*old(self), *order),
                    ))
                },
                Err(_) => false,
            },
    {
        let (nt, y) = match self.quote_computation(order) {
            Ok(p) => p,
            Err(e) => {
                return Err(e);
            },
        };
        let targets_base = order.id == self.base_asset.id;
        let c = if targets_base {
            self.quote_asset.amount
        } else {
            self.base_asset.amount
        };
        let d = if order.is_buy() {
            y.checked_sub(&c)
        } else {
            c.checked_sub(&y)
        };
        let d = match d {
            Some(d) => d,
            None => {
                return Err(Error::AmountOverflow);
            },
        };
        proof {
            lemma_order_delta_positive(*self, *order);
            crate::rational::lemma_rat_mul_div_cancel(spec_k(*self), new_target_amount(*self, *order));
            lemma_rat_mul_comm(quote_level(*self, *order), new_target_amount(*self, *order));
            crate::rational::lemma_pos_product(nt@.den, y@.den);
            crate::rational::lemma_pos_product(y@.den, nt@.den);
            crate::rational::lemma_pos_product(
                old(self).base_asset.amount@.den,
                old(self).quote_asset.amount@.den,
            );
            crate::rational::lemma_rat_eq_trans(
                rat_mul(quote_level(*self, *order), new_target_amount(*self, *order)),
                rat_mul(new_target_amount(*self, *order), quote_level(*self, *order)),
                spec_k(*self),
            );
        }
        if targets_base {
            self.base_asset.amount = nt;
            self.quote_asset.amount = y;
        } else {
            self.quote_asset.amount = nt;
            self.base_asset.amount = y;
        }
        Ok(d)
    }

    /// Adds funding to the reserve the asset identifier names.  The
    /// amount must be strictly positive; on success the product of
    /// reserves strictly increases — funding is the only operation
    /// allowed to move it.  Any failure leaves both reserves exactly as
    /// they were.
    pub fn fund(&mut self, asset_info: &AssetInfo) -> (r: Result<(), Error>)
        requires
            old(self).wf(),
            asset_info.wf(),
        ensures
            match r {
                Ok(()) => {
                    &&& asset_info.amount@.num > 0
                    &&& final(self).wf()
                    &&& final(self).base_asset.id == old(self).base_asset.id
                    &&& final(self).quote_asset.id == old(self).quote_asset.id
                    &&& if asset_info.id == old(self).base_asset.id {
                        &&& final(self).base_asset.amount@ == rat_add(
                            old(self).base_asset.amount@,
                            asset_info.amount@,
                        )
                        &&& final(self).quote_asset == old(self).quote_asset
                    } else {
                        &&& asset_info.id == old(self).quote_asset.id
                        &&& final(self).quote_asset.amount@ == rat_add(
                            old(self).quote_asset.amount@,
                            asset_info.amount@,
                        )
                        &&& final(self).base_asset == old(self).base_asset
                    }
                    &&& rat_lt(spec_k(*old(self)), spec_k(*final(self)))
                },
                Err(Error::UnknownAssetId) => {
                    &&& *final(self) == *old(self)
                    &&& asset_info.id != old(self).base_asset.id
                    &&& asset_info.id != old(self).quote_asset.id
                },
                Err(Error::NonPositiveAmount) => {
                    &&& *final(self) == *old(self)
                    &&& (asset_info.id == old(self).base_asset.id || asset_info.id == old(
                        self,
                    ).quote_asset.id)
                    &&& asset_info.amount@.num == 0
                },
                Err(Error::AmountOverflow) => {
                    &&& *final(self) == *old(self)
                    &&& (asset_info.id == old(self).base_asset.id || asset_info.id == old(
                        self,
                    ).quote_asset.id)
                    &&& asset_info.amount@.num > 0
                    &&& !rat_fits(
                        rat_add(
                            if asset_info.id == old(self).base_asset.id {
                                old(self).base_asset.amount@
                            } else {
                                old(self).quote_asset.amount@
                            },
                            asset_info.amount@,
                        ),
                    )
                },
                Err(_) => false,
            },
    {
        let to_base = asset_info.id == self.base_asset.id;
        if !to_base && !(asset_info.id == self.quote_asset.id) {
            return Err(Error::UnknownAssetId);
        }
        if asset_info.amount.is_zero() {
            return Err(Error::NonPositiveAmount);
        }
        let current = if to_base {
            self.base_asset.amount
        } else {
            self.quote_asset.amount
        };
        let next = match current.checked_add(&asset_info.amount) {
            Some(n) => n,
            None => {
                return Err(Error::AmountOverflow);
            },
        };
        proof {
            let b = self.base_asset.amount@;
            let q = self.quote_asset.amount@;
            let x = asset_info.amount@;
            if to_base {
                lemma_fund_base_k_int(b.num, b.den, q.num, q.den, x.num, x.den);
            } else {
                lemma_fund_quote_k_int(b.num, b.den, q.num, q.den, x.num, x.den);
            }
            crate::rational::lemma_pos_product(b.num, x.den);
            crate::rational::lemma_pos_product(q.num, x.den);
        }
        if to_base {
            self.base_asset.amount = next;
        } else {
            self.quote_asset.amount = next;
        }
        Ok(())
    }
}

} // verus!

verus! {

#[verifier::rlimit(100)]
proof fn lemma_buy_delta_pos_int(tn: int, td: int, cn: int, cd: int, xn: int, xd: int)
    requires
        cn >= 1,
        td >= 1,
        cd >= 1,
        xn >= 1,
        xd >= 1,
    ensures
        cn * ((td * cd) * (tn * xd - xn * td)) < ((tn * cn) * (td * xd)) * cd,
{
    broadcast use vstd::arithmetic::mul::lemma_mul_is_associative;
    broadcast use vstd::arithmetic::mul::lemma_mul_is_commutative;
    broadcast use vstd::arithmetic::mul::lemma_mul_is_distributive_sub;
    assert((td * cd) * (tn * xd - xn * td) == (td * cd) * (tn * xd) - (td * cd) * (xn * td));
    assert(cn * ((td * cd) * (tn * xd) - (td * cd) * (xn * td)) == cn * ((td * cd) * (tn * xd))
        - cn * ((td * cd) * (xn * td)));
    assert(cn * ((td * cd) * (tn * xd)) == ((tn * cn) * (td * xd)) * cd);
    assert(cn * ((td * cd) * (xn * td)) >= 1) by {
        crate::rational::lemma_pos_product(td, cd);
        crate::rational::lemma_pos_product(xn, td);
        crate::rational::lemma_pos_product(td * cd, xn * td);
        crate::rational::lemma_pos_product(cn, (td * cd) * (xn * td));
    }
}

#[verifier::rlimit(100)]
proof fn lemma_sell_delta_pos_int(tn: int, td: int, cn: int, cd: int, xn: int, xd: int)
    requires
        cn >= 1,
        td >= 1,
        cd >= 1,
        xn >= 1,
        xd >= 1,
    ensures
        ((tn * cn) * (td * xd)) * cd < cn * ((td * cd) * (tn * xd + xn * td)),
{
    broadcast use vstd::arithmetic::mul::lemma_mul_is_associative;
    broadcast use vstd::arithmetic::mul::lemma_mul_is_commutative;
    broadcast use vstd::arithmetic::mul::lemma_mul_is_distributive_add;
    assert((td * cd) * (tn * xd + xn * td) == (td * cd) * (tn * xd) + (td * cd) * (xn * td));
    assert(cn * ((td * cd) * (tn * xd) + (td * cd) * (xn * td)) == cn * ((td * cd) * (tn * xd))
        + cn * ((td * cd) * (xn * td)));
    assert(cn * ((td * cd) * (tn * xd)) == ((tn * cn) * (td * xd)) * cd);
    assert(cn * ((td * cd) * (xn * td)) >= 1) by {
        crate::rational::lemma_pos_product(td, cd);
        crate::rational::lemma_pos_product(xn, td);
        crate::rational::lemma_pos_product(td * cd, xn * td);
        crate::rational::lemma_pos_product(cn, (td * cd) * (xn * td));
    }
}

/// Every order the pool accepts moves the opposite reserve by a
/// strictly positive amount: the caller always pays something on a buy
/// and always receives something on a sell.
pub proof fn lemma_order_delta_positive(m: ConstantProductMarketMaker, o: OrderInfo)
    requires
        m.wf(),
        o.wf(),
        order_valid(m, o),
    ensures
        rat_lt(rat_zero(), order_delta(m, o)),
{
    let t = target_amount(m, o);
    let c = counter_amount(m, o);
    let x = o.amount@;
    if !order_targets_base(m, o) {
        vstd::arithmetic::mul::lemma_mul_is_commutative(c.num, t.num);
        vstd::arithmetic::mul::lemma_mul_is_commutative(c.den, t.den);
    }
    if o.order_type == OrderType::Buy {
        lemma_buy_delta_pos_int(t.num, t.den, c.num, c.den, x.num, x.den);
    } else {
        lemma_sell_delta_pos_int(t.num, t.den, c.num, c.den, x.num, x.den);
    }
}

} // verus!
