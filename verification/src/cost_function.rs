//! Cost-function market scoring rules.
//!
//! One closed family of scoring rules prices a fixed set of `n >= 2`
//! mutually exclusive outcomes against a cost function
//! `C(q) = b * ln(sum_i exp(q_i / b))`:
//!
//! * LMSR: the liquidity `b` is fixed at creation and the cost function
//!   is evaluated on the raw exponent arguments `q_i / b`.
//! * Log-sum-exp LMSR: the same market, but the cost function is
//!   evaluated on shifted arguments `q_i / b - m` with
//!   `m = max_i(q_i / b)`, which is mathematically identical and
//!   numerically safe at large magnitudes.
//! * LS-LMSR: the liquidity is derived on every query as
//!   `b = alpha * sum_i q_i` from a fixed scale factor `alpha`.
//!
//! All bookkeeping here is exact: issued securities, liquidity and the
//! exponent arguments are exact rationals.  The transcendental step —
//! exponentiating the prepared arguments and taking the logarithm — is
//! inherently approximate and is left to the caller, who receives the
//! exact arguments from [`ScoringRule::cost_exponents`] (raw) and
//! [`ScoringRule::stabilized_cost_exponents`] (shifted).

use vstd::prelude::*;

use crate::rational::{
    all_wf, rat_abs, rat_add, rat_div, rat_eq, rat_fits, rat_le, rat_lt, rat_mul, rat_one,
    rat_sub, rat_sum, rat_zero, rats_wf, views, Rat, Ratio,
};
use crate::utils::Numeric;

verus! {

/// Purchases below `1 / MINIMAL_PURCHASE_DEN` in absolute value count
/// as zero.
pub const MINIMAL_PURCHASE_DEN: u64 = 1000000;

/// Liquidity parameters below `1 / MINIMAL_LIQUIDITY_DEN` are rejected
/// at creation: the market needs a minimum of liquidity for sane
/// numerical behaviour.
pub const MINIMAL_LIQUIDITY_DEN: u64 = 10000;

/// The smallest purchase that is not considered zero.
pub open spec fn minimal_purchase() -> Rat {
    Rat { num: 1, den: MINIMAL_PURCHASE_DEN as int }
}

/// The smallest accepted liquidity parameter.
pub open spec fn minimal_liquidity() -> Rat {
    Rat { num: 1, den: MINIMAL_LIQUIDITY_DEN as int }
}

/// Failure of a market-level operation.
#[derive(Clone, Debug, PartialEq, Eq, Structural)]
pub enum AMMError {
    /// A market requires at least two outcomes.
    OutcomeLessThanTwo,
    /// The liquidity parameter is not a number, infinite, negative, or
    /// below the minimal threshold.
    BogusLiquidityParam,
    /// A purchase was rejected.
    PurchaseError(PurchaseError),
    /// Funding a constant-function market maker failed.
    FundingError(crate::cfmm::Error),
}

/// Why a purchase was rejected.  Any of these leaves the market state
/// exactly as it was.
#[derive(Clone, Copy, Debug, PartialEq, Eq, Structural)]
pub enum PurchaseError {
    /// A component of the purchase vector is strictly negative.
    NegativePurchase,
    /// A component of the purchase vector is not a number or infinite.
    NonNormalPurchase,
    /// Every component of the purchase vector is effectively zero.
    TooSmall,
    /// The purchase vector's length differs from the number of outcomes.
    WrongPurchaseLength,
    /// An asset cannot be purchased with itself.
    CannotPurchaseWithSameAsset,
    /// The exact updated holdings do not fit the 64-bit representation.
    AmountOverflow,
}

/// Whether a scalar fails per-component validation: not a number,
/// infinite, or strictly negative.
pub open spec fn offending(v: Numeric) -> bool {
    match v {
        Numeric::Nan => true,
        Numeric::Infinite => true,
        Numeric::Finite(r) => r@.num < 0,
    }
}

/// The error reported for an offending scalar.
pub open spec fn offense(v: Numeric) -> PurchaseError {
    match v {
        Numeric::Finite(_) => PurchaseError::NegativePurchase,
        _ => PurchaseError::NonNormalPurchase,
    }
}

/// Whether a scalar is finite with absolute value below the minimal
/// purchase.
pub open spec fn negligible(v: Numeric) -> bool {
    match v {
        Numeric::Finite(r) => rat_lt(rat_abs(r@), minimal_purchase()),
        _ => false,
    }
}

/// The error of the first offending component, scanning left to right.
pub open spec fn first_offense(s: Seq<Numeric>) -> Option<PurchaseError>
    decreases s.len(),
{
    if s.len() == 0 {
        None
    } else if offending(s[0]) {
        Some(offense(s[0]))
    } else {
        first_offense(s.subrange(1, s.len() as int))
    }
}

/// The outcome of purchase-vector validation: the first offending
/// component decides, otherwise a vector of negligible components
/// (including the empty vector) is too small.
pub open spec fn spec_is_fine_purchase(s: Seq<Numeric>) -> Result<(), PurchaseError> {
    match first_offense(s) {
        Some(e) => Err(e),
        None => if forall|i: int| 0 <= i < s.len() ==> negligible(#[trigger] s[i]) {
            Err(PurchaseError::TooSmall)
        } else {
            Ok(())
        },
    }
}

/// The first offense of a sequence whose first `i` components are clean
/// is decided by the rest of the sequence.
proof fn lemma_first_offense_skip(s: Seq<Numeric>, i: int)
    requires
        0 <= i <= s.len(),
        forall|j: int| 0 <= j < i ==> !offending(#[trigger] s[j]),
    ensures
        first_offense(s) == first_offense(s.subrange(i, s.len() as int)),
    decreases i,
{
    if i > 0 {
        assert(!offending(s[0]));
        let rest = s.subrange(1, s.len() as int);
        lemma_first_offense_skip(rest, i - 1);
        assert(rest.subrange(i - 1, rest.len() as int) =~= s.subrange(i, s.len() as int));
    } else {
        assert(s.subrange(0, s.len() as int) =~= s);
    }
}

/// A fully clean prefix scan means no offense at all.
proof fn lemma_first_offense_none(s: Seq<Numeric>)
    requires
        forall|j: int| 0 <= j < s.len() ==> !offending(#[trigger] s[j]),
    ensures
        first_offense(s) == Option::<PurchaseError>::None,
{
    lemma_first_offense_skip(s, s.len() as int);
}

/// An offending component right after a clean prefix is the first
/// offender.
proof fn lemma_first_offense_at(s: Seq<Numeric>, i: int)
    requires
        0 <= i < s.len(),
        forall|j: int| 0 <= j < i ==> !offending(#[trigger] s[j]),
        offending(s[i]),
    ensures
        first_offense(s) == Some(offense(s[i])),
{
    lemma_first_offense_skip(s, i);
    let rest = s.subrange(i, s.len() as int);
    assert(rest[0] == s[i]);
}

/// Validates a purchase vector without touching any state: rejects the
/// first not-a-number / infinite / negative component, then rejects a
/// vector whose components are all effectively zero.
pub fn is_fine_purchase(purchase_vector: &Vec<Numeric>) -> (r: Result<(), PurchaseError>)
    requires
        forall|i: int|
            0 <= i < purchase_vector@.len() ==> (#[trigger] purchase_vector@[i]).wf(),
    ensures
        r == spec_is_fine_purchase(purchase_vector@),
{
    let ghost s = purchase_vector@;
    let mut all_zero: bool = true;
    let mut idx: usize = 0;
    while idx < purchase_vector.len()
        invariant
            0 <= idx <= s.len(),
            s == purchase_vector@,
            forall|i: int| 0 <= i < s.len() ==> (#[trigger] s[i]).wf(),
            forall|j: int| 0 <= j < idx ==> !offending(#[trigger] s[j]),
            all_zero == forall|j: int| 0 <= j < idx ==> negligible(#[trigger] s[j]),
        decreases s.len() - idx,
    {
        let p = &purchase_vector[idx];
        if all_zero {
            let small = match p {
                Numeric::Finite(v) => v.abs_below(1, MINIMAL_PURCHASE_DEN),
                _ => false,
            };
            all_zero = small;
        }
        match p {
            Numeric::Nan => {
                proof {
                    lemma_first_offense_at(s, idx as int);
                }
                return Err(PurchaseError::NonNormalPurchase);
            },
            Numeric::Infinite => {
                proof {
                    lemma_first_offense_at(s, idx as int);
                }
                return Err(PurchaseError::NonNormalPurchase);
            },
            Numeric::Finite(v) => {
                if v.is_negative() {
                    proof {
                        lemma_first_offense_at(s, idx as int);
                    }
                    return Err(PurchaseError::NegativePurchase);
                }
            },
        }
        idx += 1;
    }
    proof {
        lemma_first_offense_none(s);
    }
    if all_zero {
        Err(PurchaseError::TooSmall)
    } else {
        Ok(())
    }
}

} // verus!

verus! {

/// No offense reported means every component is clean.
proof fn lemma_no_offense(s: Seq<Numeric>)
    requires
        first_offense(s) is None,
    ensures
        forall|i: int| 0 <= i < s.len() ==> !offending(#[trigger] s[i]),
    decreases s.len(),
{
    if s.len() > 0 {
        let rest = s.subrange(1, s.len() as int);
        lemma_no_offense(rest);
        assert forall|i: int| 0 <= i < s.len() implies !offending(#[trigger] s[i]) by {
            if i > 0 {
                assert(s[i] == rest[i - 1]);
            }
        }
    }
}

/// The holdings after applying a purchase vector component-wise.
pub open spec fn purchased(sec: Seq<Rat>, v: Seq<Numeric>) -> Seq<Rat> {
    Seq::new(sec.len(), |i: int| rat_add(sec[i], v[i].value()@))
}

/// Whether every updated holding fits the 64-bit representation.
pub open spec fn purchase_fits(sec: Seq<Rat>, v: Seq<Numeric>) -> bool {
    forall|i: int| 0 <= i < sec.len() ==> rat_fits(#[trigger] purchased(sec, v)[i])
}

/// Which member of the scoring-rule family a market uses.
#[derive(Clone, Copy, Debug, PartialEq, Eq, Structural, Hash)]
pub enum ScoringRuleKind {
    /// Fixed liquidity, cost function evaluated on raw arguments.
    Lmsr,
    /// Fixed liquidity, cost function evaluated on log-sum-exp shifted
    /// arguments.
    LogSumExpLmsr,
    /// Liquidity derived from cumulative issuance via a scale factor.
    LsLmsr,
}

/// A cost-function market: one security per outcome, plus the liquidity
/// parameter (the fixed `b` for the LMSR variants, the scale factor
/// `alpha` for LS-LMSR).
#[derive(Clone, Debug)]
pub struct ScoringRule {
    pub kind: ScoringRuleKind,
    pub total_securities: Vec<Ratio>,
    pub param: Ratio,
}

impl ScoringRule {
    /// Market invariant: at least two outcomes, exact non-negative
    /// holdings, and a liquidity parameter at or above the minimal
    /// threshold.
    pub open spec fn wf(&self) -> bool {
        &&& self.total_securities@.len() >= 2
        &&& all_wf(self.total_securities@)
        &&& forall|i: int|
            0 <= i < self.total_securities@.len() ==> (
            #[trigger] self.total_securities@[i])@.num >= 0
        &&& self.param.wf()
        &&& rat_le(minimal_liquidity(), self.param@)
    }

    /// Ghost view of the holdings.
    pub open spec fn holdings(&self) -> Seq<Rat> {
        views(self.total_securities@)
    }

    /// Opens a market over `outcomes` mutually exclusive outcomes.
    /// Succeeds exactly when there are at least two outcomes and the
    /// liquidity parameter is a finite value at or above the minimal
    /// threshold; the security vector starts at all zeros.
    pub fn try_create(kind: ScoringRuleKind, outcomes: usize, liquidity: &Numeric) -> (r: Result<
        ScoringRule,
        AMMError,
    >)
        requires
            liquidity.wf(),
        ensures
            match r {
                Ok(m) => {
                    &&& outcomes >= 2
                    &&& liquidity.is_finite()
                    &&& rat_le(minimal_liquidity(), liquidity.value()@)
                    &&& m.wf()
                    &&& m.kind == kind
                    &&& m.param == liquidity.value()
                    &&& m.total_securities@.len() == outcomes
                    &&& forall|i: int|
                        0 <= i < outcomes ==> (#[trigger] m.total_securities@[i])@ == rat_zero()
                },
                Err(AMMError::OutcomeLessThanTwo) => outcomes < 2,
                Err(AMMError::BogusLiquidityParam) => {
                    &&& outcomes >= 2
                    &&& (!liquidity.is_finite() || !rat_le(
                        minimal_liquidity(),
                        liquidity.value()@,
                    ))
                },
                Err(_) => false,
            },
    {
        if outcomes <= 1 {
            return Err(AMMError::OutcomeLessThanTwo);
        }
        let threshold = Ratio { num: 1, den: MINIMAL_LIQUIDITY_DEN };
        match liquidity {
            Numeric::Finite(v) => {
                if v.lt(&threshold) {
                    Err(AMMError::BogusLiquidityParam)
                } else {
                    let mut zeros: Vec<Ratio> = Vec::new();
                    while zeros.len() < outcomes
                        invariant
                            zeros@.len() <= outcomes,
                            forall|i: int|
                                0 <= i < zeros@.len() ==> (#[trigger] zeros@[i])@ == rat_zero(),
                        decreases outcomes - zeros@.len(),
                    {
                        zeros.push(Ratio::from_int(0));
                    }
                    Ok(ScoringRule { kind, total_securities: zeros, param: *v })
                }
            },
            _ => Err(AMMError::BogusLiquidityParam),
        }
    }

    /// Number of outcomes this market covers.
    pub fn outcomes(&self) -> (r: usize)
        ensures
            r == self.total_securities@.len(),
    {
        self.total_securities.len()
    }

    /// The exact holdings a purchase would leave behind, without
    /// applying it.  Validation runs first (see [`is_fine_purchase`]),
    /// then the length check, then each component is added exactly.
    pub fn securities_after_purchase(&self, purchase_vector: &Vec<Numeric>) -> (r: Result<
        Vec<Ratio>,
        PurchaseError,
    >)
        requires
            self.wf(),
            forall|i: int|
                0 <= i < purchase_vector@.len() ==> (#[trigger] purchase_vector@[i]).wf(),
        ensures
            match r {
                Ok(w) => {
                    &&& spec_is_fine_purchase(purchase_vector@) is Ok
                    &&& purchase_vector@.len() == self.holdings().len()
                    &&& purchase_fits(self.holdings(), purchase_vector@)
                    &&& w@.len() == self.holdings().len()
                    &&& views(w@) == purchased(self.holdings(), purchase_vector@)
                    &&& all_wf(w@)
                    &&& forall|i: int| 0 <= i < w@.len() ==> (#[trigger] w@[i])@.num >= 0
                },
                Err(e) => {
                    if spec_is_fine_purchase(purchase_vector@) is Err {
                        spec_is_fine_purchase(purchase_vector@) == Result::<
                            (),
                            PurchaseError,
                        >::Err(e)
                    } else if purchase_vector@.len() != self.holdings().len() {
                        e == PurchaseError::WrongPurchaseLength
                    } else {
                        &&& e == PurchaseError::AmountOverflow
                        &&& !purchase_fits(self.holdings(), purchase_vector@)
                    }
                },
            },
    {
        if let Err(e) = is_fine_purchase(purchase_vector) {
            return Err(e);
        }
        if purchase_vector.len() != self.total_securities.len() {
            return Err(PurchaseError::WrongPurchaseLength);
        }
        proof {
            lemma_no_offense(purchase_vector@);
        }
        let n = self.total_securities.len();
        let mut updated: Vec<Ratio> = Vec::new();
        let mut idx: usize = 0;
        while idx < n
        invariant
            n == self.holdings().len(),
            purchase_vector@.len() == n,
            spec_is_fine_purchase(purchase_vector@) is Ok,
            0 <= idx <= n,
            self.wf(),
            forall|i: int|
                0 <= i < purchase_vector@.len() ==> (#[trigger] purchase_vector@[i]).wf(),
            forall|i: int| 0 <= i < n ==> !offending(#[trigger] purchase_vector@[i]),
            updated@.len() == idx,
            forall|i: int|
                0 <= i < idx ==> (#[trigger] updated@[i])@ == purchased(
                    self.holdings(),
                    purchase_vector@,
                )[i],
            forall|i: int| 0 <= i < idx ==> (#[trigger] updated@[i]).wf(),
            forall|i: int| 0 <= i < idx ==> (#[trigger] updated@[i])@.num >= 0,
            forall|i: int|
                0 <= i < idx ==> rat_fits(#[trigger] purchased(self.holdings(), purchase_vector@)[i]),
        decreases n - idx,
        {
            let current = self.total_securities[idx];
            let delta = match &purchase_vector[idx] {
                Numeric::Finite(v) => *v,
                _ => Ratio::from_int(0),
            };
            match current.checked_add(&delta) {
                Some(next) => {
                    proof {
                        crate::rational::lemma_nonneg_product(current@.num, delta@.den);
                        crate::rational::lemma_nonneg_product(delta@.num, current@.den);
                    }
                    updated.push(next);
                },
                None => {
                    proof {
                        assert(purchased(self.holdings(), purchase_vector@)[idx as int]
                            == rat_add(current@, delta@));
                        assert(!rat_fits(purchased(self.holdings(), purchase_vector@)[idx as int]));
                    }
                    return Err(PurchaseError::AmountOverflow);
                },
            }
            idx += 1;
        }
        proof {
            assert(views(updated@) =~= purchased(self.holdings(), purchase_vector@));
        }
        Ok(updated)
    }

    /// Applies a purchase: validation, the length check, then the exact
    /// component-wise update.  Any rejection leaves the market
    /// untouched; the variant tag and liquidity parameter never change.
    pub fn purchase(&mut self, purchase_vector: &Vec<Numeric>) -> (r: Result<(), PurchaseError>)
        requires
            old(self).wf(),
            forall|i: int|
                0 <= i < purchase_vector@.len() ==> (#[trigger] purchase_vector@[i]).wf(),
        ensures
            final(self).kind == old(self).kind,
            final(self).param == old(self).param,
            final(self).wf(),
            final(self).holdings().len() == old(self).holdings().len(),
            match r {
                Ok(()) => {
                    &&& spec_is_fine_purchase(purchase_vector@) is Ok
                    &&& purchase_vector@.len() == old(self).holdings().len()
                    &&& purchase_fits(old(self).holdings(), purchase_vector@)
                    &&& final(self).holdings() == purchased(old(self).holdings(), purchase_vector@)
                },
                Err(e) => {
                    &&& *final(self) == *old(self)
                    &&& if spec_is_fine_purchase(purchase_vector@) is Err {
                        spec_is_fine_purchase(purchase_vector@) == Result::<
                            (),
                            PurchaseError,
                        >::Err(e)
                    } else if purchase_vector@.len() != old(self).holdings().len() {
                        e == PurchaseError::WrongPurchaseLength
                    } else {
                        &&& e == PurchaseError::AmountOverflow
                        &&& !purchase_fits(old(self).holdings(), purchase_vector@)
                    }
                },
            },
    {
        match self.securities_after_purchase(purchase_vector) {
            Ok(updated) => {
                self.total_securities = updated;
                Ok(())
            },
            Err(e) => Err(e),
        }
    }
}

} // verus!

verus! {

/// Whether every left-to-right partial sum of a sequence fits the
/// 64-bit representation.
pub open spec fn prefix_sums_fit(s: Seq<Rat>) -> bool {
    forall|k: int| 0 <= k <= s.len() ==> rat_fits(rat_sum(#[trigger] s.take(k)))
}

/// Exact sum of a vector of rationals; `None` exactly when some partial
/// sum leaves the 64-bit representation.
fn exact_sum(weights: &Vec<Ratio>) -> (r: Option<Ratio>)
    requires
        all_wf(weights@),
    ensures
        match r {
            Some(s) => {
                &&& s.wf()
                &&& s@ == rat_sum(views(weights@))
                &&& prefix_sums_fit(views(weights@))
            },
            None => !prefix_sums_fit(views(weights@)),
        },
{
    let ghost vs = views(weights@);
    let mut acc = Ratio::from_int(0);
    let mut idx: usize = 0;
    proof {
        assert(vs.take(0) =~= Seq::<Rat>::empty());
    }
    while idx < weights.len()
        invariant
            all_wf(weights@),
            vs == views(weights@),
            0 <= idx <= weights@.len(),
            acc.wf(),
            acc@ == rat_sum(vs.take(idx as int)),
            forall|k: int| 0 <= k <= idx ==> rat_fits(rat_sum(#[trigger] vs.take(k))),
        decreases weights@.len() - idx,
    {
        let w = weights[idx];
        proof {
            assert(vs.take(idx as int + 1).drop_last() =~= vs.take(idx as int));
            assert(vs.take(idx as int + 1).last() == w@);
        }
        match acc.checked_add(&w) {
            Some(next) => {
                acc = next;
            },
            None => {
                proof {
                    assert(!rat_fits(rat_sum(vs.take(idx as int + 1))));
                }
                return None;
            },
        }
        idx += 1;
    }
    proof {
        assert(vs.take(weights@.len() as int) =~= vs);
    }
    Some(acc)
}

/// Divides every weight by the total, exactly.  The result exists when
/// the total is positive and all exact intermediates fit; its entries
/// then sum to exactly one.
pub fn normalized(weights: &Vec<Ratio>) -> (r: Option<Vec<Ratio>>)
    requires
        all_wf(weights@),
        forall|i: int| 0 <= i < weights@.len() ==> (#[trigger] weights@[i])@.num >= 0,
    ensures
        match r {
            Some(o) => {
                &&& prefix_sums_fit(views(weights@))
                &&& rat_sum(views(weights@)).num > 0
                &&& o@.len() == weights@.len()
                &&& forall|i: int|
                    0 <= i < o@.len() ==> (#[trigger] o@[i])@ == rat_div(
                        views(weights@)[i],
                        rat_sum(views(weights@)),
                    )
                &&& all_wf(o@)
                &&& rat_eq(rat_sum(views(o@)), rat_one())
            },
            None => {
                ||| !prefix_sums_fit(views(weights@))
                ||| rat_sum(views(weights@)).num == 0
                ||| exists|i: int|
                    0 <= i < weights@.len() && !rat_fits(
                        #[trigger] rat_div(views(weights@)[i], rat_sum(views(weights@))),
                    )
            },
        },
{
    let ghost vs = views(weights@);
    let total = match exact_sum(weights) {
        Some(t) => t,
        None => {
            return None;
        },
    };
    proof {
        assert forall|i: int| 0 <= i < vs.len() implies (#[trigger] vs[i]).wf() && vs[i].num >= 0 by {
            assert(weights@[i].wf());
            assert(weights@[i]@.num >= 0);
            assert(vs[i] == weights@[i]@);
        }
        crate::rational::lemma_rat_sum_nonneg(vs);
    }
    if total.is_zero() {
        return None;
    }
    let mut out: Vec<Ratio> = Vec::new();
    let mut idx: usize = 0;
    while idx < weights.len()
        invariant
            all_wf(weights@),
            vs == views(weights@),
            0 <= idx <= weights@.len(),
            total.wf(),
            total@ == rat_sum(vs),
            total@.num > 0,
            out@.len() == idx,
            forall|i: int|
                0 <= i < idx ==> (#[trigger] out@[i])@ == rat_div(vs[i], rat_sum(vs)),
            forall|i: int| 0 <= i < idx ==> (#[trigger] out@[i]).wf(),
        decreases weights@.len() - idx,
    {
        let w = weights[idx];
        match w.checked_div(&total) {
            Some(q) => {
                out.push(q);
            },
            None => {
                proof {
                    assert(!rat_fits(rat_div(vs[idx as int], rat_sum(vs))));
                }
                return None;
            },
        }
        idx += 1;
    }
    proof {
        assert forall|i: int| 0 <= i < vs.len() implies (#[trigger] vs[i]).wf() by {
            assert(weights@[i].wf());
            assert(vs[i] == weights@[i]@);
        }
        assert(views(out@) =~= vs.map_values(|x: Rat| rat_div(x, rat_sum(vs))));
        crate::rational::lemma_rat_sum_div_is_one(vs);
    }
    Some(out)
}

impl ScoringRule {
    /// Per-outcome odds `q_i / sum(q)`, exact.  Defined once at least
    /// one outcome has nonzero issuance; the returned odds sum to
    /// exactly one.
    pub fn odds(&self) -> (r: Option<Vec<Ratio>>)
        requires
            self.wf(),
        ensures
            match r {
                Some(o) => {
                    &&& rat_sum(self.holdings()).num > 0
                    &&& o@.len() == self.holdings().len()
                    &&& forall|i: int|
                        0 <= i < o@.len() ==> (#[trigger] o@[i])@ == rat_div(
                            self.holdings()[i],
                            rat_sum(self.holdings()),
                        )
                    &&& rat_eq(rat_sum(views(o@)), rat_one())
                },
                None => {
                    ||| !prefix_sums_fit(self.holdings())
                    ||| rat_sum(self.holdings()).num == 0
                    ||| exists|i: int|
                        0 <= i < self.holdings().len() && !rat_fits(
                            #[trigger] rat_div(self.holdings()[i], rat_sum(self.holdings())),
                        )
                },
            },
    {
        normalized(&self.total_securities)
    }
}

} // verus!

verus! {

/// The liquidity a market trades at: the fixed `b` for the LMSR
/// variants, `alpha * sum(q)` recomputed from current issuance for
/// LS-LMSR.
pub open spec fn effective_liquidity(s: ScoringRule) -> Rat {
    if s.kind == ScoringRuleKind::LsLmsr {
        rat_mul(s.param@, rat_sum(s.holdings()))
    } else {
        s.param@
    }
}

/// The raw cost-function exponent arguments `q_i / b`.
pub open spec fn spec_cost_exponents(s: ScoringRule) -> Seq<Rat> {
    Seq::new(s.holdings().len(), |i: int| rat_div(s.holdings()[i], effective_liquidity(s)))
}

/// Index of the maximum of a sequence of rationals: a later element
/// replaces the running maximum only when strictly greater.
pub open spec fn max_index(s: Seq<Rat>) -> int
    decreases s.len(),
{
    if s.len() <= 1 {
        0
    } else {
        let prev = max_index(s.drop_last());
        if rat_lt(s[prev], s.last()) {
            s.len() - 1
        } else {
            prev
        }
    }
}

/// The maximum index is in range and its element dominates.
pub proof fn lemma_max_index(s: Seq<Rat>)
    requires
        s.len() >= 1,
        rats_wf(s),
    ensures
        0 <= max_index(s) < s.len(),
        forall|i: int| 0 <= i < s.len() ==> rat_le(#[trigger] s[i], s[max_index(s)]),
    decreases s.len(),
{
    if s.len() > 1 {
        let prefix = s.drop_last();
        lemma_max_index(prefix);
        let prev = max_index(prefix);
        assert forall|i: int| 0 <= i < s.len() implies rat_le(#[trigger] s[i], s[max_index(s)]) by {
            if i < s.len() - 1 {
                assert(s[i] == prefix[i]);
                assert(rat_le(prefix[i], prefix[prev]));
                if rat_lt(s[prev], s.last()) {
                    lemma_rat_le_lt_trans(s[i], s[prev], s.last());
                } 
            } else {
                if !rat_lt(s[prev], s.last()) {
                    lemma_rat_not_lt(s[prev], s.last());
                }
            }
        }
    }
}

/// `a <= b` and `b < c` give `a < c`, hence `a <= c`.
proof fn lemma_rat_le_lt_trans(a: Rat, b: Rat, c: Rat)
    requires
        a.wf(),
        b.wf(),
        c.wf(),
        rat_le(a, b),
        rat_lt(b, c),
    ensures
        rat_le(a, c),
{
    lemma_le_trans_int(a.num, a.den, b.num, b.den, c.num, c.den);
}

#[verifier::rlimit(100)]
proof fn lemma_le_trans_int(an: int, ad: int, bn: int, bd: int, cn: int, cd: int)
    by (nonlinear_arith)
    requires
        ad >= 1,
        bd >= 1,
        cd >= 1,
        an * bd <= bn * ad,
        bn * cd < cn * bd,
    ensures
        an * cd <= cn * ad,
{
}

/// `!(a < b)` over positive denominators gives `b <= a`.
proof fn lemma_rat_not_lt(a: Rat, b: Rat)
    requires
        !rat_lt(a, b),
    ensures
        rat_le(b, a),
{
}

impl ScoringRule {
    /// The liquidity this market currently trades at.  Always available
    /// for the fixed-liquidity variants; for LS-LMSR it is the exact
    /// product `alpha * sum(q)`, unavailable only when that exact value
    /// leaves the 64-bit representation.
    pub fn b(&self) -> (r: Option<Ratio>)
        requires
            self.wf(),
        ensures
            match r {
                Some(b) => {
                    &&& b.wf()
                    &&& b@ == effective_liquidity(*self)
                    &&& b@.num >= 0
                    &&& (self.kind != ScoringRuleKind::LsLmsr ==> b == self.param)
                },
                None => {
                    &&& self.kind == ScoringRuleKind::LsLmsr
                    &&& (!prefix_sums_fit(self.holdings()) || !rat_fits(
                        rat_mul(self.param@, rat_sum(self.holdings())),
                    ))
                },
            },
    {
        match self.kind {
            ScoringRuleKind::LsLmsr => {
                let total = match exact_sum(&self.total_securities) {
                    Some(t) => t,
                    None => {
                        return None;
                    },
                };
                proof {
                    assert forall|i: int|
                        0 <= i < self.holdings().len() implies (#[trigger] self.holdings()[i]).wf()
                        && self.holdings()[i].num >= 0 by {
                        assert(self.total_securities@[i].wf());
                        assert(self.total_securities@[i]@.num >= 0);
                        assert(self.holdings()[i] == self.total_securities@[i]@);
                    }
                    crate::rational::lemma_rat_sum_nonneg(self.holdings());
                    crate::rational::lemma_nonneg_product(self.param@.num, rat_sum(self.holdings()).num);
                }
                self.param.checked_mul(&total)
            },
            _ => {
                proof {
                    crate::rational::lemma_pos_product(1, self.param@.den);
                }
                Some(self.param)
            },
        }
    }

    /// The exact raw exponent arguments `q_i / b` of the cost function.
    /// Unavailable when the liquidity is unavailable or zero (the
    /// degenerate LS-LMSR state before any issuance) or when an exact
    /// quotient leaves the 64-bit representation.
    pub fn cost_exponents(&self) -> (r: Option<Vec<Ratio>>)
        requires
            self.wf(),
        ensures
            match r {
                Some(v) => {
                    &&& effective_liquidity(*self).num > 0
                    &&& v@.len() == self.holdings().len()
                    &&& forall|i: int|
                        0 <= i < v@.len() ==> (#[trigger] v@[i])@ == spec_cost_exponents(*self)[i]
                    &&& all_wf(v@)
                },
                None => {
                    ||| self.kind == ScoringRuleKind::LsLmsr && (!prefix_sums_fit(self.holdings())
                        || !rat_fits(rat_mul(self.param@, rat_sum(self.holdings()))))
                    ||| effective_liquidity(*self).num == 0
                    ||| exists|i: int|
                        0 <= i < self.holdings().len() && !rat_fits(
                            #[trigger] spec_cost_exponents(*self)[i],
                        )
                },
            },
    {
        let b = match self.b() {
            Some(b) => b,
            None => {
                return None;
            },
        };
        if b.is_zero() {
            return None;
        }
        let n = self.total_securities.len();
        let mut out: Vec<Ratio> = Vec::new();
        let mut idx: usize = 0;
        while idx < n
            invariant
                self.wf(),
                n == self.holdings().len(),
                0 <= idx <= n,
                b.wf(),
                b@ == effective_liquidity(*self),
                b@.num > 0,
                out@.len() == idx,
                forall|i: int|
                    0 <= i < idx ==> (#[trigger] out@[i])@ == spec_cost_exponents(*self)[i],
                forall|i: int| 0 <= i < idx ==> (#[trigger] out@[i]).wf(),
            decreases n - idx,
        {
            let q = self.total_securities[idx];
            match q.checked_div(&b) {
                Some(x) => {
                    out.push(x);
                },
                None => {
                    proof {
                        assert(!rat_fits(spec_cost_exponents(*self)[idx as int]));
                    }
                    return None;
                },
            }
            idx += 1;
        }
        Some(out)
    }

    /// The log-sum-exp-stabilized exponent arguments: the maximum
    /// `m = max_i(q_i / b)` together with the shifted arguments
    /// `q_i / b - m`, each of which is at most zero.  Shifting preserves
    /// the arguments exactly: see [`lemma_stabilized_shift`].
    pub fn stabilized_cost_exponents(&self) -> (r: Option<(Ratio, Vec<Ratio>)>)
        requires
            self.wf(),
        ensures
            match r {
                Some((m, sh)) => {
                    &&& effective_liquidity(*self).num > 0
                    &&& m@ == spec_cost_exponents(*self)[max_index(spec_cost_exponents(*self))]
                    &&& forall|i: int|
                        0 <= i < self.holdings().len() ==> rat_le(
                            #[trigger] spec_cost_exponents(*self)[i],
                            m@,
                        )
                    &&& sh@.len() == self.holdings().len()
                    &&& forall|i: int|
                        0 <= i < sh@.len() ==> (#[trigger] sh@[i])@ == rat_sub(
                            spec_cost_exponents(*self)[i],
                            m@,
                        )
                    &&& forall|i: int| 0 <= i < sh@.len() ==> rat_le((#[trigger] sh@[i])@, rat_zero())
                },
                None => {
                    ||| self.kind == ScoringRuleKind::LsLmsr && (!prefix_sums_fit(self.holdings())
                        || !rat_fits(rat_mul(self.param@, rat_sum(self.holdings()))))
                    ||| effective_liquidity(*self).num == 0
                    ||| exists|i: int|
                        0 <= i < self.holdings().len() && !rat_fits(
                            #[trigger] spec_cost_exponents(*self)[i],
                        )
                    ||| exists|i: int|
                        0 <= i < self.holdings().len() && !rat_fits(
                            rat_sub(
                                #[trigger] spec_cost_exponents(*self)[i],
                                spec_cost_exponents(*self)[max_index(spec_cost_exponents(*self))],
                            ),
                        )
                },
            },
    {
        let ghost se = spec_cost_exponents(*self);
        let scaled = match self.cost_exponents() {
            Some(v) => v,
            None => {
                return None;
            },
        };
        proof {
            assert forall|i: int| 0 <= i < se.len() implies (#[trigger] se[i]).wf() by {
                assert(scaled@[i]@ == se[i]);
                assert(scaled@[i].wf());
            }
            lemma_max_index(se);
        }
        let n = scaled.len();
        let mut mi: usize = 0;
        let mut idx: usize = 1;
        while idx < n
            invariant
                se == spec_cost_exponents(*self),
                n == scaled@.len(),
                n == se.len(),
                n >= 1,
                forall|i: int| 0 <= i < n ==> (#[trigger] scaled@[i])@ == se[i],
                all_wf(scaled@),
                0 <= mi < idx <= n,
                mi as int == max_index(se.take(idx as int)),
            decreases n - idx,
        {
            proof {
                assert(se.take(idx as int + 1).drop_last() =~= se.take(idx as int));
            }
            let cur = scaled[mi];
            let cand = scaled[idx];
            if cur.lt(&cand) {
                mi = idx;
            }
            idx += 1;
        }
        proof {
            assert(se.take(n as int) =~= se);
        }
        let m = scaled[mi];
        let mut shifted: Vec<Ratio> = Vec::new();
        let mut j: usize = 0;
        while j < n
            invariant
                se == spec_cost_exponents(*self),
                n == scaled@.len(),
                n == se.len(),
                forall|i: int| 0 <= i < n ==> (#[trigger] scaled@[i])@ == se[i],
                all_wf(scaled@),
                rats_wf(se),
                0 <= mi < n,
                m == scaled@[mi as int],
                m@ == se[max_index(se)],
                forall|i: int| 0 <= i < n ==> rat_le(#[trigger] se[i], m@),
                0 <= j <= n,
                shifted@.len() == j,
                forall|i: int|
                    0 <= i < j ==> (#[trigger] shifted@[i])@ == rat_sub(se[i], m@),
                forall|i: int| 0 <= i < j ==> rat_le((#[trigger] shifted@[i])@, rat_zero()),
            decreases n - j,
        {
            let x = scaled[j];
            match x.checked_sub(&m) {
                Some(d) => {
                    proof {
                        lemma_rat_sub_le_zero(se[j as int], m@);
                    }
                    shifted.push(d);
                },
                None => {
                    proof {
                        assert(!rat_fits(rat_sub(se[j as int], se[max_index(se)])));
                    }
                    return None;
                },
            }
            j += 1;
        }
        Some((m, shifted))
    }
}

/// A difference of a dominated rational and the dominating one is at
/// most zero.
proof fn lemma_rat_sub_le_zero(a: Rat, m: Rat)
    requires
        a.wf(),
        m.wf(),
        rat_le(a, m),
    ensures
        rat_le(rat_sub(a, m), rat_zero()),
{
    crate::rational::lemma_pos_product(a.den, m.den);
}

} // verus!

verus! {

/// The underwriter's maximum possible loss, held symbolically: the
/// bound is `ln(outcomes) * liquidity`, and since the logarithm is
/// transcendental the pair is returned exactly and the caller performs
/// the final multiplication approximately.
#[derive(Clone, Copy, Debug, PartialEq, Eq, Structural)]
pub struct LossBound {
    pub outcomes: usize,
    pub liquidity: Ratio,
}

/// The loss bound a market is at, as the pair (outcome count,
/// liquidity); the bound itself is `ln(outcomes) * liquidity`.
pub open spec fn spec_loss_bound(s: ScoringRule) -> (int, Rat) {
    (s.holdings().len() as int, effective_liquidity(s))
}

impl ScoringRule {
    /// The bound on the underwriter's loss, `ln(n) * b`, as the exact
    /// pair `(n, b)`.  Both variants of this family are always bounded:
    /// the result is `None` only when LS-LMSR's exact derived liquidity
    /// leaves the 64-bit representation.
    pub fn bounded_loss(&self) -> (r: Option<LossBound>)
        requires
            self.wf(),
        ensures
            match r {
                Some(l) => {
                    &&& l.outcomes as int == spec_loss_bound(*self).0
                    &&& l.liquidity@ == spec_loss_bound(*self).1
                    &&& (self.kind != ScoringRuleKind::LsLmsr ==> l.liquidity == self.param)
                },
                None => {
                    &&& self.kind == ScoringRuleKind::LsLmsr
                    &&& (!prefix_sums_fit(self.holdings()) || !rat_fits(
                        rat_mul(self.param@, rat_sum(self.holdings())),
                    ))
                },
            },
    {
        match self.b() {
            Some(b) => Some(LossBound { outcomes: self.total_securities.len(), liquidity: b }),
            None => None,
        }
    }
}

/// Purchases never move the loss bound of a fixed-liquidity market:
/// any two states of an LMSR or log-sum-exp LMSR market that agree on
/// the outcome count and the liquidity parameter — as every successful
/// or failed purchase leaves them — have the same loss bound.
pub proof fn lemma_fixed_liquidity_loss_bound(before: ScoringRule, after: ScoringRule)
    requires
        before.kind != ScoringRuleKind::LsLmsr,
        after.kind == before.kind,
        after.param == before.param,
        after.total_securities@.len() == before.total_securities@.len(),
    ensures
        spec_loss_bound(after) == spec_loss_bound(before),
{
}

proof fn lemma_shift_recovers_int(an: int, ad: int, mn: int, md: int)
    ensures
        ((an * md - mn * ad) * md + mn * (ad * md)) * ad == an * ((ad * md) * md),
{
    broadcast use vstd::arithmetic::mul::lemma_mul_is_associative;
    broadcast use vstd::arithmetic::mul::lemma_mul_is_commutative;
    broadcast use vstd::arithmetic::mul::lemma_mul_is_distributive_add_other_way;
    broadcast use vstd::arithmetic::mul::lemma_mul_is_distributive_sub_other_way;
    assert((an * md - mn * ad) * md == (an * md) * md - (mn * ad) * md);
    assert(((an * md) * md - (mn * ad) * md + mn * (ad * md)) * ad == (an * md) * md * ad
        - (mn * ad) * md * ad + mn * (ad * md) * ad);
    assert((mn * ad) * md * ad == mn * (ad * md) * ad);
    assert((an * md) * md * ad == an * ((ad * md) * md));
}

/// Log-sum-exp stabilization is exact at the argument level: adding the
/// shift `m` back to each shifted exponent argument recovers the raw
/// argument, as an exact rational identity.  The transcendental
/// evaluation `b * (m + ln(sum_i exp(x_i - m))) == b * ln(sum_i exp(x_i))`
/// then follows from `exp(x - m) * exp(m) == exp(x)` alone.
pub proof fn lemma_stabilized_shift(scaled: Seq<Rat>, m: Rat, shifted: Seq<Rat>)
    requires
        rats_wf(scaled),
        m.wf(),
        shifted.len() == scaled.len(),
        forall|i: int| 0 <= i < shifted.len() ==> shifted[i] == rat_sub(#[trigger] scaled[i], m),
    ensures
        forall|i: int|
            0 <= i < shifted.len() ==> rat_eq(rat_add(#[trigger] shifted[i], m), scaled[i]),
{
    assert forall|i: int|
        0 <= i < shifted.len() implies rat_eq(rat_add(#[trigger] shifted[i], m), scaled[i]) by {
        let a = scaled[i];
        lemma_shift_recovers_int(a.num, a.den, m.num, m.den);
    }
}

} // verus!
