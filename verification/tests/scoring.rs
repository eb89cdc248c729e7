//! Cost-function scoring rule behaviour: creation, validation,
//! purchases, odds, bounded loss, and agreement of the naive and
//! log-sum-exp cost evaluations.

use amm::cost_function::{AMMError, PurchaseError, ScoringRule, ScoringRuleKind};
use amm::rational::Ratio;
use amm::utils::Numeric;

fn rat(num: i64, den: u64) -> Ratio {
    Ratio::new(num, den).unwrap()
}

fn fin(num: i64, den: u64) -> Numeric {
    Numeric::Finite(rat(num, den))
}

fn rat_to_f64(r: &Ratio) -> f64 {
    r.numerator() as f64 / r.denominator() as f64
}

/// Exact equality of two rational values by cross multiplication.
fn rat_value_eq(a: &Ratio, b: &Ratio) -> bool {
    a.numerator() as i128 * b.denominator() as i128
        == b.numerator() as i128 * a.denominator() as i128
}

fn all_kinds() -> Vec<ScoringRuleKind> {
    vec![ScoringRuleKind::Lmsr, ScoringRuleKind::LogSumExpLmsr, ScoringRuleKind::LsLmsr]
}

fn get_all_marketmakers(dimension: usize, param: Numeric) -> Vec<ScoringRule> {
    all_kinds()
        .into_iter()
        .map(|k| ScoringRule::try_create(k, dimension, &param).unwrap())
        .collect()
}

/// Evaluates the cost function naively: `b * ln(sum exp(q_i / b))`.
fn cost_naive(msr: &ScoringRule) -> f64 {
    let b = rat_to_f64(&msr.b().unwrap());
    let exponents = msr.cost_exponents().unwrap();
    let sum: f64 = exponents.iter().map(|x| rat_to_f64(x).exp()).sum();
    b * sum.ln()
}

/// Evaluates the cost function through log-sum-exp stabilization:
/// `b * (m + ln(sum exp(q_i / b - m)))`.
fn cost_log_sum_exp(msr: &ScoringRule) -> f64 {
    let b = rat_to_f64(&msr.b().unwrap());
    let (m, shifted) = msr.stabilized_cost_exponents().unwrap();
    let sum: f64 = shifted.iter().map(|x| rat_to_f64(x).exp()).sum();
    b * (rat_to_f64(&m) + sum.ln())
}

#[test]
fn must_reject_wrong_purchase_vector() {
    let msrs = get_all_marketmakers(2, fin(10, 1));
    for mut msr in msrs {
        for bogus_purchase_vector in [vec![fin(1, 1), fin(1, 1), fin(0, 1)], vec![fin(1, 1)]] {
            let before = msr.total_securities.clone();
            let r = msr.purchase(&bogus_purchase_vector);
            assert!(r.is_err());
            assert_eq!(r.unwrap_err(), PurchaseError::WrongPurchaseLength);
            assert_eq!(before, msr.total_securities);
        }
    }
}

#[test]
fn must_reject_too_small_liquidity() {
    let liquidity = fin(1, 10_000_000_000_000_000_000);
    let (r1, r2, r3) = (
        ScoringRule::try_create(ScoringRuleKind::Lmsr, 2, &liquidity),
        ScoringRule::try_create(ScoringRuleKind::LogSumExpLmsr, 2, &liquidity),
        ScoringRule::try_create(ScoringRuleKind::LsLmsr, 2, &liquidity),
    );
    assert_eq!(r1.unwrap_err(), AMMError::BogusLiquidityParam);
    assert_eq!(r2.unwrap_err(), AMMError::BogusLiquidityParam);
    assert_eq!(r3.unwrap_err(), AMMError::BogusLiquidityParam);
    let liquidity = fin(2, 100);
    let (r1, r2, r3) = (
        ScoringRule::try_create(ScoringRuleKind::Lmsr, 2, &liquidity),
        ScoringRule::try_create(ScoringRuleKind::LogSumExpLmsr, 2, &liquidity),
        ScoringRule::try_create(ScoringRuleKind::LsLmsr, 2, &liquidity),
    );
    assert!(r1.is_ok());
    assert!(r2.is_ok());
    assert!(r3.is_ok());
}

#[test]
fn unittest1() {
    let test_cases = [(vec![fin(1, 1), fin(736, 1)], fin(20, 1))];

    for (purchase_vector, liquidity) in test_cases {
        let mut msr1 = ScoringRule::try_create(ScoringRuleKind::Lmsr, 2, &liquidity).unwrap();
        let mut msr2 =
            ScoringRule::try_create(ScoringRuleKind::LogSumExpLmsr, 2, &liquidity).unwrap();
        msr1.purchase(&purchase_vector).unwrap();
        msr2.purchase(&purchase_vector).unwrap();

        let c1 = cost_naive(&msr1);
        let c2 = cost_log_sum_exp(&msr2);
        println!("c1: {:?}, c2: {:?}", c1, c2);
        assert!(c1 - c2 < 0.00000001 && c2 - c1 < 0.00000001);
    }
}

#[test]
fn create_requires_two_outcomes() {
    for kind in all_kinds() {
        for n in [0usize, 1usize] {
            assert_eq!(
                ScoringRule::try_create(kind, n, &fin(10, 1)).unwrap_err(),
                AMMError::OutcomeLessThanTwo
            );
        }
        assert!(ScoringRule::try_create(kind, 2, &fin(10, 1)).is_ok());
    }
}

#[test]
fn create_rejects_bogus_liquidity_shapes() {
    for kind in all_kinds() {
        for bad in [Numeric::Nan, Numeric::Infinite, fin(-1, 1), fin(0, 1)] {
            assert_eq!(
                ScoringRule::try_create(kind, 2, &bad).unwrap_err(),
                AMMError::BogusLiquidityParam
            );
        }
        // The threshold itself is accepted; just below it is not.
        assert!(ScoringRule::try_create(kind, 2, &fin(1, 10000)).is_ok());
        assert_eq!(
            ScoringRule::try_create(kind, 2, &fin(1, 10001)).unwrap_err(),
            AMMError::BogusLiquidityParam
        );
    }
}

#[test]
fn purchase_validation_errors() {
    let mut msr = ScoringRule::try_create(ScoringRuleKind::Lmsr, 2, &fin(10, 1)).unwrap();
    let cases: Vec<(Vec<Numeric>, PurchaseError)> = vec![
        (vec![Numeric::Nan, fin(1, 1)], PurchaseError::NonNormalPurchase),
        (vec![fin(1, 1), Numeric::Infinite], PurchaseError::NonNormalPurchase),
        (vec![fin(-1, 1), fin(1, 1)], PurchaseError::NegativePurchase),
        // The not-a-number check fires before the negative check on the
        // same component's turn, and the scan is left to right.
        (vec![fin(-1, 1), Numeric::Nan], PurchaseError::NegativePurchase),
        (vec![Numeric::Nan, fin(-1, 1)], PurchaseError::NonNormalPurchase),
        // Everything below one millionth counts as zero.
        (vec![fin(1, 2000000), fin(9, 10000000)], PurchaseError::TooSmall),
        (vec![], PurchaseError::TooSmall),
    ];
    for (vector, expected) in cases {
        let before = msr.total_securities.clone();
        assert_eq!(msr.purchase(&vector).unwrap_err(), expected);
        assert_eq!(before, msr.total_securities);
    }
    // A vector with one component at the threshold is accepted.
    assert!(msr.purchase(&vec![fin(1, 1000000), fin(0, 1)]).is_ok());
}

#[test]
fn purchase_overflow_leaves_state_untouched() {
    let mut msr = ScoringRule::try_create(ScoringRuleKind::Lmsr, 2, &fin(10, 1)).unwrap();
    let big = fin(i64::MAX, 1);
    msr.purchase(&vec![big, big]).unwrap();
    let before = msr.total_securities.clone();
    assert_eq!(
        msr.purchase(&vec![big, big]).unwrap_err(),
        PurchaseError::AmountOverflow
    );
    assert_eq!(before, msr.total_securities);
}

#[test]
fn purchase_accumulates_exactly() {
    let mut msr = ScoringRule::try_create(ScoringRuleKind::Lmsr, 2, &fin(10, 1)).unwrap();
    msr.purchase(&vec![fin(1, 2), fin(1, 3)]).unwrap();
    msr.purchase(&vec![fin(1, 2), fin(2, 3)]).unwrap();
    // 0 + 1/2 + 1/2 == 1 and 0 + 1/3 + 2/3 == 1, exactly.
    assert!(rat_value_eq(&msr.total_securities[0], &rat(1, 1)));
    assert!(rat_value_eq(&msr.total_securities[1], &rat(1, 1)));
}

#[test]
fn odds_total_must_be_1() {
    let purchase_vectors =
        vec![vec![fin(1, 1), fin(3, 1), fin(2, 7)], vec![fin(5, 3), fin(1, 2), fin(4, 1)]];
    for mut msr in get_all_marketmakers(3, fin(1, 2)) {
        for p in &purchase_vectors {
            msr.purchase(p).unwrap();
        }
        let odds = msr.odds().unwrap();
        // The exact rational sum of the odds is one.
        let mut num: i128 = 0;
        let mut den: i128 = 1;
        for o in &odds {
            num = num * o.denominator() as i128 + o.numerator() as i128 * den;
            den *= o.denominator() as i128;
        }
        assert_eq!(num, den);
        // And the floating rendering is within a tight tolerance of one.
        let total: f64 = odds.iter().map(rat_to_f64).sum();
        assert!(total - 1.0 < 0.00000000001 && 1.0 - total < 0.00000000001);
    }
}

#[test]
fn odds_concrete_values() {
    let mut msr = ScoringRule::try_create(ScoringRuleKind::Lmsr, 2, &fin(10, 1)).unwrap();
    assert!(msr.odds().is_none());
    msr.purchase(&vec![fin(1, 1), fin(3, 1)]).unwrap();
    let odds = msr.odds().unwrap();
    assert!(rat_value_eq(&odds[0], &rat(1, 4)));
    assert!(rat_value_eq(&odds[1], &rat(3, 4)));
}

#[test]
fn bounded_loss_is_fixed_for_lmsr() {
    for kind in [ScoringRuleKind::Lmsr, ScoringRuleKind::LogSumExpLmsr] {
        let mut msr = ScoringRule::try_create(kind, 2, &fin(20, 1)).unwrap();
        let fresh = msr.bounded_loss().unwrap();
        msr.purchase(&vec![fin(7, 2), fin(11, 3)]).unwrap();
        msr.purchase(&vec![fin(1, 1), fin(2, 1)]).unwrap();
        let after = msr.bounded_loss().unwrap();
        assert_eq!(fresh, after);
        assert_eq!(after.outcomes, 2);
        assert!(rat_value_eq(&after.liquidity, &rat(20, 1)));
        // ln(n) * b, to floating precision.
        let loss = (after.outcomes as f64).ln() * rat_to_f64(&after.liquidity);
        let expected = 2f64.ln() * 20.0;
        assert!(loss - expected < 1e-12 && expected - loss < 1e-12);
    }
}

#[test]
fn bounded_loss_tracks_issuance_for_ls_lmsr() {
    let alpha = fin(1, 20);
    let mut msr = ScoringRule::try_create(ScoringRuleKind::LsLmsr, 2, &alpha).unwrap();
    msr.purchase(&vec![fin(1, 1), fin(3, 1)]).unwrap();
    let l = msr.bounded_loss().unwrap();
    assert_eq!(l.outcomes, 2);
    // alpha * sum(q) = (1/20) * 4 = 1/5, exactly.
    assert!(rat_value_eq(&l.liquidity, &rat(1, 5)));
    msr.purchase(&vec![fin(2, 1), fin(4, 1)]).unwrap();
    let l = msr.bounded_loss().unwrap();
    // alpha * sum(q) = (1/20) * 10 = 1/2, exactly.
    assert!(rat_value_eq(&l.liquidity, &rat(1, 2)));
}

#[test]
fn ls_lmsr_liquidity_is_derived() {
    let alpha = fin(1, 2);
    let mut msr = ScoringRule::try_create(ScoringRuleKind::LsLmsr, 2, &alpha).unwrap();
    // Before any issuance the derived liquidity is zero and the
    // cost-function arguments are unavailable.
    assert!(rat_value_eq(&msr.b().unwrap(), &rat(0, 1)));
    assert!(msr.cost_exponents().is_none());
    msr.purchase(&vec![fin(3, 1), fin(5, 1)]).unwrap();
    assert!(rat_value_eq(&msr.b().unwrap(), &rat(4, 1)));
    assert!(msr.cost_exponents().is_some());
}

#[test]
fn stabilized_exponents_shift_by_the_maximum() {
    let mut msr = ScoringRule::try_create(ScoringRuleKind::Lmsr, 2, &fin(20, 1)).unwrap();
    msr.purchase(&vec![fin(1, 1), fin(736, 1)]).unwrap();
    let raw = msr.cost_exponents().unwrap();
    let (m, shifted) = msr.stabilized_cost_exponents().unwrap();
    // The maximum is 736/20.
    assert!(rat_value_eq(&m, &rat(736, 20)));
    // Each shifted argument is at most zero and differs from the raw
    // argument by exactly the maximum.
    for (s, r) in shifted.iter().zip(raw.iter()) {
        assert!(rat_to_f64(s) <= 0.0);
        let recovered = rat_to_f64(s) + rat_to_f64(&m);
        let diff = recovered - rat_to_f64(r);
        assert!(diff < 1e-12 && -diff < 1e-12);
    }
}

#[test]
fn two_lmsr_must_return_same_results() {
    let vectors = vec![
        vec![fin(1, 2), fin(3, 4)],
        vec![fin(100, 1), fin(200, 3)],
        vec![fin(1, 1), fin(736, 1)],
    ];
    for purchase_vector in vectors {
        let liquidity = fin(20, 1);
        let mut msr1 = ScoringRule::try_create(ScoringRuleKind::Lmsr, 2, &liquidity).unwrap();
        let mut msr2 =
            ScoringRule::try_create(ScoringRuleKind::LogSumExpLmsr, 2, &liquidity).unwrap();
        msr1.purchase(&purchase_vector).unwrap();
        msr2.purchase(&purchase_vector).unwrap();
        let c1 = cost_naive(&msr1);
        let c2 = cost_log_sum_exp(&msr2);
        assert!(c1 - c2 < 0.00000001 && c2 - c1 < 0.00000001);
    }
}
