//! Constant-product market maker behaviour: the product of reserves is
//! preserved by trades, increased by funding, and every malformed order
//! is rejected with the reserves untouched.

use amm::cfmm::{AssetIndex, ConstantProductMarketMaker, Error, OrderInfo, OrderType};
use amm::rational::Ratio;
use amm::{AssetId, AssetInfo};

fn rat(num: i64, den: u64) -> Ratio {
    Ratio::new(num, den).unwrap()
}

fn asset_id(lo: u128) -> AssetId {
    AssetId { hi: 0, lo }
}

fn asset(lo: u128, amount: Ratio, ticker: &str) -> AssetInfo {
    AssetInfo::new(asset_id(lo), amount, ticker.to_string()).unwrap()
}

/// A pool with reserves base=100, quote=100 (k = 10000).
fn square_pool() -> ConstantProductMarketMaker {
    ConstantProductMarketMaker::try_create(
        asset(1, rat(100, 1), "BASE"),
        asset(2, rat(100, 1), "QUOTE"),
    )
    .unwrap()
}

fn order(lo: u128, amount: Ratio, order_type: OrderType) -> OrderInfo {
    let index = if lo == 1 { AssetIndex::Zero } else { AssetIndex::One };
    OrderInfo::new(index, asset_id(lo), amount, order_type)
}

/// Exact equality of two rational values by cross multiplication.
fn rat_value_eq(a: &Ratio, b: &Ratio) -> bool {
    a.numerator() as i128 * b.denominator() as i128
        == b.numerator() as i128 * a.denominator() as i128
}

/// The pool's product of reserves, as an exact `i128` pair.
fn k_of(pool: &ConstantProductMarketMaker) -> (i128, i128) {
    let b = &pool.base_asset.amount;
    let q = &pool.quote_asset.amount;
    (
        b.numerator() as i128 * q.numerator() as i128,
        b.denominator() as i128 * q.denominator() as i128,
    )
}

fn k_values_eq(a: (i128, i128), b: (i128, i128)) -> bool {
    a.0 * b.1 == b.0 * a.1
}

#[test]
fn create_rejects_bad_pairs() {
    assert_eq!(
        ConstantProductMarketMaker::try_create(
            asset(1, rat(100, 1), "A"),
            asset(1, rat(100, 1), "A"),
        )
        .unwrap_err(),
        Error::DuplicateAssetId
    );
    assert_eq!(
        ConstantProductMarketMaker::try_create(
            asset(1, rat(0, 1), "A"),
            asset(2, rat(100, 1), "B"),
        )
        .unwrap_err(),
        Error::NonPositiveAmount
    );
}

#[test]
fn end_to_end_buy_of_quote() {
    let mut pool = square_pool();
    let d = pool.order(&order(2, rat(10, 1), OrderType::Buy)).unwrap();
    // Counter-amount 10000/(100-10) - 100 = 100/9 = 11.11...
    assert!(rat_value_eq(&d, &rat(100, 9)));
    let df = d.numerator() as f64 / d.denominator() as f64;
    assert!(df - 11.11 < 0.002 && 11.11 - df < 0.002);
    // Post-order reserves: quote 90, base 10000/90, product exactly 10000.
    assert!(rat_value_eq(&pool.quote_asset.amount, &rat(90, 1)));
    assert!(rat_value_eq(&pool.base_asset.amount, &rat(10000, 90)));
    let k = k_of(&pool);
    assert!(k_values_eq(k, (10000, 1)));
}

#[test]
fn order_preserves_k_in_both_directions_and_roles() {
    let cases = [
        (1, OrderType::Buy),
        (1, OrderType::Sell),
        (2, OrderType::Buy),
        (2, OrderType::Sell),
    ];
    for (lo, order_type) in cases {
        let mut pool = square_pool();
        let before = k_of(&pool);
        pool.order(&order(lo, rat(10, 1), order_type)).unwrap();
        assert!(k_values_eq(before, k_of(&pool)));
    }
}

#[test]
fn order_direction_moves_the_right_reserve() {
    // A buy of an asset removes it from its reserve; a sell adds to it.
    let mut pool = square_pool();
    pool.order(&order(1, rat(10, 1), OrderType::Buy)).unwrap();
    assert!(rat_value_eq(&pool.base_asset.amount, &rat(90, 1)));
    assert!(rat_value_eq(&pool.quote_asset.amount, &rat(10000, 90)));

    let mut pool = square_pool();
    pool.order(&order(1, rat(10, 1), OrderType::Sell)).unwrap();
    assert!(rat_value_eq(&pool.base_asset.amount, &rat(110, 1)));
    assert!(rat_value_eq(&pool.quote_asset.amount, &rat(10000, 110)));

    let mut pool = square_pool();
    pool.order(&order(2, rat(10, 1), OrderType::Sell)).unwrap();
    assert!(rat_value_eq(&pool.quote_asset.amount, &rat(110, 1)));
    assert!(rat_value_eq(&pool.base_asset.amount, &rat(10000, 110)));
}

#[test]
fn sell_returns_the_counter_move() {
    let mut pool = square_pool();
    let d = pool.order(&order(2, rat(10, 1), OrderType::Sell)).unwrap();
    // 100 - 10000/110 = 1000/110 = 9.09...
    assert!(rat_value_eq(&d, &rat(1000, 110)));
}

#[test]
fn order_unknown_asset_is_rejected() {
    let mut pool = square_pool();
    let before = k_of(&pool);
    assert_eq!(
        pool.order(&order(3, rat(10, 1), OrderType::Buy)).unwrap_err(),
        Error::UnknownAssetId
    );
    assert!(rat_value_eq(&pool.base_asset.amount, &rat(100, 1)));
    assert!(rat_value_eq(&pool.quote_asset.amount, &rat(100, 1)));
    assert!(k_values_eq(before, k_of(&pool)));
    assert_eq!(
        pool.price_for_order(&order(3, rat(10, 1), OrderType::Buy)).unwrap_err(),
        Error::UnknownAssetId
    );
}

#[test]
fn order_draining_a_reserve_is_rejected() {
    for amount in [rat(100, 1), rat(101, 1), rat(1000, 1)] {
        let mut pool = square_pool();
        assert_eq!(
            pool.order(&order(2, amount, OrderType::Buy)).unwrap_err(),
            Error::InsufficientReserve
        );
        assert!(rat_value_eq(&pool.quote_asset.amount, &rat(100, 1)));
        assert!(rat_value_eq(&pool.base_asset.amount, &rat(100, 1)));
    }
    // One unit below the reserve is still fillable.
    let mut pool = square_pool();
    assert!(pool.order(&order(2, rat(99, 1), OrderType::Buy)).is_ok());
}

#[test]
fn order_rejects_non_positive_amounts() {
    let mut pool = square_pool();
    for amount in [rat(0, 1), rat(-10, 1)] {
        assert_eq!(
            pool.order(&order(2, amount, OrderType::Buy)).unwrap_err(),
            Error::NonPositiveAmount
        );
    }
}

#[test]
fn price_for_order_quotes_without_mutating() {
    let pool = square_pool();
    let y = pool.price_for_order(&order(2, rat(10, 1), OrderType::Buy)).unwrap();
    // The quoted level of the base reserve: 10000/90.
    assert!(rat_value_eq(&y, &rat(10000, 90)));
    assert!(rat_value_eq(&pool.base_asset.amount, &rat(100, 1)));
    assert!(rat_value_eq(&pool.quote_asset.amount, &rat(100, 1)));
}

#[test]
fn fund_increases_k_strictly() {
    let mut pool = square_pool();
    let before = k_of(&pool);
    pool.fund(&asset(1, rat(50, 1), "BASE")).unwrap();
    let after = k_of(&pool);
    // k went from 10000 to 15000, exactly.
    assert!(k_values_eq(after, (15000, 1)));
    assert!(before.0 * after.1 < after.0 * before.1);
    assert!(rat_value_eq(&pool.base_asset.amount, &rat(150, 1)));

    pool.fund(&asset(2, rat(1, 2), "QUOTE")).unwrap();
    assert!(rat_value_eq(&pool.quote_asset.amount, &rat(201, 2)));
}

#[test]
fn fund_rejects_unknown_and_zero() {
    let mut pool = square_pool();
    assert_eq!(
        pool.fund(&asset(9, rat(50, 1), "X")).unwrap_err(),
        Error::UnknownAssetId
    );
    assert_eq!(
        pool.fund(&asset(1, rat(0, 1), "BASE")).unwrap_err(),
        Error::NonPositiveAmount
    );
    assert!(rat_value_eq(&pool.base_asset.amount, &rat(100, 1)));
    assert!(rat_value_eq(&pool.quote_asset.amount, &rat(100, 1)));
}

#[test]
fn price_is_the_reserve_ratio() {
    let pool = ConstantProductMarketMaker::try_create(
        asset(1, rat(300, 1), "BASE"),
        asset(2, rat(100, 1), "QUOTE"),
    )
    .unwrap();
    let p = pool.price().unwrap();
    assert!(rat_value_eq(&p, &rat(3, 1)));
}

#[test]
fn asset_lookup_by_id() {
    let pool = square_pool();
    assert_eq!(pool.asset_by_id(&asset_id(1)).unwrap().ticker, "BASE");
    assert_eq!(pool.asset_by_id(&asset_id(2)).unwrap().ticker, "QUOTE");
    assert_eq!(pool.asset_by_id(&asset_id(7)).unwrap_err(), Error::UnknownAssetId);
}

#[test]
fn order_overflow_leaves_reserves_untouched() {
    // Reserves so large that the exact product of reserves cannot be
    // represented in the 64-bit pair.
    let mut pool = ConstantProductMarketMaker::try_create(
        asset(1, Ratio::from_int(i64::MAX), "BASE"),
        asset(2, Ratio::from_int(i64::MAX), "QUOTE"),
    )
    .unwrap();
    assert_eq!(
        pool.order(&order(2, rat(10, 1), OrderType::Buy)).unwrap_err(),
        Error::AmountOverflow
    );
    assert!(rat_value_eq(&pool.base_asset.amount, &Ratio::from_int(i64::MAX)));
    assert!(rat_value_eq(&pool.quote_asset.amount, &Ratio::from_int(i64::MAX)));
}

#[test]
fn asset_lookup_by_index() {
    let pool = square_pool();
    assert_eq!(pool.asset_by_index(AssetIndex::Zero).ticker, "BASE");
    assert_eq!(pool.asset_by_index(AssetIndex::One).ticker, "QUOTE");
}
