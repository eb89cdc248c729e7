//! The request and response shapes a service exchanges with the engine.

use amm::dto::{GetPriceForPurchase, GetPricesAtThePoint, MarketId, Purchase};
use amm::rational::Ratio;
use amm::utils::Numeric;

#[test]
fn request_shapes_carry_plain_values() {
    let vector = vec![
        Numeric::Finite(Ratio::from_int(1)),
        Numeric::Finite(Ratio::new(736, 1).unwrap()),
    ];
    let ask = GetPriceForPurchase { purchase_vector: vector.clone() };
    let buy = Purchase { purchase_vector: vector };
    assert_eq!(ask.purchase_vector.len(), 2);
    assert_eq!(buy.purchase_vector.len(), 2);
    let point = GetPricesAtThePoint {};
    assert_eq!(point, GetPricesAtThePoint {});
    let id = MarketId(7);
    assert_eq!(id, MarketId(7));
    assert_ne!(id, MarketId(8));
}
