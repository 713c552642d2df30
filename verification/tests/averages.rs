use price_store::store::{calc_average, PriceStore};
use price_store::wire::QueryMessage;

#[test]
fn test_calc_average() {
    let mut prices = PriceStore::new();
    prices.insert(1, 10);
    prices.insert(2, 20);
    prices.insert(3, 30);
    prices.insert(4, 40);
    prices.insert(5, 50);

    let message = QueryMessage { tag: 0, mintime: 2, maxtime: 4 };

    let average = calc_average(&message, &prices);
    assert_eq!(average, 30);
}

#[test]
fn test_average_all_distinct_covering_range() {
    let mut prices = PriceStore::new();
    prices.insert(10, 1);
    prices.insert(20, 2);
    prices.insert(30, 4);

    let message = QueryMessage { tag: 0, mintime: i32::MIN, maxtime: i32::MAX };
    assert_eq!(calc_average(&message, &prices), 2); // (1 + 2 + 4) / 3 truncated

    let odd = QueryMessage { tag: 0, mintime: 10, maxtime: 20 };
    assert_eq!(calc_average(&odd, &prices), 1); // (1 + 2) / 2 truncated
}

#[test]
fn test_average_overwrites_previous_price() {
    let mut prices = PriceStore::new();
    prices.insert(7, 5);
    prices.insert(7, 9);

    let message = QueryMessage { tag: 0, mintime: 7, maxtime: 7 };
    assert_eq!(calc_average(&message, &prices), 9);
    assert_eq!(prices.get(7), Some(9));
    assert_eq!(prices.len(), 1);
}

#[test]
fn test_average_inverted_range_is_zero() {
    let mut prices = PriceStore::new();
    prices.insert(1, 100);
    prices.insert(2, 200);

    let message = QueryMessage { tag: 0, mintime: 2, maxtime: 1 };
    assert_eq!(calc_average(&message, &prices), 0);
}

#[test]
fn test_average_vacant_range_is_zero() {
    let mut prices = PriceStore::new();
    prices.insert(1, 100);
    prices.insert(10, 200);

    let message = QueryMessage { tag: 0, mintime: 2, maxtime: 9 };
    assert_eq!(calc_average(&message, &prices), 0);

    let empty_store = PriceStore::new();
    let all = QueryMessage { tag: 0, mintime: i32::MIN, maxtime: i32::MAX };
    assert_eq!(calc_average(&all, &empty_store), 0);
}

#[test]
fn test_average_truncates_toward_zero() {
    let mut prices = PriceStore::new();
    prices.insert(1, -5);
    prices.insert(2, 0);

    let message = QueryMessage { tag: 0, mintime: 1, maxtime: 2 };
    // sum -5 over count 2: truncation toward zero gives -2, not -3.
    assert_eq!(calc_average(&message, &prices), -2);
}

#[test]
fn test_average_of_extreme_prices() {
    let mut prices = PriceStore::new();
    prices.insert(1, i32::MIN);
    prices.insert(2, i32::MIN);

    let message = QueryMessage { tag: 0, mintime: 1, maxtime: 2 };
    assert_eq!(calc_average(&message, &prices), i32::MIN);

    prices.insert(3, i32::MAX);
    prices.insert(4, i32::MAX);
    let top = QueryMessage { tag: 0, mintime: 3, maxtime: 4 };
    assert_eq!(calc_average(&top, &prices), i32::MAX);
}
