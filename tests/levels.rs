use orderbook::decimal::{Dec, MAX_MANTISSA, MAX_SCALE};
use orderbook::levels::{Direction, Offer, PriceLevels};

fn d(mantissa: i128, scale: u32) -> Dec {
    Dec::new(mantissa, scale).unwrap()
}

fn offer(price: i128, size: i128) -> Offer {
    Offer { price: d(price, 0), size: d(size, 0) }
}

#[test]
fn dec_new_accepts_the_representable_range() {
    assert!(Dec::new(MAX_MANTISSA, 0).is_some());
    assert!(Dec::new(-MAX_MANTISSA, MAX_SCALE).is_some());
    assert!(Dec::new(MAX_MANTISSA + 1, 0).is_none());
    assert!(Dec::new(-MAX_MANTISSA - 1, 0).is_none());
    assert!(Dec::new(1, MAX_SCALE + 1).is_none());
    let x = d(-1234, 3);
    assert_eq!(x.mantissa(), -1234);
    assert_eq!(x.scale(), 3);
    assert!(d(0, 5).is_zero());
    assert!(!d(1, 5).is_zero());
}

#[test]
fn upsert_keeps_prices_ascending_whatever_the_insertion_order() {
    let mut side = PriceLevels::new();
    for p in [105, 101, 109, 100, 103] {
        side.upsert(d(p, 0), d(1, 0));
    }
    let prices: Vec<i128> = side
        .ordered(Direction::Ascending)
        .iter()
        .map(|o| o.price.mantissa())
        .collect();
    assert_eq!(prices, vec![100, 101, 103, 105, 109]);
    let down: Vec<i128> = side
        .ordered(Direction::Descending)
        .iter()
        .map(|o| o.price.mantissa())
        .collect();
    assert_eq!(down, vec![109, 105, 103, 101, 100]);
}

#[test]
fn upsert_orders_by_numeric_value_across_scales() {
    let mut side = PriceLevels::new();
    side.upsert(d(101, 0), d(1, 0));
    side.upsert(d(1005, 1), d(2, 0));
    side.upsert(d(100, 0), d(3, 0));
    side.upsert(d(10001, 2), d(4, 0));
    assert_eq!(
        side.ordered(Direction::Ascending),
        vec![
            Offer { price: d(100, 0), size: d(3, 0) },
            Offer { price: d(10001, 2), size: d(4, 0) },
            Offer { price: d(1005, 1), size: d(2, 0) },
            Offer { price: d(101, 0), size: d(1, 0) },
        ]
    );
}

#[test]
fn upsert_overwrites_an_equal_price_keeping_its_first_form() {
    let mut side = PriceLevels::new();
    side.upsert(d(1, 0), d(5, 0));
    side.upsert(d(10, 1), d(7, 0));
    assert_eq!(side.len(), 1);
    assert_eq!(
        side.ordered(Direction::Ascending),
        vec![Offer { price: d(1, 0), size: d(7, 0) }]
    );
}

#[test]
fn upsert_zero_removes_an_equal_price_written_otherwise() {
    let mut side = PriceLevels::new();
    side.upsert(d(1, 0), d(5, 0));
    side.upsert(d(2, 0), d(5, 0));
    side.upsert(d(100, 2), d(0, 3));
    assert_eq!(side.ordered(Direction::Ascending), vec![offer(2, 5)]);
}

#[test]
fn upsert_zero_on_absent_price_changes_nothing() {
    let mut side = PriceLevels::new();
    side.upsert(d(100, 0), d(1, 0));
    side.upsert(d(102, 0), d(2, 0));
    let before = side.ordered(Direction::Ascending);
    side.upsert(d(101, 0), d(0, 0));
    side.upsert(d(99, 0), d(0, 0));
    side.upsert(d(103, 0), d(0, 0));
    assert_eq!(side.ordered(Direction::Ascending), before);
    assert_eq!(side.len(), 2);
}

#[test]
fn upsert_zero_on_empty_side_leaves_it_empty() {
    let mut side = PriceLevels::new();
    side.upsert(d(100, 0), d(0, 0));
    assert_eq!(side.len(), 0);
    assert_eq!(side.ordered(Direction::Descending), Vec::<Offer>::new());
}

#[test]
fn upsert_all_applies_in_order_last_write_wins() {
    let mut side = PriceLevels::new();
    side.upsert_all(&vec![offer(100, 1), offer(100, 2), offer(101, 3), offer(101, 0)]);
    assert_eq!(side.ordered(Direction::Ascending), vec![offer(100, 2)]);
}

#[test]
fn from_snapshot_passes_over_empty_offers() {
    let side = PriceLevels::from_snapshot(&vec![offer(100, 0), offer(101, 2), offer(99, 0)]);
    assert_eq!(side.ordered(Direction::Ascending), vec![offer(101, 2)]);
    // A zero offer in a snapshot is no deletion: a level given a size stays.
    let side = PriceLevels::from_snapshot(&vec![offer(100, 5), offer(100, 0)]);
    assert_eq!(side.ordered(Direction::Ascending), vec![offer(100, 5)]);
}
