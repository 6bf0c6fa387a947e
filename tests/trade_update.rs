use lfest::currency::SCALE;
use lfest::market_state::MarketState;
use lfest::market_update::Trade;
use lfest::types::{LimitOrder, Side};

fn pending_limit(side: Side, price: i64, qty: i64) -> lfest::types::PendingLimitOrder {
    LimitOrder::new(side, price * SCALE, qty * SCALE).unwrap().into_pending(0, 0)
}

fn trade(price: i64, qty: i64, side: Side) -> Trade<i64> {
    Trade { price: price * SCALE, quantity: qty * SCALE, side, timestamp_exchange_ns: 0 }
}

#[test]
fn trade_update_market_state() {
    let trade = Trade {
        price: 100 * SCALE,
        quantity: 5 * SCALE,
        side: Side::Buy,
        timestamp_exchange_ns: 0,
    };
    let mut state = MarketState::new();
    trade.update_market_state(&mut state);
    assert_eq!(state.last_trade_price, 100 * SCALE);
}

#[test]
fn trade_update_display() {
    let trade = Trade {
        price: 100 * SCALE,
        quantity: 5 * SCALE,
        side: Side::Buy,
        timestamp_exchange_ns: 0,
    };
    assert_eq!(
        &trade.to_string(),
        "price 100.00000 Quote, quantity: 5.00000 Base, side: Buy"
    );
}

#[test]
fn size_of_trade() {
    assert_eq!(std::mem::size_of::<Trade<i32>>(), 24);
    assert_eq!(std::mem::size_of::<Trade<i64>>(), 32);
}

#[test]
fn trade_display_fraction_and_sign() {
    let t = Trade { price: -1_234_567, quantity: 42, side: Side::Sell, timestamp_exchange_ns: 0 };
    assert_eq!(&t.to_string(), "price -12.34567 Quote, quantity: 0.00042 Base, side: Sell");
}

#[test]
fn trade_update_can_fill_bids_asks() {
    let buy = trade(100, 5, Side::Buy);
    assert!(!buy.can_fill_bids());
    assert!(buy.can_fill_asks());
    let sell = trade(100, 5, Side::Sell);
    assert!(sell.can_fill_bids());
    assert!(!sell.can_fill_asks());
}

#[test]
fn trade_update_fills_buy_order_never() {
    let order = pending_limit(Side::Buy, 100, 5);
    for price in [90, 95, 100, 105, 110] {
        assert!(!trade(price, 5, Side::Buy).fills_order(&order));
    }
}

#[test]
fn trade_update_fills_buy_order() {
    let order = pending_limit(Side::Buy, 100, 5);
    for price in [90, 95, 99] {
        assert!(trade(price, 5, Side::Sell).fills_order(&order));
    }
}

#[test]
fn trade_update_fills_buy_order_not() {
    let order = pending_limit(Side::Buy, 100, 5);
    for price in [100, 101, 105, 110] {
        assert!(!trade(price, 5, Side::Sell).fills_order(&order));
    }
}

#[test]
fn trade_update_fills_sell_order_never() {
    let order = pending_limit(Side::Sell, 100, 5);
    for price in [90, 95, 100, 105, 110] {
        assert!(!trade(price, 5, Side::Sell).fills_order(&order));
    }
}

#[test]
fn trade_update_fills_sell_order() {
    let order = pending_limit(Side::Sell, 100, 5);
    for price in [101, 105, 110] {
        assert!(trade(price, 5, Side::Buy).fills_order(&order));
    }
}

#[test]
fn trade_update_fills_sell_order_not() {
    let order = pending_limit(Side::Sell, 100, 5);
    for price in [90, 95, 99] {
        assert!(!trade(price, 5, Side::Buy).fills_order(&order));
    }
}

#[test]
fn trade_limit_order_filled_some() {
    for price in [100, 110, 120] {
        for qty in [1, 2, 3] {
            for side in [Side::Buy, Side::Sell] {
                let mut t = trade(price, qty, side);
                let offset = match side {
                    Side::Buy => -1,
                    Side::Sell => 1,
                };
                let order = pending_limit(side.inverted(), price + offset, qty);
                assert_eq!(t.limit_order_filled(&order).unwrap(), (qty * SCALE, true));
                assert_eq!(t.quantity, 0, "Trade quantity is reduced as well");
            }
        }
    }
}

#[test]
fn trade_limit_order_filled_none() {
    for price in [100, 110, 120] {
        for qty in [1, 2, 3] {
            for side in [Side::Buy, Side::Sell] {
                let mut t = Trade { price: price * SCALE, quantity: qty * SCALE, side, timestamp_exchange_ns: 0 };
                let offset = match side {
                    Side::Buy => -SCALE,
                    Side::Sell => SCALE,
                };
                let half = qty * SCALE / 2;
                let order = LimitOrder::new(side.inverted(), price * SCALE + offset, half)
                    .unwrap()
                    .into_pending(0, 0);
                assert_eq!(t.limit_order_filled(&order).unwrap(), (half, false));
                assert_eq!(t.quantity, qty * SCALE - half, "Trade quantity is reduced as well");
            }
        }
    }
}

#[test]
fn trade_does_not_fill_uncrossed_order() {
    let mut t = trade(100, 1, Side::Sell);
    let order = pending_limit(Side::Buy, 100, 1);
    assert_eq!(t.limit_order_filled(&order), None);
    assert_eq!(t.quantity, SCALE);
}
