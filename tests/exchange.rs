use lfest::config::{Config, ContractSpec};
use lfest::currency::{AMOUNT_MAX, SCALE};
use lfest::exchange::Exchange;
use lfest::filters::{PriceFilter, QuantityFilter};
use lfest::market_update::{Bba, MarketUpdate, Trade};
use lfest::position::{Position, PositionInner};
use lfest::types::{CancelBy, Error, LimitOrder, LimitOrderFill, MarketOrder, Side};

const FEE_MAKER: i64 = 20; // 0.0002
const FEE_TAKER: i64 = 60; // 0.0006

fn config(wallet: i64, imr: i64, mmr: i64, max_orders: usize, orders_per_second: u16) -> Config {
    Config {
        contract_spec: ContractSpec {
            price_filter: PriceFilter {
                min_price: 1_000,
                max_price: AMOUNT_MAX,
                tick_size: 1_000,
                multiplier_up: 2 * SCALE,
                multiplier_down: 0,
            },
            quantity_filter: QuantityFilter { min_quantity: 1_000, max_quantity: 1_000 * SCALE, step_size: 1_000 },
            fee_maker: FEE_MAKER,
            fee_taker: FEE_TAKER,
            init_margin_req: imr,
            maintenance_margin_req: mmr,
        },
        orders_per_second,
        max_num_open_orders: max_orders,
        starting_wallet_balance: wallet,
    }
}

fn exchange() -> Exchange {
    let c = config(1_000 * SCALE, SCALE, SCALE / 2, 10, 100);
    assert!(c.is_valid());
    Exchange::new(c)
}

fn bba(bid: i64, ask: i64) -> MarketUpdate {
    MarketUpdate::Bba(Bba { bid: bid * SCALE, ask: ask * SCALE, timestamp_exchange_ns: 1 })
}

fn trade(price: i64, qty: i64, side: Side) -> MarketUpdate {
    MarketUpdate::Trade(Trade { price: price * SCALE, quantity: qty * SCALE, side, timestamp_exchange_ns: 1 })
}

fn limit(side: Side, price: i64, qty: i64) -> LimitOrder {
    LimitOrder::new(side, price * SCALE, qty * SCALE).unwrap()
}

#[test]
fn partial_limit_fill_buy_side() {
    let mut ex = exchange();
    assert!(ex.update_state(&bba(100, 101)).unwrap().is_empty());
    let o = ex.submit_limit_order(limit(Side::Buy, 100, 2)).unwrap();
    assert_eq!(ex.active_limit_orders().num_active(), 1);
    let fills = ex.update_state(&trade(99, 1, Side::Sell)).unwrap();
    assert_eq!(fills.len(), 1);
    let mut after = o;
    after.remaining_quantity = SCALE;
    assert_eq!(fills[0], LimitOrderFill::PartiallyFilled { filled_quantity: SCALE, fee: 2_000, order_after_fill: after });
    match fills[0] {
        LimitOrderFill::PartiallyFilled { filled_quantity, fee, order_after_fill } => {
            assert_eq!(filled_quantity, SCALE);
            // 1 * 100 * 0.0002 = 0.02
            assert_eq!(fee, 2_000);
            assert_eq!(order_after_fill.remaining_quantity, SCALE);
        }
        _ => panic!("expected a partial fill"),
    }
    assert_eq!(*ex.position(), Position::Long(PositionInner { quantity: SCALE, entry_price: 100 * SCALE }));
    assert_eq!(ex.active_limit_orders().num_active(), 1);
}

#[test]
fn partial_limit_fill_sell_side() {
    let mut ex = exchange();
    ex.update_state(&bba(100, 101)).unwrap();
    let o = ex.submit_limit_order(limit(Side::Sell, 101, 2)).unwrap();
    let fills = ex.update_state(&trade(102, 1, Side::Buy)).unwrap();
    assert_eq!(fills.len(), 1);
    let mut after = o;
    after.remaining_quantity = SCALE;
    assert_eq!(fills[0], LimitOrderFill::PartiallyFilled { filled_quantity: SCALE, fee: 2_020, order_after_fill: after });
    match fills[0] {
        LimitOrderFill::PartiallyFilled { filled_quantity, fee, order_after_fill } => {
            assert_eq!(filled_quantity, SCALE);
            // 1 * 101 * 0.0002 = 0.0202
            assert_eq!(fee, 2_020);
            assert_eq!(order_after_fill.remaining_quantity, SCALE);
        }
        _ => panic!("expected a partial fill"),
    }
    assert_eq!(*ex.position(), Position::Short(PositionInner { quantity: SCALE, entry_price: 101 * SCALE }));
}

#[test]
fn full_fill_removes_order() {
    let mut ex = exchange();
    ex.update_state(&bba(100, 101)).unwrap();
    let o = ex.submit_limit_order(limit(Side::Buy, 100, 1)).unwrap();
    let fills = ex.update_state(&trade(99, 3, Side::Sell)).unwrap();
    assert_eq!(fills.len(), 1);
    match fills[0] {
        LimitOrderFill::FullyFilled { filled_quantity, order_id, side, limit_price, .. } => {
            assert_eq!(filled_quantity, SCALE);
            assert_eq!(order_id, o.id);
            assert_eq!(side, Side::Buy);
            assert_eq!(limit_price, 100 * SCALE);
        }
        _ => panic!("expected a full fill"),
    }
    assert!(ex.active_limit_orders().is_empty());
    assert_eq!(ex.balances().order_margin, i128::from(0));
}

#[test]
fn fills_best_price_first_then_oldest() {
    let mut ex = exchange();
    ex.update_state(&bba(100, 101)).unwrap();
    let a = ex.submit_limit_order(limit(Side::Buy, 98, 1)).unwrap();
    let b = ex.submit_limit_order(limit(Side::Buy, 99, 1)).unwrap();
    let c = ex.submit_limit_order(limit(Side::Buy, 99, 1)).unwrap();
    let fills = ex.update_state(&trade(97, 2, Side::Sell)).unwrap();
    let ids: Vec<u64> = fills
        .iter()
        .map(|f| match f {
            LimitOrderFill::FullyFilled { order_id, .. } => *order_id,
            _ => panic!("expected full fills"),
        })
        .collect();
    assert_eq!(ids, vec![b.id, c.id]);
    assert_eq!(ex.active_limit_orders().num_active(), 1);
    assert_eq!(ex.active_limit_orders().get(0).id, a.id);
}

#[test]
fn good_till_crossing_rejection() {
    let mut ex = exchange();
    ex.update_state(&bba(100, 101)).unwrap();
    let before = *ex.balances();
    assert_eq!(
        ex.submit_limit_order(limit(Side::Buy, 101, 1)),
        Err(Error::GoodTillCrossingRejected { limit_price: 101 * SCALE, away_market_quotation_price: 101 * SCALE })
    );
    assert_eq!(
        ex.submit_limit_order(limit(Side::Sell, 100, 1)),
        Err(Error::GoodTillCrossingRejected { limit_price: 100 * SCALE, away_market_quotation_price: 100 * SCALE })
    );
    assert!(ex.active_limit_orders().is_empty());
    assert_eq!(*ex.balances(), before);
    assert_eq!(*ex.position(), Position::Neutral);
}

#[test]
fn amend_reducing_below_filled() {
    let mut ex = exchange();
    ex.update_state(&bba(100, 101)).unwrap();
    let o = ex.submit_limit_order(limit(Side::Buy, 100, 2)).unwrap();
    ex.update_state(&trade(99, 1, Side::Sell)).unwrap();
    let pos = *ex.position();
    assert_eq!(ex.amend_limit_order(o.id, limit(Side::Buy, 100, 1)), Err(Error::AmendQtyAlreadyFilled));
    assert!(ex.active_limit_orders().is_empty());
    assert_eq!(*ex.position(), pos);
    assert_eq!(ex.balances().order_margin, i128::from(0));
}

#[test]
fn amend_gives_new_id_and_adjusted_leaves() {
    let mut ex = exchange();
    ex.update_state(&bba(100, 101)).unwrap();
    let o = ex.submit_limit_order(limit(Side::Buy, 100, 2)).unwrap();
    ex.update_state(&trade(99, 1, Side::Sell)).unwrap();
    let amended = ex.amend_limit_order(o.id, limit(Side::Buy, 99, 5)).unwrap();
    assert!(amended.id > o.id);
    assert_eq!(amended.total_quantity, 5 * SCALE);
    // 1 left + (5 - 2)
    assert_eq!(amended.remaining_quantity, 4 * SCALE);
    assert_eq!(ex.active_limit_orders().num_active(), 1);
    assert_eq!(ex.active_limit_orders().get(0), amended);
    assert_eq!(ex.active_limit_orders().get_by_id(o.id, Side::Buy), None);
}

#[test]
fn amend_unknown_and_inactive_orders() {
    let mut ex = exchange();
    ex.update_state(&bba(100, 101)).unwrap();
    let o = ex.submit_limit_order(limit(Side::Buy, 100, 1)).unwrap();
    ex.cancel_limit_order(CancelBy::OrderId(o.id)).unwrap();
    assert_eq!(ex.amend_limit_order(o.id, limit(Side::Buy, 100, 2)), Err(Error::OrderNoLongerActive));
    assert_eq!(ex.amend_limit_order(77, limit(Side::Buy, 100, 2)), Err(Error::OrderIdNotFound { order_id: 77 }));
}

#[test]
fn liquidation_closes_position() {
    // 10x leverage, 5% maintenance margin, 100 units deposited.
    let mut ex = Exchange::new(config(100 * SCALE, SCALE / 10, SCALE / 20, 10, 100));
    ex.update_state(&bba(100, 101)).unwrap();
    let filled = ex.submit_market_order(MarketOrder::new(Side::Buy, 5 * SCALE).unwrap()).unwrap();
    assert_eq!(filled.avg_fill_price, 101 * SCALE);
    let resting = ex.submit_limit_order(limit(Side::Buy, 80, 1)).unwrap();
    assert_eq!(ex.update_state(&bba(90, 91)), Err(Error::Liquidation));
    assert_eq!(*ex.position(), Position::Neutral);
    assert_eq!(ex.active_limit_orders().num_active(), 1);
    assert_eq!(ex.active_limit_orders().get(0), resting);
    let b = *ex.balances();
    // sold 5 at 90 after buying at 101
    assert_eq!(b.realized_pnl, i128::from(-55 * SCALE));
    // taker fees: 505 * 0.0006 + 450 * 0.0006
    assert_eq!(b.total_fees_paid, i128::from(30_300 + 27_000));
    assert_eq!(b.position_margin, i128::from(0));
    // a buy of 1 at 80 with 10% margin
    assert_eq!(b.order_margin, i128::from(8 * SCALE));
    assert_eq!(b.available + b.position_margin + b.order_margin, b.wallet_balance + b.realized_pnl - b.total_fees_paid);
}

#[test]
fn position_aware_order_margin() {
    let mut ex = Exchange::new(config(10_000 * SCALE, SCALE / 10, SCALE / 20, 10, 100));
    ex.update_state(&bba(99, 100)).unwrap();
    ex.submit_market_order(MarketOrder::new(Side::Buy, 10 * SCALE).unwrap()).unwrap();
    assert_eq!(*ex.position(), Position::Long(PositionInner { quantity: 10 * SCALE, entry_price: 100 * SCALE }));
    ex.submit_limit_order(limit(Side::Sell, 110, 10)).unwrap();
    assert_eq!(ex.balances().order_margin, i128::from(0));
    ex.submit_limit_order(limit(Side::Sell, 110, 5)).unwrap();
    // 5 * 110 * 0.1
    assert_eq!(ex.balances().order_margin, i128::from(55 * SCALE));
    assert_eq!(ex.order_margin(), ex.balances().order_margin);
}

#[test]
fn order_margin_takes_dominant_side() {
    let mut ex = Exchange::new(config(10_000 * SCALE, SCALE / 10, SCALE / 20, 10, 100));
    ex.update_state(&bba(100, 101)).unwrap();
    ex.submit_limit_order(limit(Side::Buy, 90, 2)).unwrap();
    // 2 * 90 * 0.1
    assert_eq!(ex.balances().order_margin, i128::from(18 * SCALE));
    ex.submit_limit_order(limit(Side::Sell, 110, 1)).unwrap();
    assert_eq!(ex.balances().order_margin, i128::from(18 * SCALE));
    ex.submit_limit_order(limit(Side::Sell, 120, 1)).unwrap();
    // 110 * 0.1 + 120 * 0.1
    assert_eq!(ex.balances().order_margin, i128::from(23 * SCALE));
    let b = *ex.balances();
    assert_eq!(b.available, i128::from(10_000 * SCALE - 23 * SCALE));
}

#[test]
fn order_ids_increase() {
    let mut ex = exchange();
    ex.update_state(&bba(100, 101)).unwrap();
    let a = ex.submit_limit_order(limit(Side::Buy, 100, 1)).unwrap();
    let _ = ex.submit_limit_order(limit(Side::Buy, 101, 1));
    let b = ex.submit_limit_order(limit(Side::Sell, 102, 1)).unwrap();
    let m = ex.submit_market_order(MarketOrder::new(Side::Buy, SCALE).unwrap()).unwrap();
    let c = ex.submit_limit_order(limit(Side::Buy, 99, 1)).unwrap();
    assert!(a.id < b.id && b.id < m.id && m.id < c.id);
}

#[test]
fn cancel_frees_order_margin() {
    let mut ex = exchange();
    ex.update_state(&bba(100, 101)).unwrap();
    let o = ex.submit_limit_order(limit(Side::Buy, 100, 2)).unwrap();
    assert_eq!(ex.balances().order_margin, i128::from(200 * SCALE));
    assert_eq!(ex.balances().available, i128::from(800 * SCALE));
    assert_eq!(ex.cancel_limit_order(CancelBy::OrderId(o.id)), Ok(o));
    assert_eq!(ex.balances().order_margin, i128::from(0));
    assert_eq!(ex.balances().available, i128::from(1_000 * SCALE));
    assert_eq!(ex.cancel_limit_order(CancelBy::OrderId(o.id)), Err(Error::OrderIdNotFound { order_id: o.id }));
}

#[test]
fn cancel_by_user_order_id() {
    let mut ex = exchange();
    ex.update_state(&bba(100, 101)).unwrap();
    let mut order = limit(Side::Sell, 105, 1);
    order.user_order_id = 42;
    let o = ex.submit_limit_order(order).unwrap();
    assert_eq!(ex.cancel_limit_order(CancelBy::UserOrderId(7)), Err(Error::UserOrderIdNotFound { user_order_id: 7 }));
    assert_eq!(ex.cancel_limit_order(CancelBy::UserOrderId(42)), Ok(o));
    assert!(ex.active_limit_orders().is_empty());
}

#[test]
fn filter_errors() {
    let mut ex = exchange();
    ex.update_state(&bba(100, 101)).unwrap();
    let mut o = limit(Side::Buy, 100, 1);
    o.limit_price = 999;
    assert_eq!(ex.submit_limit_order(o), Err(Error::PriceTooLow));
    o.limit_price = AMOUNT_MAX + 1;
    assert_eq!(ex.submit_limit_order(o), Err(Error::PriceTooHigh));
    o.limit_price = 100 * SCALE + 1;
    assert_eq!(ex.submit_limit_order(o), Err(Error::PriceNotMultipleOfTick));
    assert_eq!(ex.submit_limit_order(limit(Side::Sell, 250, 1)), Err(Error::PriceOutOfBand));
    let mut o = limit(Side::Buy, 100, 1);
    o.remaining_quantity = 999;
    assert_eq!(ex.submit_limit_order(o), Err(Error::QtyTooLow));
    let mut o = limit(Side::Buy, 100, 1);
    o.remaining_quantity = 1_000 * SCALE + 1_000;
    o.total_quantity = o.remaining_quantity;
    assert_eq!(ex.submit_limit_order(o), Err(Error::QtyTooHigh));
    let mut o = limit(Side::Buy, 100, 1);
    o.remaining_quantity = SCALE + 1;
    o.total_quantity = SCALE + 1;
    assert_eq!(ex.submit_limit_order(o), Err(Error::QtyNotMultipleOfStep));
    assert!(ex.active_limit_orders().is_empty());
}

#[test]
fn order_constructors_reject_non_positive_values() {
    assert_eq!(LimitOrder::new(Side::Buy, 0, 1), Err(Error::PriceTooLow));
    assert_eq!(LimitOrder::new(Side::Buy, 1, 0), Err(Error::QtyTooLow));
    assert_eq!(MarketOrder::new(Side::Sell, -1), Err(Error::QtyTooLow));
}

#[test]
fn not_enough_balance() {
    let mut ex = exchange();
    ex.update_state(&bba(100, 101)).unwrap();
    assert_eq!(ex.submit_limit_order(limit(Side::Buy, 100, 11)), Err(Error::NotEnoughAvailableBalance));
    assert_eq!(
        ex.submit_market_order(MarketOrder::new(Side::Buy, 10 * SCALE).unwrap()),
        Err(Error::NotEnoughAvailableBalance)
    );
    assert!(ex.active_limit_orders().is_empty());
    assert_eq!(*ex.position(), Position::Neutral);
    assert_eq!(ex.balances().available, i128::from(1_000 * SCALE));
}

#[test]
fn max_active_orders() {
    let mut ex = Exchange::new(config(1_000 * SCALE, SCALE / 10, SCALE / 20, 2, 100));
    ex.update_state(&bba(100, 101)).unwrap();
    ex.submit_limit_order(limit(Side::Buy, 100, 1)).unwrap();
    ex.submit_limit_order(limit(Side::Buy, 99, 1)).unwrap();
    assert_eq!(ex.submit_limit_order(limit(Side::Buy, 98, 1)), Err(Error::MaxActiveOrders));
    assert_eq!(ex.active_limit_orders().num_active(), 2);
}

#[test]
fn rate_limit_exceeded() {
    let mut ex = Exchange::new(config(1_000 * SCALE, SCALE / 10, SCALE / 20, 10, 2));
    ex.update_state(&bba(100, 101)).unwrap();
    ex.submit_limit_order(limit(Side::Buy, 100, 1)).unwrap();
    ex.submit_limit_order(limit(Side::Buy, 99, 1)).unwrap();
    assert_eq!(ex.submit_limit_order(limit(Side::Buy, 98, 1)), Err(Error::RateLimitExceeded));
    let later = MarketUpdate::Bba(Bba { bid: 100 * SCALE, ask: 101 * SCALE, timestamp_exchange_ns: 1_000_000_001 });
    ex.update_state(&later).unwrap();
    assert!(ex.submit_limit_order(limit(Side::Buy, 98, 1)).is_ok());
}

#[test]
fn crossed_quotes_are_refused() {
    let mut ex = exchange();
    assert_eq!(ex.update_state(&bba(101, 101)), Err(Error::BidAskCrossed));
    assert_eq!(ex.market_state().bid, 0);
    ex.update_state(&bba(100, 101)).unwrap();
    let m = *ex.market_state();
    assert!(m.bid < m.ask);
    assert_eq!(m.mid_price(), 100 * SCALE + SCALE / 2);
}

#[test]
fn set_best_bid_and_ask_sets_quotes() {
    let mut ex = exchange();
    ex.set_best_bid_and_ask(100 * SCALE, 101 * SCALE);
    assert_eq!(ex.market_state().bid, 100 * SCALE);
    assert_eq!(ex.market_state().ask, 101 * SCALE);
}

#[test]
fn quote_update_fills_nothing() {
    let mut ex = exchange();
    ex.update_state(&bba(100, 101)).unwrap();
    ex.submit_limit_order(limit(Side::Buy, 100, 1)).unwrap();
    assert!(ex.update_state(&bba(98, 99)).unwrap().is_empty());
    assert_eq!(ex.active_limit_orders().num_active(), 1);
    assert!(ex.check_active_orders(bba(98, 99)).is_empty());
}

#[test]
fn same_side_trade_fills_nothing() {
    let mut ex = exchange();
    ex.update_state(&bba(100, 101)).unwrap();
    ex.submit_limit_order(limit(Side::Buy, 100, 1)).unwrap();
    assert!(ex.update_state(&trade(99, 1, Side::Buy)).unwrap().is_empty());
    assert!(ex.update_state(&trade(100, 1, Side::Sell)).unwrap().is_empty());
    assert_eq!(*ex.position(), Position::Neutral);
}

#[test]
fn closing_fill_realizes_pnl() {
    let mut ex = exchange();
    ex.update_state(&bba(100, 101)).unwrap();
    ex.submit_limit_order(limit(Side::Buy, 100, 1)).unwrap();
    ex.update_state(&trade(99, 1, Side::Sell)).unwrap();
    ex.submit_limit_order(limit(Side::Sell, 110, 1)).unwrap();
    ex.update_state(&trade(111, 1, Side::Buy)).unwrap();
    assert_eq!(*ex.position(), Position::Neutral);
    let b = *ex.balances();
    assert_eq!(b.realized_pnl, i128::from(10 * SCALE));
    assert_eq!(b.total_fees_paid, i128::from(2_000 + 2_200));
    assert_eq!(b.available, i128::from(1_000 * SCALE + 10 * SCALE - 4_200));
    assert_eq!(b.order_margin, i128::from(0));
    assert_eq!(b.position_margin, i128::from(0));
}

#[test]
fn fresh_exchange_has_headroom() {
    let ex = exchange();
    assert!(ex.has_headroom());
    assert_eq!(ex.balances().available, i128::from(1_000 * SCALE));
    assert_eq!(ex.account().balances.available, i128::from(1_000 * SCALE));
    assert!(ex.account().active_limit_orders.is_empty());
    assert_eq!(*ex.account().position, Position::Neutral);
}

#[test]
fn gap_through_liquidation_leaves_deficit() {
    let mut ex = Exchange::new(config(100 * SCALE, SCALE / 10, SCALE / 20, 10, 100));
    ex.update_state(&bba(100, 101)).unwrap();
    ex.submit_limit_order(limit(Side::Buy, 100, 9)).unwrap();
    assert_eq!(ex.balances().order_margin, i128::from(90 * SCALE));
    ex.update_state(&trade(99, 9, Side::Sell)).unwrap();
    assert_eq!(ex.balances().position_margin, i128::from(90 * SCALE));
    assert_eq!(ex.update_state(&bba(50, 51)), Err(Error::Liquidation));
    let b = *ex.balances();
    assert_eq!(b.realized_pnl, i128::from(-450 * SCALE));
    // maker fee on 900 and taker fee on 450
    assert_eq!(b.total_fees_paid, i128::from(18_000 + 27_000));
    assert_eq!(b.available, i128::from(100 * SCALE - 450 * SCALE - 45_000));
    assert!(b.available < 0);
}

#[test]
fn entry_price_is_quantity_weighted() {
    let mut ex = exchange();
    ex.update_state(&bba(99, 100)).unwrap();
    ex.submit_market_order(MarketOrder::new(Side::Buy, SCALE).unwrap()).unwrap();
    ex.update_state(&bba(103, 104)).unwrap();
    ex.submit_market_order(MarketOrder::new(Side::Buy, 3 * SCALE).unwrap()).unwrap();
    // (1 * 100 + 3 * 104) / 4
    assert_eq!(*ex.position(), Position::Long(PositionInner { quantity: 4 * SCALE, entry_price: 103 * SCALE }));
    // 4 * 103 at 100% initial margin
    assert_eq!(ex.balances().position_margin, i128::from(412 * SCALE));
    ex.update_state(&bba(105, 106)).unwrap();
    ex.submit_market_order(MarketOrder::new(Side::Sell, 6 * SCALE).unwrap()).unwrap();
    assert_eq!(*ex.position(), Position::Short(PositionInner { quantity: 2 * SCALE, entry_price: 105 * SCALE }));
    // 4 * (105 - 103)
    assert_eq!(ex.balances().realized_pnl, i128::from(8 * SCALE));
}

#[test]
fn oversized_totals_are_refused() {
    let mut ex = exchange();
    ex.update_state(&bba(100, 101)).unwrap();
    let mut o = limit(Side::Buy, 100, 1);
    o.total_quantity = i64::MAX;
    assert_eq!(ex.submit_limit_order(o), Err(Error::QtyTooHigh));
    let mut o = limit(Side::Buy, 100, 2);
    o.total_quantity = SCALE;
    assert_eq!(ex.submit_limit_order(o), Err(Error::QtyTooHigh));
    let p = ex.submit_limit_order(limit(Side::Buy, 100, 1)).unwrap();
    let mut big = limit(Side::Buy, 100, 1);
    big.total_quantity = i64::MAX;
    assert_eq!(ex.amend_limit_order(p.id, big), Err(Error::QtyTooHigh));
    // the old order is gone: amending is not atomic
    assert!(ex.active_limit_orders().is_empty());
    let mut neg = limit(Side::Buy, 100, 1);
    neg.total_quantity = i64::MIN;
    let q = ex.submit_limit_order(limit(Side::Buy, 99, 1)).unwrap();
    assert_eq!(ex.amend_limit_order(q.id, neg), Err(Error::AmendQtyAlreadyFilled));
}
