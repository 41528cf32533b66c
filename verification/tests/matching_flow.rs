use trade::ledger::Ledger;
use trade::types::{BuyOutcome, OrderStatus};

#[test]
fn buy_matches_and_partially_fills_the_resting_sell() {
    // A is granted 550 units of a stock and offers all of them at 135;
    // B deposits 10000 and buys 10 units at market.
    let mut l = Ledger::new();
    let google = l.create_stock(String::from("Google"));
    l.add_stock_to_user(1, google, 550, 1).unwrap();
    let sell = l.create_sell_order(1, google, 550, 135, 2).unwrap();
    l.add_money_to_user(2, 10_000, 3).unwrap();

    assert_eq!(l.create_buy_order(2, google, 10, 4), Ok(BuyOutcome::Filled));

    // one trade at the sell order's price
    assert_eq!(l.trades.len(), 1);
    assert_eq!(l.trades[0].sell_order, sell);
    assert_eq!(l.trades[0].quantity, 10);
    // the buy order is created already completed
    let buy = l.orders[1];
    assert_eq!(buy.limit_price, None);
    assert_eq!(buy.order_status, OrderStatus::Completed);
    assert_eq!(l.trades[0].buy_order, buy.order_id);
    // the sell order advanced to partially complete (10 of 550 filled)
    assert_eq!(l.orders[0].order_status, OrderStatus::PartiallyComplete);
    // settlement: B paid 10 * 135 = 1350
    assert_eq!(l.get_wallet_balance(2), Ok(8650));
    assert_eq!(l.get_wallet_balance(1), Ok(1350));
    // B's portfolio shows the 10 units
    let p = l.get_stock_portfolio(2).unwrap();
    assert_eq!(p.len(), 1);
    assert_eq!((p[0].stock_id, p[0].quantity_owned), (google, 10));
}

#[test]
fn full_fill_completes_the_sell_order() {
    let mut l = Ledger::new();
    let g = l.create_stock(String::from("Google"));
    l.add_stock_to_user(1, g, 10, 1).unwrap();
    l.create_sell_order(1, g, 10, 135, 2).unwrap();
    l.add_money_to_user(2, 10_000, 3).unwrap();
    assert_eq!(l.create_buy_order(2, g, 10, 4), Ok(BuyOutcome::Filled));
    assert_eq!(l.orders[0].order_status, OrderStatus::Completed);
}

#[test]
fn price_priority_prefers_the_lower_ask() {
    // two resting sell orders at 105 and 100: the buy matches the 100 one,
    // regardless of creation order
    let mut l = Ledger::new();
    let g = l.create_stock(String::from("Google"));
    let dearer = l.create_sell_order(1, g, 50, 105, 1).unwrap();
    let cheaper = l.create_sell_order(2, g, 50, 100, 2).unwrap();
    l.add_money_to_user(3, 10_000, 3).unwrap();
    assert_eq!(l.create_buy_order(3, g, 10, 4), Ok(BuyOutcome::Filled));
    assert_eq!(l.trades[0].sell_order, cheaper);
    assert_ne!(l.trades[0].sell_order, dearer);
    assert_eq!(l.get_wallet_balance(3), Ok(10_000 - 1000));
}

#[test]
fn time_priority_breaks_price_ties() {
    // two resting sell orders at the same price 100, created at t1 < t2:
    // the one created at t1 matches first
    let mut l = Ledger::new();
    let g = l.create_stock(String::from("Google"));
    let earlier = l.create_sell_order(1, g, 50, 100, 1).unwrap();
    let later = l.create_sell_order(2, g, 50, 100, 2).unwrap();
    l.add_money_to_user(3, 10_000, 3).unwrap();
    assert_eq!(l.create_buy_order(3, g, 10, 4), Ok(BuyOutcome::Filled));
    assert_eq!(l.trades[0].sell_order, earlier);
    assert_ne!(l.trades[0].sell_order, later);
}

#[test]
fn own_orders_are_never_matched() {
    let mut l = Ledger::new();
    let g = l.create_stock(String::from("Google"));
    l.add_stock_to_user(1, g, 50, 1).unwrap();
    l.create_sell_order(1, g, 50, 100, 2).unwrap();
    // the seller's own buy finds no counterparty
    assert_eq!(l.create_buy_order(1, g, 10, 3), Ok(BuyOutcome::NoLiquidity));
    assert!(l.trades.is_empty());
}

#[test]
fn buy_larger_than_best_remainder_has_no_effect() {
    let mut l = Ledger::new();
    let g = l.create_stock(String::from("Google"));
    l.add_stock_to_user(1, g, 5, 1).unwrap();
    l.create_sell_order(1, g, 5, 130, 2).unwrap();
    l.add_money_to_user(2, 10_000, 3).unwrap();
    assert_eq!(l.create_buy_order(2, g, 2, 4), Ok(BuyOutcome::Filled));
    // 3 units remain; a buy of 5 is accepted but has no effect
    let orders_before = l.orders.clone();
    let trades_before = l.trades.clone();
    assert_eq!(l.create_buy_order(2, g, 5, 5), Ok(BuyOutcome::NoLiquidity));
    assert_eq!(l.orders, orders_before);
    assert_eq!(l.trades, trades_before);
}

#[test]
fn no_overfill_across_many_fills() {
    // repeated buys never push the sum of fills past the order quantity
    let mut l = Ledger::new();
    let g = l.create_stock(String::from("Google"));
    l.add_stock_to_user(1, g, 10, 1).unwrap();
    let sell = l.create_sell_order(1, g, 10, 7, 2).unwrap();
    l.add_money_to_user(2, 1_000, 3).unwrap();
    for step in 0..5 {
        l.create_buy_order(2, g, 3, 4 + step).unwrap();
        let filled: i64 = l
            .trades
            .iter()
            .filter(|t| t.sell_order == sell)
            .map(|t| t.quantity)
            .sum();
        assert!(filled <= 10);
    }
    // 3 + 3 + 3 fill nine units; the fourth and fifth buy of 3 find only 1 left
    assert_eq!(l.trades.len(), 3);
    assert_eq!(l.orders[0].order_status, OrderStatus::PartiallyComplete);
}

#[test]
fn derived_status_follows_the_fill_sum() {
    let mut l = Ledger::new();
    let g = l.create_stock(String::from("Google"));
    l.add_stock_to_user(1, g, 10, 1).unwrap();
    let sell = l.create_sell_order(1, g, 10, 7, 2).unwrap();
    l.add_money_to_user(2, 1_000, 3).unwrap();

    let filled_sum = |l: &Ledger| -> i64 {
        l.trades
            .iter()
            .filter(|t| t.sell_order == sell)
            .map(|t| t.quantity)
            .sum()
    };

    assert_eq!((filled_sum(&l), l.orders[0].order_status), (0, OrderStatus::InProgress));
    l.create_buy_order(2, g, 4, 4).unwrap();
    assert_eq!((filled_sum(&l), l.orders[0].order_status), (4, OrderStatus::PartiallyComplete));
    l.create_buy_order(2, g, 6, 5).unwrap();
    assert_eq!((filled_sum(&l), l.orders[0].order_status), (10, OrderStatus::Completed));
}
