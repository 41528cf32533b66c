use trade::frontend::home;
use trade::ledger::Ledger;
use trade::requests::PlaceStockOrderRequest;
use trade::types::{BuyOutcome, OrderStatus, OrderType, StockPortfolio, StockPrice};

/// Replays the exchange's whole life as one session: grants, resting sell
/// orders, market buys, a second seller, cancellations — checking every
/// projection along the way.
#[test]
fn exchange_session_projections() {
    let vanguard: i64 = 1;
    let guru: i64 = 2;
    let mut l = Ledger::new();

    let google = l.create_stock(String::from("Google"));
    let apple = l.create_stock(String::from("Apple"));
    l.add_stock_to_user(vanguard, google, 550, 1).unwrap();
    l.add_stock_to_user(vanguard, apple, 350, 2).unwrap();

    assert_eq!(
        l.get_stock_portfolio(vanguard).unwrap(),
        vec![
            StockPortfolio {
                stock_id: google,
                stock_name: String::from("Google"),
                quantity_owned: 550
            },
            StockPortfolio {
                stock_id: apple,
                stock_name: String::from("Apple"),
                quantity_owned: 350
            },
        ]
    );

    let sell_google = l.create_sell_order(vanguard, google, 550, 135, 3).unwrap();
    let sell_apple = l.create_sell_order(vanguard, apple, 350, 140, 4).unwrap();

    // everything offered: nothing owned any more
    assert_eq!(l.get_stock_portfolio(vanguard).unwrap(), vec![]);

    let txs = l.get_stock_transactions(vanguard);
    assert_eq!(txs.len(), 2);
    assert_eq!(
        (txs[0].order_status, txs[0].order_type, txs[0].is_buy, txs[0].stock_price, txs[0].quantity),
        (OrderStatus::InProgress, OrderType::Limit, false, 135, 550)
    );
    assert_eq!(
        (txs[1].order_status, txs[1].order_type, txs[1].is_buy, txs[1].stock_price, txs[1].quantity),
        (OrderStatus::InProgress, OrderType::Limit, false, 140, 350)
    );

    assert_eq!(
        l.get_stock_prices(),
        vec![
            StockPrice { stock_id: google, stock_name: String::from("Google"), current_price: 135 },
            StockPrice { stock_id: apple, stock_name: String::from("Apple"), current_price: 140 },
        ]
    );

    l.add_money_to_user(guru, 10_000, 5).unwrap();
    assert_eq!(l.get_wallet_balance(guru), Ok(10_000));

    // guru buys 10 Google at market: trade at 135
    assert_eq!(l.create_buy_order(guru, google, 10, 6), Ok(BuyOutcome::Filled));

    let txs = l.get_stock_transactions(guru);
    assert_eq!(txs.len(), 1);
    assert_eq!(
        (txs[0].order_status, txs[0].order_type, txs[0].is_buy, txs[0].stock_price, txs[0].quantity),
        (OrderStatus::Completed, OrderType::Market, true, 135, 10)
    );
    assert!(txs[0].wallet_tx_id.is_some());

    let wallet = l.get_wallet_transactions(guru);
    assert_eq!(wallet.len(), 1);
    assert_eq!((wallet[0].is_debit, wallet[0].amount), (true, 1350));

    assert_eq!(l.get_wallet_balance(guru), Ok(8650));
    assert_eq!(
        l.get_stock_portfolio(guru).unwrap(),
        vec![StockPortfolio {
            stock_id: google,
            stock_name: String::from("Google"),
            quantity_owned: 10
        }]
    );

    // the seller's view of the same fill
    let txs = l.get_stock_transactions(vanguard);
    assert_eq!(txs.len(), 3);
    assert_eq!(txs[0].order_status, OrderStatus::PartiallyComplete);
    assert_eq!(txs[1].order_status, OrderStatus::InProgress);
    assert_eq!(
        (
            txs[2].parent_stock_tx_id,
            txs[2].order_status,
            txs[2].order_type,
            txs[2].is_buy,
            txs[2].stock_price,
            txs[2].quantity
        ),
        (Some(sell_google), OrderStatus::Completed, OrderType::Limit, false, 135, 10)
    );
    assert_eq!(l.get_wallet_balance(vanguard), Ok(1350));
    let wallet = l.get_wallet_transactions(vanguard);
    assert_eq!(wallet.len(), 1);
    assert_eq!((wallet[0].is_debit, wallet[0].amount), (false, 1350));

    // guru buys 20 Apple at 140
    assert_eq!(l.create_buy_order(guru, apple, 20, 7), Ok(BuyOutcome::Filled));
    assert_eq!(l.get_wallet_balance(guru), Ok(5850));
    assert_eq!(
        l.get_stock_portfolio(guru).unwrap(),
        vec![
            StockPortfolio {
                stock_id: google,
                stock_name: String::from("Google"),
                quantity_owned: 10
            },
            StockPortfolio {
                stock_id: apple,
                stock_name: String::from("Apple"),
                quantity_owned: 20
            },
        ]
    );

    // guru offers 5 Google at 130: now the best Google ask drops
    let guru_sell = l.create_sell_order(guru, google, 5, 130, 8).unwrap();
    assert_eq!(
        l.get_stock_prices(),
        vec![
            StockPrice { stock_id: google, stock_name: String::from("Google"), current_price: 130 },
            StockPrice { stock_id: apple, stock_name: String::from("Apple"), current_price: 140 },
        ]
    );
    assert_eq!(
        l.get_stock_portfolio(guru).unwrap()[0].quantity_owned,
        5
    );

    // vanguard buys 2 Google: price priority picks guru's 130 ask
    assert_eq!(l.create_buy_order(vanguard, google, 2, 9), Ok(BuyOutcome::Filled));
    assert_eq!(l.trades.last().unwrap().sell_order, guru_sell);
    assert_eq!(l.get_wallet_balance(vanguard), Ok(1350 + 2800 - 260));

    let wallet = l.get_wallet_transactions(vanguard);
    assert_eq!(wallet.len(), 3);
    assert_eq!((wallet[0].is_debit, wallet[0].amount), (false, 1350));
    assert_eq!((wallet[1].is_debit, wallet[1].amount), (false, 2800));
    assert_eq!((wallet[2].is_debit, wallet[2].amount), (true, 260));

    // a buy of 5 exceeds the 3 units guru's order has left: no effect
    assert_eq!(l.create_buy_order(vanguard, google, 5, 10), Ok(BuyOutcome::NoLiquidity));

    // everyone withdraws their resting offers
    assert_eq!(l.cancel_sell_order(guru, guru_sell), Ok(()));
    assert_eq!(l.cancel_sell_order(vanguard, sell_google), Ok(()));
    assert_eq!(l.cancel_sell_order(vanguard, sell_apple), Ok(()));

    let txs = l.get_stock_transactions(vanguard);
    assert_eq!(txs.len(), 5);
    assert_eq!(txs[0].order_status, OrderStatus::Cancelled);
    assert_eq!(txs[1].order_status, OrderStatus::Cancelled);
    assert_eq!((txs[2].quantity, txs[2].stock_price), (10, 135));
    assert_eq!((txs[3].quantity, txs[3].stock_price), (20, 140));
    assert_eq!(
        (txs[4].order_status, txs[4].order_type, txs[4].is_buy, txs[4].stock_price, txs[4].quantity),
        (OrderStatus::Completed, OrderType::Market, true, 130, 2)
    );

    // cancelled offers release what was not sold
    assert_eq!(
        l.get_stock_portfolio(vanguard).unwrap(),
        vec![
            StockPortfolio {
                stock_id: google,
                stock_name: String::from("Google"),
                quantity_owned: 542
            },
            StockPortfolio {
                stock_id: apple,
                stock_name: String::from("Apple"),
                quantity_owned: 330
            },
        ]
    );
    let txs = l.get_stock_transactions(guru);
    assert_eq!(txs.len(), 4);
    assert_eq!(txs[2].order_status, OrderStatus::Cancelled);
    assert_eq!(
        l.get_stock_portfolio(guru).unwrap(),
        vec![
            StockPortfolio {
                stock_id: google,
                stock_name: String::from("Google"),
                quantity_owned: 8
            },
            StockPortfolio {
                stock_id: apple,
                stock_name: String::from("Apple"),
                quantity_owned: 20
            },
        ]
    );
}

/// A committed trade is immutable: the record a history query reports for it
/// reads the same before and after unrelated writes.
#[test]
fn reported_trades_never_change() {
    let mut l = Ledger::new();
    let g = l.create_stock(String::from("Google"));
    l.add_stock_to_user(1, g, 100, 1).unwrap();
    l.create_sell_order(1, g, 100, 50, 2).unwrap();
    l.add_money_to_user(2, 10_000, 3).unwrap();
    assert_eq!(l.create_buy_order(2, g, 10, 4), Ok(BuyOutcome::Filled));

    let buyer_before = l.get_stock_transactions(2);
    let seller_fill_before = l.get_stock_transactions(1)[1];
    let wallet_before = l.get_wallet_transactions(2);

    // unrelated concurrent writes: another user, another stock, more trades
    let a = l.create_stock(String::from("Apple"));
    l.add_money_to_user(3, 5_000, 5).unwrap();
    l.add_stock_to_user(3, a, 40, 6).unwrap();
    l.create_sell_order(3, a, 40, 70, 7).unwrap();
    assert_eq!(l.create_buy_order(2, a, 4, 8), Ok(BuyOutcome::Filled));
    assert_eq!(l.create_buy_order(3, g, 30, 9), Ok(BuyOutcome::Filled));

    let buyer_after = l.get_stock_transactions(2);
    assert_eq!(buyer_after[0], buyer_before[0]);
    assert_eq!(l.get_stock_transactions(1)[1], seller_fill_before);
    assert_eq!(l.get_wallet_transactions(2)[0], wallet_before[0]);
}

#[test]
fn histories_are_ordered_by_time() {
    let mut l = Ledger::new();
    let g = l.create_stock(String::from("Google"));
    l.add_stock_to_user(1, g, 100, 1).unwrap();
    l.create_sell_order(1, g, 100, 50, 2).unwrap();
    l.add_money_to_user(2, 10_000, 3).unwrap();
    l.create_buy_order(2, g, 10, 4).unwrap();
    l.create_buy_order(2, g, 10, 6).unwrap();
    l.create_sell_order(1, g, 1, 99, 7).unwrap();

    for user in [1, 2] {
        let txs = l.get_stock_transactions(user);
        for w in txs.windows(2) {
            assert!(w[0].time_stamp <= w[1].time_stamp);
        }
        let wallet = l.get_wallet_transactions(user);
        for w in wallet.windows(2) {
            assert!(w[0].time_stamp <= w[1].time_stamp);
        }
    }
}

#[test]
fn stocks_without_offers_have_no_price() {
    let mut l = Ledger::new();
    let g = l.create_stock(String::from("Google"));
    let a = l.create_stock(String::from("Apple"));
    l.create_sell_order(1, a, 10, 70, 1).unwrap();
    let prices = l.get_stock_prices();
    assert_eq!(prices.len(), 1);
    assert_eq!(prices[0].stock_id, a);
    // once the offer is gone, so is the quote
    l.cancel_sell_order(1, 1).unwrap();
    assert_eq!(l.get_stock_prices(), vec![]);
    let _ = g;
}

#[test]
fn portfolio_never_reports_non_positive_holdings() {
    let mut l = Ledger::new();
    let g = l.create_stock(String::from("Google"));
    l.add_stock_to_user(1, g, 5, 1).unwrap();
    l.create_sell_order(1, g, 5, 10, 2).unwrap();
    // holding is exactly zero: no entry at all
    assert_eq!(l.get_stock_portfolio(1).unwrap(), vec![]);
    // a seller without a grant goes negative: still no entry
    l.create_sell_order(2, g, 7, 11, 3).unwrap();
    assert_eq!(l.get_stock_portfolio(2).unwrap(), vec![]);
}

#[test]
fn order_placement_requests_must_be_coherent() {
    let buy = PlaceStockOrderRequest {
        stock_id: 1,
        is_buy: true,
        order_type: OrderType::Market,
        quantity: 20,
        price: None,
    };
    assert!(buy.coherent());
    // a market buy naming a price is malformed
    let priced_buy = PlaceStockOrderRequest { price: Some(80), ..buy };
    assert!(!priced_buy.coherent());
    let sell = PlaceStockOrderRequest {
        stock_id: 1,
        is_buy: false,
        order_type: OrderType::Limit,
        quantity: 550,
        price: Some(135),
    };
    assert!(sell.coherent());
    let unpriced_sell = PlaceStockOrderRequest { price: None, ..sell };
    assert!(!unpriced_sell.coherent());
    let mislabelled = PlaceStockOrderRequest { order_type: OrderType::Market, ..sell };
    assert!(!mislabelled.coherent());
}

#[test]
fn home_page_markup() {
    let page = home();
    assert!(page.starts_with("<!DOCTYPE html>"));
    assert!(page.contains("<title>Trade</title>"));
    assert!(page.ends_with("</body></html>"));
}
