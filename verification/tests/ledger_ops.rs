use trade::ledger::Ledger;
use trade::types::{AppError, BuyOutcome, OrderStatus};

#[test]
fn create_stock_assigns_consecutive_ids() {
    let mut l = Ledger::new();
    assert_eq!(l.create_stock(String::from("Google")), 1);
    assert_eq!(l.create_stock(String::from("Apple")), 2);
    assert_eq!(l.stocks.len(), 2);
    assert_eq!(l.stocks[0].stock_name, "Google");
    assert_eq!(l.stocks[1].stock_name, "Apple");
}

#[test]
fn deposit_rejects_non_positive_amounts() {
    let mut l = Ledger::new();
    assert_eq!(l.add_money_to_user(1, 0, 1), Err(AppError::BadRequest));
    assert_eq!(l.add_money_to_user(1, -10_000, 1), Err(AppError::BadRequest));
    assert!(l.deposits.is_empty());
    assert_eq!(l.add_money_to_user(1, 10_000, 1), Ok(()));
    assert_eq!(l.deposits.len(), 1);
    assert_eq!(l.get_wallet_balance(1), Ok(10_000));
}

#[test]
fn balance_outside_machine_range_is_an_error() {
    let mut l = Ledger::new();
    assert_eq!(l.add_money_to_user(1, i64::MAX, 1), Ok(()));
    assert_eq!(l.get_wallet_balance(1), Ok(i64::MAX));
    assert_eq!(l.add_money_to_user(1, i64::MAX, 2), Ok(()));
    assert_eq!(l.get_wallet_balance(1), Err(AppError::InternalServerError));
    // other users' balances are untouched
    assert_eq!(l.get_wallet_balance(2), Ok(0));
}

#[test]
fn holding_outside_machine_range_is_an_error() {
    let mut l = Ledger::new();
    l.create_stock(String::from("Google"));
    assert_eq!(l.add_stock_to_user(1, 1, i64::MAX, 1), Ok(()));
    assert_eq!(l.add_stock_to_user(1, 1, i64::MAX, 2), Ok(()));
    assert_eq!(l.get_stock_portfolio(1), Err(AppError::InternalServerError));
    // other users' portfolios are untouched
    assert_eq!(l.get_stock_portfolio(2), Ok(vec![]));
}

#[test]
fn grant_requires_existing_stock_and_positive_quantity() {
    let mut l = Ledger::new();
    assert_eq!(l.add_stock_to_user(1, 1, 550, 1), Err(AppError::StockNotFound));
    l.create_stock(String::from("Google"));
    assert_eq!(l.add_stock_to_user(1, 1, 0, 1), Err(AppError::BadRequest));
    assert_eq!(l.add_stock_to_user(1, 2, 5, 1), Err(AppError::StockNotFound));
    assert_eq!(l.add_stock_to_user(1, 1, 550, 1), Ok(()));
    let portfolio = l.get_stock_portfolio(1).unwrap();
    assert_eq!(portfolio.len(), 1);
    assert_eq!(portfolio[0].stock_id, 1);
    assert_eq!(portfolio[0].quantity_owned, 550);
}

#[test]
fn sell_order_validation() {
    let mut l = Ledger::new();
    l.create_stock(String::from("Google"));
    assert_eq!(l.create_sell_order(1, 1, 0, 135, 1), Err(AppError::BadRequest));
    assert_eq!(l.create_sell_order(1, 1, 10, 0, 1), Err(AppError::BadRequest));
    assert_eq!(l.create_sell_order(1, 1, 10, -3, 1), Err(AppError::BadRequest));
    // the full settlement value must fit a 64-bit integer
    assert_eq!(
        l.create_sell_order(1, 1, i64::MAX, 2, 1),
        Err(AppError::BadRequest)
    );
    assert_eq!(l.create_sell_order(1, 2, 10, 135, 1), Err(AppError::StockNotFound));
    assert!(l.orders.is_empty());
    assert_eq!(l.create_sell_order(1, 1, 10, 135, 1), Ok(1));
    assert_eq!(l.orders.len(), 1);
    assert_eq!(l.orders[0].order_status, OrderStatus::InProgress);
    assert_eq!(l.orders[0].limit_price, Some(135));
}

#[test]
fn buy_order_validation() {
    let mut l = Ledger::new();
    l.create_stock(String::from("Google"));
    assert_eq!(l.create_buy_order(2, 1, 0, 1), Err(AppError::BadRequest));
    assert_eq!(l.create_buy_order(2, 2, 10, 1), Err(AppError::StockNotFound));
    // no resting sell order at all
    assert_eq!(l.create_buy_order(2, 1, 10, 1), Ok(BuyOutcome::NoLiquidity));
    assert!(l.orders.is_empty());
    assert!(l.trades.is_empty());
}

#[test]
fn cancel_only_works_on_own_resting_sell_orders() {
    let mut l = Ledger::new();
    l.create_stock(String::from("Google"));
    l.add_stock_to_user(1, 1, 550, 1).unwrap();
    let sell = l.create_sell_order(1, 1, 550, 135, 2).unwrap();

    // no such order
    assert_eq!(l.cancel_sell_order(1, 99), Err(AppError::StockTransactionNotFound));
    // someone else's order
    assert_eq!(l.cancel_sell_order(2, sell), Err(AppError::StockTransactionNotFound));
    // a buy order is not cancellable
    l.add_money_to_user(2, 10_000, 3).unwrap();
    assert_eq!(l.create_buy_order(2, 1, 10, 4), Ok(BuyOutcome::Filled));
    let buy_order_id = l.orders[1].order_id;
    assert_eq!(
        l.cancel_sell_order(2, buy_order_id),
        Err(AppError::StockTransactionNotFound)
    );

    // a resting (partially filled) sell order cancels fine
    assert_eq!(l.orders[0].order_status, OrderStatus::PartiallyComplete);
    assert_eq!(l.cancel_sell_order(1, sell), Ok(()));
    assert_eq!(l.orders[0].order_status, OrderStatus::Cancelled);

    // cancelling an already cancelled order fails
    assert_eq!(l.cancel_sell_order(1, sell), Err(AppError::StockTransactionNotFound));
}

#[test]
fn cancel_rejects_completed_orders() {
    let mut l = Ledger::new();
    l.create_stock(String::from("Google"));
    l.add_stock_to_user(1, 1, 10, 1).unwrap();
    let sell = l.create_sell_order(1, 1, 10, 135, 2).unwrap();
    l.add_money_to_user(2, 10_000, 3).unwrap();
    assert_eq!(l.create_buy_order(2, 1, 10, 4), Ok(BuyOutcome::Filled));
    assert_eq!(l.orders[0].order_status, OrderStatus::Completed);
    assert_eq!(l.cancel_sell_order(1, sell), Err(AppError::StockTransactionNotFound));
}

#[test]
fn cancelled_order_blocks_all_future_trades() {
    let mut l = Ledger::new();
    l.create_stock(String::from("Google"));
    l.add_stock_to_user(1, 1, 550, 1).unwrap();
    let sell = l.create_sell_order(1, 1, 550, 135, 2).unwrap();
    assert_eq!(l.cancel_sell_order(1, sell), Ok(()));

    // with no other resting offer, a buy finds no liquidity and writes nothing
    l.add_money_to_user(2, 10_000, 3).unwrap();
    let before = l.get_stock_portfolio(2).unwrap();
    assert_eq!(l.create_buy_order(2, 1, 10, 4), Ok(BuyOutcome::NoLiquidity));
    assert!(l.trades.is_empty());
    assert_eq!(l.get_stock_portfolio(2).unwrap(), before);
    assert_eq!(l.get_wallet_balance(2), Ok(10_000));
}
