//! Domain types of the exchange: ledger rows, order life cycle states,
//! query results and the error taxonomy.

use vstd::prelude::*;

verus! {

/// Progress of an order through its life cycle.
///
/// `InProgress` and `PartiallyComplete` orders are *resting*: they remain
/// eligible for further matching. `Completed`, `Cancelled` and `Failed` are
/// terminal. Buy (market) orders are created already `Completed` because they
/// are matched synchronously at creation time.
#[derive(Clone, Copy, Debug, PartialEq, Eq, Structural)]
pub enum OrderStatus {
    Failed,
    Cancelled,
    Completed,
    InProgress,
    PartiallyComplete,
}

/// Kind of an order: `Market` buys execute immediately at the best ask,
/// `Limit` sells rest at their asking price.
#[derive(Clone, Copy, Debug, PartialEq, Eq, Structural)]
pub enum OrderType {
    Market,
    Limit,
}

/// What became of a buy request that passed validation: either it was matched
/// in full against a single resting sell order, or the book had no resting
/// sell order able to cover it and the request had no effect.
#[derive(Clone, Copy, Debug, PartialEq, Eq, Structural)]
pub enum BuyOutcome {
    Filled,
    NoLiquidity,
}

/// The error taxonomy surfaced to callers of the core and of the surrounding
/// program.
#[derive(Clone, Copy, Debug, PartialEq, Eq, Structural)]
pub enum AppError {
    UsernameAlreadyTaken,
    UserNotFound,
    PasswordInvalid,
    AuthTokenInvalid,
    AuthTokenNotPresent,
    StockNotFound,
    StockTransactionNotFound,
    BadRequest,
    DatabaseError,
    InternalServerError,
}

/// A listed security. Created once, never mutated or deleted.
#[derive(Clone, Debug, PartialEq, Eq)]
pub struct Stock {
    pub stock_id: i64,
    pub stock_name: String,
}

/// An append-only cash deposit; contributes positively to the depositor's
/// balance.
#[derive(Clone, Copy, Debug, PartialEq, Eq)]
pub struct Deposit {
    pub deposit_id: i64,
    pub user_id: i64,
    pub amount: i64,
    pub created_at: i64,
}

/// An initial stock allocation that does not arise from a market trade.
/// Grants contribute to the portfolio but never to the cash balance.
#[derive(Clone, Copy, Debug, PartialEq, Eq)]
pub struct Grant {
    pub grant_id: i64,
    pub user_id: i64,
    pub stock_id: i64,
    pub quantity: i64,
    pub created_at: i64,
}

/// An order row. `limit_price` present means a sell (limit) order; absent
/// means a buy (market) order. Orders are never deleted: only `order_status`
/// is updated, by the matching engine or by cancellation.
#[derive(Clone, Copy, Debug, PartialEq, Eq)]
pub struct Order {
    pub order_id: i64,
    pub user_id: i64,
    pub stock_id: i64,
    pub quantity: i64,
    pub limit_price: Option<i64>,
    pub order_status: OrderStatus,
    pub created_at: i64,
}

/// The atomic unit of ownership transfer and cash settlement: a fill of
/// `quantity` units, sold by the owner of `sell_order` to the owner of
/// `buy_order` at the sell order's limit price. Immutable once written.
#[derive(Clone, Copy, Debug, PartialEq, Eq)]
pub struct Trade {
    pub trade_id: i64,
    pub sell_order: i64,
    pub buy_order: i64,
    pub quantity: i64,
    pub created_at: i64,
}

/// The best current ask for a stock: the minimum limit price among its
/// resting sell orders.
#[derive(Clone, Debug, PartialEq, Eq)]
pub struct StockPrice {
    pub stock_id: i64,
    pub stock_name: String,
    pub current_price: i64,
}

/// Net owned quantity of one stock for one user. Only positive holdings are
/// ever reported.
#[derive(Clone, Debug, PartialEq, Eq)]
pub struct StockPortfolio {
    pub stock_id: i64,
    pub stock_name: String,
    pub quantity_owned: i64,
}

/// One cash flow in a user's wallet history: the settlement of one trade the
/// user took part in. `is_debit` is true when the user was the buyer.
#[derive(Clone, Copy, Debug, PartialEq, Eq)]
pub struct WalletTransaction {
    pub wallet_tx_id: i64,
    pub stock_tx_id: i64,
    pub is_debit: bool,
    pub amount: i64,
    pub time_stamp: i64,
}

/// One record of a user's order history: either one of the user's own orders,
/// or a fill received by one of the user's resting sell orders, in which case
/// `parent_stock_tx_id` points back to that order.
#[derive(Clone, Copy, Debug, PartialEq, Eq)]
pub struct StockTransaction {
    pub stock_tx_id: i64,
    pub parent_stock_tx_id: Option<i64>,
    pub stock_id: i64,
    pub wallet_tx_id: Option<i64>,
    pub order_status: OrderStatus,
    pub is_buy: bool,
    pub order_type: OrderType,
    pub stock_price: i64,
    pub quantity: i64,
    pub time_stamp: i64,
}

/// A user's cash balance, derived from the ledger.
#[derive(Clone, Copy, Debug, PartialEq, Eq)]
pub struct Balance {
    pub balance: i64,
}

/// The id handed back after creating a stock.
#[derive(Clone, Copy, Debug, PartialEq, Eq)]
pub struct StockId {
    pub stock_id: i64,
}

/// Result list of a stock price query.
#[derive(Clone, Debug)]
pub struct StockPriceVec(pub Vec<StockPrice>);

/// Result list of a portfolio query.
#[derive(Clone, Debug)]
pub struct StockPortfolioVec(pub Vec<StockPortfolio>);

/// Result list of a wallet history query.
#[derive(Clone, Debug)]
pub struct WalletVec(pub Vec<WalletTransaction>);

/// Result list of an order history query.
#[derive(Clone, Debug)]
pub struct TradeVec(pub Vec<StockTransaction>);

/// An empty success outcome.
#[derive(Clone, Copy, Debug)]
pub struct EmptyResponse {}

/// An empty success outcome for an operation that created something.
#[derive(Clone, Copy, Debug)]
pub struct EmptyCreatedResponse {}

} // verus!
