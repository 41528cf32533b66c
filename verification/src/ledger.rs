//! The ledger store and the order life cycle manager.
//!
//! The ledger is append-only: deposits, grants, orders and trades are created
//! once and never deleted. The only mutable field is an order's status, which
//! the matching engine or a cancellation advances through the state machine
//! described on [`crate::types::OrderStatus`]. Balances and portfolios are
//! never stored; they are derived from these rows by the projector.

use vstd::prelude::*;

use crate::types::{AppError, Deposit, Grant, Order, OrderStatus, Stock, Trade};

verus! {

/// A stock id is valid when some row of the stock table carries it; rows are
/// numbered 1, 2, ... in creation order.
pub open spec fn valid_stock_id(stocks: Seq<Stock>, stock_id: i64) -> bool {
    1 <= stock_id <= stocks.len()
}

/// The order row carrying `order_id`; meaningful because row ids equal their
/// index plus one.
pub open spec fn order_at(orders: Seq<Order>, order_id: i64) -> Order {
    orders[order_id - 1]
}

/// Total quantity filled against the sell order `sell_id`: the sum of the
/// quantities of all trades that reference it.
pub open spec fn filled_qty(trades: Seq<Trade>, sell_id: i64) -> int
    decreases trades.len(),
{
    if trades.len() == 0 {
        0
    } else {
        filled_qty(trades.drop_last(), sell_id) + if trades.last().sell_order == sell_id {
            trades.last().quantity as int
        } else {
            0int
        }
    }
}

/// Total quantity bought through the buy order `buy_id`.
pub open spec fn bought_qty(trades: Seq<Trade>, buy_id: i64) -> int
    decreases trades.len(),
{
    if trades.len() == 0 {
        0
    } else {
        bought_qty(trades.drop_last(), buy_id) + if trades.last().buy_order == buy_id {
            trades.last().quantity as int
        } else {
            0int
        }
    }
}

/// How many trades reference the buy order `buy_id`. A buy (market) order is
/// matched synchronously against exactly one resting sell order, so a valid
/// ledger gives every buy order a count of one.
pub open spec fn buy_trade_count(trades: Seq<Trade>, buy_id: i64) -> int
    decreases trades.len(),
{
    if trades.len() == 0 {
        0
    } else {
        buy_trade_count(trades.drop_last(), buy_id) + if trades.last().buy_order == buy_id {
            1int
        } else {
            0int
        }
    }
}

/// The status rule for sell orders: `InProgress` means no fills yet,
/// `PartiallyComplete` means some but not all of the quantity is filled,
/// `Completed` means fully filled, and `Cancelled` orders were withdrawn
/// before being fully filled. `Failed` is never assigned to a created order.
pub open spec fn sell_status_consistent(o: Order, trades: Seq<Trade>) -> bool {
    let f = filled_qty(trades, o.order_id);
    match o.order_status {
        OrderStatus::InProgress => f == 0,
        OrderStatus::PartiallyComplete => 0 < f < o.quantity,
        OrderStatus::Completed => f == o.quantity,
        OrderStatus::Cancelled => f < o.quantity,
        OrderStatus::Failed => false,
    }
}

/// A sell order contributes no fills when no trade references it.
pub proof fn lemma_filled_qty_absent(trades: Seq<Trade>, sell_id: i64)
    requires
        forall|i: int| 0 <= i < trades.len() ==> (#[trigger] trades[i]).sell_order != sell_id,
    ensures
        filled_qty(trades, sell_id) == 0,
    decreases trades.len(),
{
    if trades.len() > 0 {
        lemma_filled_qty_absent(trades.drop_last(), sell_id);
    }
}

/// A buy order that no trade references has bought nothing.
pub proof fn lemma_bought_qty_absent(trades: Seq<Trade>, buy_id: i64)
    requires
        forall|i: int| 0 <= i < trades.len() ==> (#[trigger] trades[i]).buy_order != buy_id,
    ensures
        bought_qty(trades, buy_id) == 0,
        buy_trade_count(trades, buy_id) == 0,
    decreases trades.len(),
{
    if trades.len() > 0 {
        lemma_bought_qty_absent(trades.drop_last(), buy_id);
    }
}

/// The append-only ledger store. Row ids of each table equal the row's index
/// plus one, so ids are unique and monotonic in creation order. The clock
/// records the latest timestamp handed in by the caller; every row's
/// `created_at` is at most the clock.
pub struct Ledger {
    pub stocks: Vec<Stock>,
    pub deposits: Vec<Deposit>,
    pub grants: Vec<Grant>,
    pub orders: Vec<Order>,
    pub trades: Vec<Trade>,
    pub clock: i64,
}

impl Ledger {
    /// Stock rows are numbered consecutively, and the table stays small
    /// enough for every id to fit an `i64`.
    pub open spec fn stocks_wf(self) -> bool {
        &&& self.stocks@.len() < i64::MAX
        &&& forall|i: int|
            0 <= i < self.stocks@.len() ==> (#[trigger] self.stocks@[i]).stock_id == i + 1
    }

    /// Deposits are numbered consecutively, carry a positive amount, and were
    /// created no later than the clock.
    pub open spec fn deposits_wf(self) -> bool {
        &&& self.deposits@.len() < i64::MAX
        &&& forall|i: int|
            0 <= i < self.deposits@.len() ==> {
                let d = #[trigger] self.deposits@[i];
                &&& d.deposit_id == i + 1
                &&& d.amount > 0
                &&& 0 <= d.created_at <= self.clock
            }
    }

    /// Grants are numbered consecutively, reference an existing stock and
    /// carry a positive quantity.
    pub open spec fn grants_wf(self) -> bool {
        &&& self.grants@.len() < i64::MAX
        &&& forall|i: int|
            0 <= i < self.grants@.len() ==> {
                let g = #[trigger] self.grants@[i];
                &&& g.grant_id == i + 1
                &&& g.quantity > 0
                &&& valid_stock_id(self.stocks@, g.stock_id)
                &&& 0 <= g.created_at <= self.clock
            }
    }

    /// Well-formedness of one order row: positive quantity, an existing
    /// stock, a timestamp within the clock; a sell order has a positive limit
    /// price, a worst-case settlement value that fits an `i64`, and a status
    /// that matches its fills by the status rule; a buy order is `Completed`
    /// and settled by exactly one trade covering its full quantity.
    pub open spec fn order_wf(self, o: Order) -> bool {
        &&& o.quantity > 0
        &&& valid_stock_id(self.stocks@, o.stock_id)
        &&& 0 <= o.created_at <= self.clock
        &&& match o.limit_price {
            Some(p) => {
                &&& p > 0
                &&& o.quantity * p <= i64::MAX
                &&& sell_status_consistent(o, self.trades@)
            },
            None => {
                &&& o.order_status == OrderStatus::Completed
                &&& buy_trade_count(self.trades@, o.order_id) == 1
                &&& bought_qty(self.trades@, o.order_id) == o.quantity
            },
        }
    }

    /// Orders are numbered consecutively, each row is well formed, and
    /// creation timestamps never decrease along the table.
    pub open spec fn orders_wf(self) -> bool {
        &&& self.orders@.len() < i64::MAX
        &&& forall|i: int|
            0 <= i < self.orders@.len() ==> (#[trigger] self.orders@[i]).order_id == i + 1
        &&& forall|i: int|
            0 <= i < self.orders@.len() ==> self.order_wf(#[trigger] self.orders@[i])
        &&& forall|i: int, j: int|
            0 <= i <= j < self.orders@.len() ==> (#[trigger] self.orders@[i]).created_at <= (
            #[trigger] self.orders@[j]).created_at
    }

    /// Well-formedness of one trade row: it transfers a positive quantity
    /// from a sell order to a buy order of another user on the same stock,
    /// never more than the sell order's quantity, and its settlement value
    /// (quantity times the sell order's limit price) fits an `i64`.
    pub open spec fn trade_wf(self, t: Trade) -> bool {
        &&& t.quantity > 0
        &&& 1 <= t.sell_order <= self.orders@.len()
        &&& 1 <= t.buy_order <= self.orders@.len()
        &&& order_at(self.orders@, t.sell_order).limit_price is Some
        &&& order_at(self.orders@, t.buy_order).limit_price is None
        &&& order_at(self.orders@, t.sell_order).user_id != order_at(
            self.orders@,
            t.buy_order,
        ).user_id
        &&& order_at(self.orders@, t.sell_order).stock_id == order_at(
            self.orders@,
            t.buy_order,
        ).stock_id
        &&& t.quantity <= order_at(self.orders@, t.sell_order).quantity
        &&& t.quantity * order_at(self.orders@, t.sell_order).limit_price->Some_0 <= i64::MAX
        &&& 0 <= t.created_at <= self.clock
    }

    /// Trades are numbered consecutively, each row is well formed, and
    /// creation timestamps never decrease along the table.
    pub open spec fn trades_wf(self) -> bool {
        &&& self.trades@.len() < i64::MAX
        &&& forall|i: int|
            0 <= i < self.trades@.len() ==> (#[trigger] self.trades@[i]).trade_id == i + 1
        &&& forall|i: int|
            0 <= i < self.trades@.len() ==> self.trade_wf(#[trigger] self.trades@[i])
        &&& forall|i: int, j: int|
            0 <= i <= j < self.trades@.len() ==> (#[trigger] self.trades@[i]).created_at <= (
            #[trigger] self.trades@[j]).created_at
    }

    /// The ledger invariant: every table is well formed. Constructors
    /// establish it and every operation preserves it.
    pub open spec fn wf(self) -> bool {
        &&& self.clock >= 0
        &&& self.stocks_wf()
        &&& self.deposits_wf()
        &&& self.grants_wf()
        &&& self.orders_wf()
        &&& self.trades_wf()
    }

    /// Two ledger states hold exactly the same rows and clock.
    pub open spec fn same_state(self, other: Ledger) -> bool {
        &&& self.stocks@ == other.stocks@
        &&& self.deposits@ == other.deposits@
        &&& self.grants@ == other.grants@
        &&& self.orders@ == other.orders@
        &&& self.trades@ == other.trades@
        &&& self.clock == other.clock
    }

    /// An empty ledger.
    pub fn new() -> (r: Ledger)
        ensures
            r.wf(),
            r.stocks@ == Seq::<Stock>::empty(),
            r.deposits@ == Seq::<Deposit>::empty(),
            r.grants@ == Seq::<Grant>::empty(),
            r.orders@ == Seq::<Order>::empty(),
            r.trades@ == Seq::<Trade>::empty(),
            r.clock == 0,
    {
        Ledger {
            stocks: Vec::new(),
            deposits: Vec::new(),
            grants: Vec::new(),
            orders: Vec::new(),
            trades: Vec::new(),
            clock: 0,
        }
    }

    /// Lists a new stock and returns its id. Stock ids are assigned
    /// consecutively in creation order.
    pub fn create_stock(&mut self, stock_name: String) -> (r: i64)
        requires
            old(self).wf(),
            old(self).stocks@.len() + 1 < i64::MAX,
        ensures
            final(self).wf(),
            r == old(self).stocks@.len() + 1,
            final(self).stocks@ == old(self).stocks@.push(
                (Stock { stock_id: (old(self).stocks@.len() + 1) as i64, stock_name }),
            ),
            final(self).deposits@ == old(self).deposits@,
            final(self).grants@ == old(self).grants@,
            final(self).orders@ == old(self).orders@,
            final(self).trades@ == old(self).trades@,
            final(self).clock == old(self).clock,
    {
        let stock_id: i64 = (self.stocks.len() as i64) + 1;
        self.stocks.push(Stock { stock_id, stock_name });
        stock_id
    }

    /// Records a deposit of `amount` into the wallet of `user_id`. A deposit
    /// must be positive; anything else is rejected before any mutation.
    pub fn add_money_to_user(&mut self, user_id: i64, amount: i64, now: i64) -> (r: Result<
        (),
        AppError,
    >)
        requires
            old(self).wf(),
            now >= old(self).clock,
            old(self).deposits@.len() + 1 < i64::MAX,
        ensures
            final(self).wf(),
            amount <= 0 ==> r == Err::<(), AppError>(AppError::BadRequest) && final(self).same_state(
                *old(self),
            ),
            amount > 0 ==> {
                &&& r == Ok::<(), AppError>(())
                &&& final(self).deposits@ == old(self).deposits@.push(
                    (Deposit {
                        deposit_id: (old(self).deposits@.len() + 1) as i64,
                        user_id,
                        amount,
                        created_at: now,
                    }),
                )
                &&& final(self).stocks@ == old(self).stocks@
                &&& final(self).grants@ == old(self).grants@
                &&& final(self).orders@ == old(self).orders@
                &&& final(self).trades@ == old(self).trades@
                &&& final(self).clock == now
            },
    {
        if amount <= 0 {
            return Err(AppError::BadRequest);
        }
        let deposit_id: i64 = (self.deposits.len() as i64) + 1;
        self.deposits.push(Deposit { deposit_id, user_id, amount, created_at: now });
        self.clock = now;
        Ok(())
    }

    /// Grants `quantity` units of `stock_id` to `user_id`: an initial
    /// allocation that enters the portfolio without a market trade and
    /// without touching any cash balance.
    pub fn add_stock_to_user(&mut self, user_id: i64, stock_id: i64, quantity: i64, now: i64) -> (r:
        Result<(), AppError>)
        requires
            old(self).wf(),
            now >= old(self).clock,
            old(self).grants@.len() + 1 < i64::MAX,
        ensures
            final(self).wf(),
            quantity <= 0 ==> r == Err::<(), AppError>(AppError::BadRequest) && final(self)
                .same_state(*old(self)),
            quantity > 0 && !valid_stock_id(old(self).stocks@, stock_id) ==> r == Err::<
                (),
                AppError,
            >(AppError::StockNotFound) && final(self).same_state(*old(self)),
            quantity > 0 && valid_stock_id(old(self).stocks@, stock_id) ==> {
                &&& r == Ok::<(), AppError>(())
                &&& final(self).grants@ == old(self).grants@.push(
                    (Grant {
                        grant_id: (old(self).grants@.len() + 1) as i64,
                        user_id,
                        stock_id,
                        quantity,
                        created_at: now,
                    }),
                )
                &&& final(self).stocks@ == old(self).stocks@
                &&& final(self).deposits@ == old(self).deposits@
                &&& final(self).orders@ == old(self).orders@
                &&& final(self).trades@ == old(self).trades@
                &&& final(self).clock == now
            },
    {
        if quantity <= 0 {
            return Err(AppError::BadRequest);
        }
        if stock_id < 1 || stock_id > self.stocks.len() as i64 {
            return Err(AppError::StockNotFound);
        }
        let grant_id: i64 = (self.grants.len() as i64) + 1;
        self.grants.push(Grant { grant_id, user_id, stock_id, quantity, created_at: now });
        self.clock = now;
        Ok(())
    }

    /// Places a sell (limit) order and returns its id. The order rests as
    /// `InProgress` until a buy order consumes it or its owner cancels it; no
    /// matching is attempted at creation. A request whose quantity or price
    /// is not positive, or whose full settlement value would not fit an
    /// `i64`, is rejected before any mutation.
    pub fn create_sell_order(
        &mut self,
        user_id: i64,
        stock_id: i64,
        quantity: i64,
        price: i64,
        now: i64,
    ) -> (r: Result<i64, AppError>)
        requires
            old(self).wf(),
            now >= old(self).clock,
            old(self).orders@.len() + 1 < i64::MAX,
        ensures
            final(self).wf(),
            (quantity <= 0 || price <= 0 || quantity * price > i64::MAX) ==> r == Err::<
                i64,
                AppError,
            >(AppError::BadRequest) && final(self).same_state(*old(self)),
            quantity > 0 && price > 0 && quantity * price <= i64::MAX && !valid_stock_id(
                old(self).stocks@,
                stock_id,
            ) ==> r == Err::<i64, AppError>(AppError::StockNotFound) && final(self).same_state(
                *old(self),
            ),
            quantity > 0 && price > 0 && quantity * price <= i64::MAX && valid_stock_id(
                old(self).stocks@,
                stock_id,
            ) ==> {
                &&& r == Ok::<i64, AppError>(((old(self).orders@.len() + 1) as i64))
                &&& final(self).orders@ == old(self).orders@.push(
                    (Order {
                        order_id: (old(self).orders@.len() + 1) as i64,
                        user_id,
                        stock_id,
                        quantity,
                        limit_price: Some(price),
                        order_status: OrderStatus::InProgress,
                        created_at: now,
                    }),
                )
                &&& final(self).stocks@ == old(self).stocks@
                &&& final(self).deposits@ == old(self).deposits@
                &&& final(self).grants@ == old(self).grants@
                &&& final(self).trades@ == old(self).trades@
                &&& final(self).clock == now
            },
    {
        if quantity <= 0 || price <= 0 {
            return Err(AppError::BadRequest);
        }
        assert(quantity * price > 0) by (nonlinear_arith)
            requires
                quantity > 0,
                price > 0,
        ;
        if quantity.checked_mul(price).is_none() {
            return Err(AppError::BadRequest);
        }
        if stock_id < 1 || stock_id > self.stocks.len() as i64 {
            return Err(AppError::StockNotFound);
        }
        let order_id: i64 = (self.orders.len() as i64) + 1;
        proof {
            lemma_filled_qty_absent(self.trades@, order_id);
        }
        self.orders.push(
            Order {
                order_id,
                user_id,
                stock_id,
                quantity,
                limit_price: Some(price),
                order_status: OrderStatus::InProgress,
                created_at: now,
            },
        );
        self.clock = now;
        Ok(order_id)
    }

    /// The cancellation predicate: `order_id` names an existing sell (limit)
    /// order owned by `user_id` that is still resting, i.e. `InProgress` or
    /// `PartiallyComplete`.
    pub open spec fn cancellable(self, user_id: i64, order_id: i64) -> bool {
        &&& 1 <= order_id <= self.orders@.len()
        &&& order_at(self.orders@, order_id).user_id == user_id
        &&& order_at(self.orders@, order_id).limit_price is Some
        &&& (order_at(self.orders@, order_id).order_status == OrderStatus::InProgress || order_at(
            self.orders@,
            order_id,
        ).order_status == OrderStatus::PartiallyComplete)
    }

    /// Cancels the resting sell order `stock_tx_id` of `user_id`: its status
    /// becomes `Cancelled`, a terminal state, and no trade can ever reference
    /// it again. An order that does not exist, belongs to someone else, is a
    /// buy order, or is already in a terminal state is reported as not found,
    /// and nothing changes.
    pub fn cancel_sell_order(&mut self, user_id: i64, stock_tx_id: i64) -> (r: Result<
        (),
        AppError,
    >)
        requires
            old(self).wf(),
        ensures
            final(self).wf(),
            !old(self).cancellable(user_id, stock_tx_id) ==> r == Err::<(), AppError>(
                AppError::StockTransactionNotFound,
            ) && final(self).same_state(*old(self)),
            old(self).cancellable(user_id, stock_tx_id) ==> {
                &&& r == Ok::<(), AppError>(())
                &&& final(self).orders@ == old(self).orders@.update(
                    stock_tx_id - 1,
                    (Order {
                        order_status: OrderStatus::Cancelled,
                        ..order_at(old(self).orders@, stock_tx_id)
                    }),
                )
                &&& final(self).stocks@ == old(self).stocks@
                &&& final(self).deposits@ == old(self).deposits@
                &&& final(self).grants@ == old(self).grants@
                &&& final(self).trades@ == old(self).trades@
                &&& final(self).clock == old(self).clock
            },
    {
        if stock_tx_id < 1 || stock_tx_id > self.orders.len() as i64 {
            return Err(AppError::StockTransactionNotFound);
        }
        let idx: usize = (stock_tx_id - 1) as usize;
        let o = self.orders[idx];
        if o.user_id != user_id || o.limit_price.is_none() {
            return Err(AppError::StockTransactionNotFound);
        }
        if !(o.order_status == OrderStatus::InProgress || o.order_status
            == OrderStatus::PartiallyComplete) {
            return Err(AppError::StockTransactionNotFound);
        }
        self.orders[idx] = Order { order_status: OrderStatus::Cancelled, ..o };
        Ok(())
    }
}

} // verus!
