//! The balance projector: the pure read side of the exchange.
//!
//! Nothing here mutates the ledger. A user's cash balance, stock portfolio,
//! wallet history and order history are all derived on demand by folding the
//! append-only tables, so a committed write can never leave a stored total
//! out of step with the rows it summarises.

use vstd::prelude::*;

use crate::ledger::{filled_qty, order_at, valid_stock_id, Ledger};
use crate::types::{
    AppError, Deposit, Grant, Order, OrderStatus, StockPortfolio, StockPrice, Trade,
    WalletTransaction,
};

verus! {

/// The signed cash flow of one trade for one user: the seller receives
/// `quantity` times the sell order's limit price, the buyer pays the same,
/// and a bystander sees nothing.
pub open spec fn trade_cash_flow(orders: Seq<Order>, t: Trade, user_id: i64) -> int {
    let sell = order_at(orders, t.sell_order);
    let buy = order_at(orders, t.buy_order);
    let value = t.quantity * sell.limit_price->Some_0;
    if sell.user_id == user_id {
        value
    } else if buy.user_id == user_id {
        -value
    } else {
        0
    }
}

/// Sum of all deposits made by `user_id`.
pub open spec fn deposits_total(deposits: Seq<Deposit>, user_id: i64) -> int
    decreases deposits.len(),
{
    if deposits.len() == 0 {
        0
    } else {
        deposits_total(deposits.drop_last(), user_id) + if deposits.last().user_id == user_id {
            deposits.last().amount as int
        } else {
            0int
        }
    }
}

/// Sum of the signed cash flows of all trades for `user_id`.
pub open spec fn trades_total(orders: Seq<Order>, trades: Seq<Trade>, user_id: i64) -> int
    decreases trades.len(),
{
    if trades.len() == 0 {
        0
    } else {
        trades_total(orders, trades.drop_last(), user_id) + trade_cash_flow(
            orders,
            trades.last(),
            user_id,
        )
    }
}

/// A user's cash balance: all deposits, plus the proceeds of sales, minus
/// the cost of purchases. Grants never touch the balance.
pub open spec fn balance_of(l: Ledger, user_id: i64) -> int {
    deposits_total(l.deposits@, user_id) + trades_total(l.orders@, l.trades@, user_id)
}

/// Total quantity of `stock_id` granted to `user_id`.
pub open spec fn grants_qty(grants: Seq<Grant>, user_id: i64, stock_id: i64) -> int
    decreases grants.len(),
{
    if grants.len() == 0 {
        0
    } else {
        grants_qty(grants.drop_last(), user_id, stock_id) + if grants.last().user_id == user_id
            && grants.last().stock_id == stock_id {
            grants.last().quantity as int
        } else {
            0int
        }
    }
}

/// Total quantity of `stock_id` bought by `user_id` through completed buy
/// fills.
pub open spec fn buys_qty(orders: Seq<Order>, trades: Seq<Trade>, user_id: i64, stock_id: i64) -> int
    decreases trades.len(),
{
    if trades.len() == 0 {
        0
    } else {
        let t = trades.last();
        buys_qty(orders, trades.drop_last(), user_id, stock_id) + if order_at(
            orders,
            t.buy_order,
        ).user_id == user_id && order_at(orders, t.buy_order).stock_id == stock_id {
            t.quantity as int
        } else {
            0int
        }
    }
}

/// How much of the owner's holding one sell order ties up: a live or fully
/// matched sell order reserves its whole quantity, while a cancelled one
/// only keeps what was actually sold before the cancellation.
pub open spec fn sell_deduction(o: Order, trades: Seq<Trade>) -> int {
    match o.order_status {
        OrderStatus::InProgress => o.quantity as int,
        OrderStatus::PartiallyComplete => o.quantity as int,
        OrderStatus::Completed => o.quantity as int,
        OrderStatus::Cancelled => filled_qty(trades, o.order_id),
        OrderStatus::Failed => filled_qty(trades, o.order_id),
    }
}

/// Total quantity of `stock_id` that sell orders of `user_id` deduct from
/// the holding.
pub open spec fn sells_qty(orders: Seq<Order>, trades: Seq<Trade>, user_id: i64, stock_id: i64) -> int
    decreases orders.len(),
{
    if orders.len() == 0 {
        0
    } else {
        let o = orders.last();
        sells_qty(orders.drop_last(), trades, user_id, stock_id) + if o.limit_price is Some
            && o.user_id == user_id && o.stock_id == stock_id {
            sell_deduction(o, trades)
        } else {
            0int
        }
    }
}

/// Net owned quantity of `stock_id` for `user_id`: grants plus buy fills,
/// minus what sell orders tie up.
pub open spec fn owned_qty(l: Ledger, user_id: i64, stock_id: i64) -> int {
    grants_qty(l.grants@, user_id, stock_id) + buys_qty(l.orders@, l.trades@, user_id, stock_id)
        - sells_qty(l.orders@, l.trades@, user_id, stock_id)
}

/// An order row that currently offers `stock_id` for sale: a sell order
/// that is still resting.
pub open spec fn resting_for(o: Order, stock_id: i64) -> bool {
    &&& o.stock_id == stock_id
    &&& o.limit_price is Some
    &&& (o.order_status == OrderStatus::InProgress || o.order_status
        == OrderStatus::PartiallyComplete)
}

/// The best current ask for `stock_id`: the minimum limit price among its
/// resting sell orders, or nothing when no offer rests.
pub open spec fn min_ask(orders: Seq<Order>, stock_id: i64) -> Option<int>
    decreases orders.len(),
{
    if orders.len() == 0 {
        None
    } else {
        let prev = min_ask(orders.drop_last(), stock_id);
        let o = orders.last();
        if resting_for(o, stock_id) {
            match prev {
                Option::None => Some(o.limit_price->Some_0 as int),
                Option::Some(m) => Some(
                    if o.limit_price->Some_0 < m {
                        o.limit_price->Some_0 as int
                    } else {
                        m
                    },
                ),
            }
        } else {
            prev
        }
    }
}

/// One of the trade's two sides belongs to `user_id`.
pub open spec fn trade_touches(orders: Seq<Order>, t: Trade, user_id: i64) -> bool {
    order_at(orders, t.sell_order).user_id == user_id || order_at(
        orders,
        t.buy_order,
    ).user_id == user_id
}

/// The wallet history record of one trade for one participant: the trade's
/// settlement value, a debit when the user was the buyer, cross-referenced
/// with the user's own order.
pub open spec fn wallet_record(orders: Seq<Order>, t: Trade, user_id: i64) -> WalletTransaction {
    let sell = order_at(orders, t.sell_order);
    let buy = order_at(orders, t.buy_order);
    WalletTransaction {
        wallet_tx_id: t.trade_id,
        stock_tx_id: if buy.user_id == user_id {
            buy.order_id
        } else {
            sell.order_id
        },
        is_debit: buy.user_id == user_id,
        amount: (t.quantity * sell.limit_price->Some_0) as i64,
        time_stamp: t.created_at,
    }
}

/// The wallet history of `user_id`: one record per trade the user took part
/// in, in trade order.
pub open spec fn wallet_records(orders: Seq<Order>, trades: Seq<Trade>, user_id: i64) -> Seq<
    WalletTransaction,
>
    decreases trades.len(),
{
    if trades.len() == 0 {
        Seq::empty()
    } else {
        let prev = wallet_records(orders, trades.drop_last(), user_id);
        if trade_touches(orders, trades.last(), user_id) {
            prev.push(wallet_record(orders, trades.last(), user_id))
        } else {
            prev
        }
    }
}

/// A wallet history whose records carry nondecreasing timestamps.
pub open spec fn wallet_sorted(recs: Seq<WalletTransaction>) -> bool {
    forall|a: int, b: int|
        0 <= a <= b < recs.len() ==> (#[trigger] recs[a]).time_stamp <= (
        #[trigger] recs[b]).time_stamp
}

/// No record of the wallet history is stamped later than `t`.
pub open spec fn wallet_bounded(recs: Seq<WalletTransaction>, t: i64) -> bool {
    forall|a: int| 0 <= a < recs.len() ==> (#[trigger] recs[a]).time_stamp <= t
}

/// Wallet records inherit the trade table's time order: when trades carry
/// nondecreasing timestamps, so does the wallet history derived from them,
/// and no record postdates the latest trade.
pub proof fn lemma_wallet_records_sorted(orders: Seq<Order>, trades: Seq<Trade>, user_id: i64)
    requires
        forall|i: int, j: int|
            0 <= i <= j < trades.len() ==> (#[trigger] trades[i]).created_at <= (
            #[trigger] trades[j]).created_at,
    ensures
        wallet_sorted(wallet_records(orders, trades, user_id)),
        trades.len() > 0 ==> wallet_bounded(
            wallet_records(orders, trades, user_id),
            trades.last().created_at,
        ),
    decreases trades.len(),
{
    if trades.len() > 0 {
        let shorter = trades.drop_last();
        assert(forall|i: int, j: int|
            0 <= i <= j < shorter.len() ==> (#[trigger] shorter[i]).created_at <= (
            #[trigger] shorter[j]).created_at);
        lemma_wallet_records_sorted(orders, shorter, user_id);
        let prev = wallet_records(orders, shorter, user_id);
        if shorter.len() > 0 {
            assert(shorter.last() == trades[trades.len() - 2]);
            assert(shorter.last().created_at <= trades.last().created_at);
            assert(wallet_bounded(prev, trades.last().created_at));
        }
    }
}

/// Some entry of a price listing reports `stock_id`.
pub open spec fn reports_price(entries: Seq<StockPrice>, stock_id: i64) -> bool {
    exists|k: int| 0 <= k < entries.len() && (#[trigger] entries[k]).stock_id == stock_id
}

/// Some entry of a portfolio listing reports `stock_id`.
pub open spec fn reports_stock(entries: Seq<StockPortfolio>, stock_id: i64) -> bool {
    exists|k: int| 0 <= k < entries.len() && (#[trigger] entries[k]).stock_id == stock_id
}

/// Every stock's net owned quantity for `user_id` fits an `i64`.
pub open spec fn portfolio_fits(l: Ledger, user_id: i64) -> bool {
    forall|s: i64|
        valid_stock_id(l.stocks@, s) ==> i64::MIN <= #[trigger] owned_qty(l, user_id, s)
            <= i64::MAX
}

impl Ledger {
    /// Derives the net owned quantity of `stock_id` for `user_id`, or
    /// nothing when that quantity does not fit an `i64`.
    pub(crate) fn owned_quantity(&self, user_id: i64, stock_id: i64) -> (r: Option<i64>)
        requires
            self.wf(),
        ensures
            match r {
                Option::Some(q) => q == owned_qty(*self, user_id, stock_id),
                Option::None => !(i64::MIN <= owned_qty(*self, user_id, stock_id) <= i64::MAX),
            },
    {
        let max_entry: i128 = i64::MAX as i128;
        let mut granted: i128 = 0;
        let mut i: usize = 0;
        while i < self.grants.len()
            invariant
                self.wf(),
                i <= self.grants@.len(),
                granted == grants_qty(self.grants@.take(i as int), user_id, stock_id),
                0 <= granted <= i * (i64::MAX as int),
            decreases self.grants@.len() - i,
        {
            proof {
                assert(self.grants@.take(i + 1).drop_last() =~= self.grants@.take(i as int));
                assert(self.grants@.take(i + 1).last() == self.grants@[i as int]);
                assert(i * (i64::MAX as int) < 0x8000_0000_0000_0000int
                    * 0x7fff_ffff_ffff_ffffint) by (nonlinear_arith)
                    requires
                        0 <= i < 0x8000_0000_0000_0000int,
                ;
            }
            let g = self.grants[i];
            if g.user_id == user_id && g.stock_id == stock_id {
                granted = granted + g.quantity as i128;
            }
            i = i + 1;
        }
        proof {
            assert(self.grants@.take(self.grants@.len() as int) =~= self.grants@);
            assert(self.grants@.len() * (i64::MAX as int) < 0x8000_0000_0000_0000int
                * 0x7fff_ffff_ffff_ffffint) by (nonlinear_arith)
                requires
                    self.grants@.len() < 0x8000_0000_0000_0000int,
            ;
        }
        let mut bought: i128 = 0;
        let mut j: usize = 0;
        while j < self.trades.len()
            invariant
                self.wf(),
                j <= self.trades@.len(),
                bought == buys_qty(self.orders@, self.trades@.take(j as int), user_id, stock_id),
                0 <= bought <= j * (i64::MAX as int),
            decreases self.trades@.len() - j,
        {
            proof {
                assert(self.trades@.take(j + 1).drop_last() =~= self.trades@.take(j as int));
                assert(self.trades@.take(j + 1).last() == self.trades@[j as int]);
                assert(self.trade_wf(self.trades@[j as int]));
                assert(j * (i64::MAX as int) < 0x8000_0000_0000_0000int
                    * 0x7fff_ffff_ffff_ffffint) by (nonlinear_arith)
                    requires
                        0 <= j < 0x8000_0000_0000_0000int,
                ;
            }
            let t = self.trades[j];
            let order_count = self.orders.len();
            let buy = self.orders[(t.buy_order - 1) as usize];
            proof {
                assert(buy == order_at(self.orders@, t.buy_order));
            }
            if buy.user_id == user_id && buy.stock_id == stock_id {
                bought = bought + t.quantity as i128;
            }
            j = j + 1;
        }
        proof {
            assert(self.trades@.take(self.trades@.len() as int) =~= self.trades@);
            assert(self.trades@.len() * (i64::MAX as int) < 0x8000_0000_0000_0000int
                * 0x7fff_ffff_ffff_ffffint) by (nonlinear_arith)
                requires
                    self.trades@.len() < 0x8000_0000_0000_0000int,
            ;
        }
        let mut sold: i128 = 0;
        let mut k: usize = 0;
        while k < self.orders.len()
            invariant
                self.wf(),
                k <= self.orders@.len(),
                sold == sells_qty(self.orders@.take(k as int), self.trades@, user_id, stock_id),
                0 <= sold <= k * (i64::MAX as int),
            decreases self.orders@.len() - k,
        {
            proof {
                assert(self.orders@.take(k + 1).drop_last() =~= self.orders@.take(k as int));
                assert(self.orders@.take(k + 1).last() == self.orders@[k as int]);
                assert(self.order_wf(self.orders@[k as int]));
                assert(k * (i64::MAX as int) < 0x8000_0000_0000_0000int
                    * 0x7fff_ffff_ffff_ffffint) by (nonlinear_arith)
                    requires
                        0 <= k < 0x8000_0000_0000_0000int,
                ;
            }
            let o = self.orders[k];
            if o.limit_price.is_some() && o.user_id == user_id && o.stock_id == stock_id {
                let term: i64 = if o.order_status == OrderStatus::InProgress || o.order_status
                    == OrderStatus::PartiallyComplete || o.order_status == OrderStatus::Completed {
                    o.quantity
                } else {
                    self.filled_quantity(k)
                };
                sold = sold + term as i128;
            }
            k = k + 1;
        }
        proof {
            assert(self.orders@.take(self.orders@.len() as int) =~= self.orders@);
            assert(self.orders@.len() * (i64::MAX as int) < 0x8000_0000_0000_0000int
                * 0x7fff_ffff_ffff_ffffint) by (nonlinear_arith)
                requires
                    self.orders@.len() < 0x8000_0000_0000_0000int,
            ;
        }
        let net = granted - sold;
        let total = match net.checked_add(bought) {
            Option::Some(total) => total,
            Option::None => {
                return None;
            },
        };
        if total > max_entry || total < -max_entry - 1 {
            return None;
        }
        Some(total as i64)
    }

    /// Derives the stock portfolio of `user_id`: one entry per stock the
    /// user net-owns a positive quantity of, in stock id order. Holdings
    /// that are zero or negative are never reported. When some net quantity
    /// does not fit an `i64`, the query reports an internal error instead.
    #[verifier::rlimit(60)]
    pub fn get_stock_portfolio(&self, user_id: i64) -> (r: Result<Vec<StockPortfolio>, AppError>)
        requires
            self.wf(),
        ensures
            r is Ok <==> portfolio_fits(*self, user_id),
            r matches Ok(v) ==> forall|k: int|
                0 <= k < v@.len() ==> {
                    let e = #[trigger] v@[k];
                    &&& valid_stock_id(self.stocks@, e.stock_id)
                    &&& e.stock_name@ == self.stocks@[e.stock_id - 1].stock_name@
                    &&& e.quantity_owned == owned_qty(*self, user_id, e.stock_id)
                    &&& e.quantity_owned > 0
                },
            r matches Ok(v) ==> forall|k1: int, k2: int|
                0 <= k1 < k2 < v@.len() ==> (#[trigger] v@[k1]).stock_id < (
                #[trigger] v@[k2]).stock_id,
            r matches Ok(v) ==> forall|sid: i64|
                valid_stock_id(self.stocks@, sid) && #[trigger] owned_qty(*self, user_id, sid) > 0
                    ==> reports_stock(v@, sid),
            r matches Err(e) ==> e == AppError::InternalServerError,
    {
        let mut out: Vec<StockPortfolio> = Vec::new();
        let mut s: usize = 0;
        while s < self.stocks.len()
            invariant
                self.wf(),
                s <= self.stocks@.len(),
                forall|k: int|
                    0 <= k < out@.len() ==> {
                        let e = #[trigger] out@[k];
                        &&& 1 <= e.stock_id <= s
                        &&& e.stock_name@ == self.stocks@[e.stock_id - 1].stock_name@
                        &&& e.quantity_owned == owned_qty(*self, user_id, e.stock_id)
                        &&& e.quantity_owned > 0
                    },
                forall|k1: int, k2: int|
                    0 <= k1 < k2 < out@.len() ==> (#[trigger] out@[k1]).stock_id < (
                    #[trigger] out@[k2]).stock_id,
                forall|sid: i64|
                    1 <= sid <= s && #[trigger] owned_qty(*self, user_id, sid) > 0
                        ==> reports_stock(out@, sid),
                forall|sid: i64|
                    1 <= sid <= s ==> i64::MIN <= #[trigger] owned_qty(*self, user_id, sid)
                        <= i64::MAX,
            decreases self.stocks@.len() - s,
        {
            let sid: i64 = (s as i64) + 1;
            match self.owned_quantity(user_id, sid) {
                Option::None => {
                    return Err(AppError::InternalServerError);
                },
                Option::Some(q) => {
                    let ghost prev = out@;
                    if q > 0 {
                        let name = self.stocks[s].stock_name.clone();
                        out.push(
                            StockPortfolio { stock_id: sid, stock_name: name, quantity_owned: q },
                        );
                    }
                    proof {
                        assert forall|sid2: i64|
                            1 <= sid2 <= s + 1 && #[trigger] owned_qty(*self, user_id, sid2)
                                > 0 implies reports_stock(out@, sid2) by {
                            if sid2 == sid {
                                assert(out@[out@.len() - 1].stock_id == sid2);
                            } else {
                                let k0 = choose|k2: int|
                                    0 <= k2 < prev.len() && (#[trigger] prev[k2]).stock_id == sid2;
                                assert(out@[k0].stock_id == sid2);
                            }
                        }
                    }
                },
            }
            s = s + 1;
        }
        proof {
            assert forall|sid: i64|
                valid_stock_id(self.stocks@, sid) && #[trigger] owned_qty(*self, user_id, sid)
                    > 0 implies reports_stock(out@, sid) by {
                assert(1 <= sid <= s);
            }
            assert(forall|k: int|
                0 <= k < out@.len() ==> {
                    let e = #[trigger] out@[k];
                    &&& valid_stock_id(self.stocks@, e.stock_id)
                    &&& e.stock_name@ == self.stocks@[e.stock_id - 1].stock_name@
                    &&& e.quantity_owned == owned_qty(*self, user_id, e.stock_id)
                    &&& e.quantity_owned > 0
                });
            assert(portfolio_fits(*self, user_id));
        }
        Ok(out)
    }

    /// Computes the best current ask for `stock_id`.
    pub(crate) fn best_ask(&self, stock_id: i64) -> (r: Option<i64>)
        requires
            self.wf(),
        ensures
            match r {
                Option::None => min_ask(self.orders@, stock_id) is None,
                Option::Some(p) => min_ask(self.orders@, stock_id) == Some(p as int),
            },
    {
        let mut cur: Option<i64> = None;
        let mut i: usize = 0;
        while i < self.orders.len()
            invariant
                self.wf(),
                i <= self.orders@.len(),
                match cur {
                    Option::None => min_ask(self.orders@.take(i as int), stock_id) is None,
                    Option::Some(p) => min_ask(self.orders@.take(i as int), stock_id) == Some(
                        p as int,
                    ),
                },
            decreases self.orders@.len() - i,
        {
            proof {
                assert(self.orders@.take(i + 1).drop_last() =~= self.orders@.take(i as int));
                assert(self.orders@.take(i + 1).last() == self.orders@[i as int]);
            }
            let o = self.orders[i];
            if o.stock_id == stock_id && o.limit_price.is_some() && (o.order_status
                == OrderStatus::InProgress || o.order_status == OrderStatus::PartiallyComplete) {
                let p = o.limit_price.unwrap();
                cur = match cur {
                    Option::None => Some(p),
                    Option::Some(m) => Some(if p < m { p } else { m }),
                };
            }
            i = i + 1;
        }
        proof {
            assert(self.orders@.take(self.orders@.len() as int) =~= self.orders@);
        }
        cur
    }

    /// Lists, for each stock with at least one resting sell order, the best
    /// current ask: the minimum limit price among its resting offers. Stocks
    /// with no resting offer are omitted; entries come in stock id order.
    pub fn get_stock_prices(&self) -> (r: Vec<StockPrice>)
        requires
            self.wf(),
        ensures
            forall|k: int|
                0 <= k < r@.len() ==> {
                    let e = #[trigger] r@[k];
                    &&& valid_stock_id(self.stocks@, e.stock_id)
                    &&& e.stock_name@ == self.stocks@[e.stock_id - 1].stock_name@
                    &&& min_ask(self.orders@, e.stock_id) == Some(e.current_price as int)
                },
            forall|k1: int, k2: int|
                0 <= k1 < k2 < r@.len() ==> (#[trigger] r@[k1]).stock_id < (
                #[trigger] r@[k2]).stock_id,
            forall|sid: i64|
                valid_stock_id(self.stocks@, sid) && (#[trigger] min_ask(self.orders@, sid))
                    is Some ==> reports_price(r@, sid),
    {
        let mut out: Vec<StockPrice> = Vec::new();
        let mut s: usize = 0;
        while s < self.stocks.len()
            invariant
                self.wf(),
                s <= self.stocks@.len(),
                forall|k: int|
                    0 <= k < out@.len() ==> {
                        let e = #[trigger] out@[k];
                        &&& 1 <= e.stock_id <= s
                        &&& e.stock_name@ == self.stocks@[e.stock_id - 1].stock_name@
                        &&& min_ask(self.orders@, e.stock_id) == Some(e.current_price as int)
                    },
                forall|k1: int, k2: int|
                    0 <= k1 < k2 < out@.len() ==> (#[trigger] out@[k1]).stock_id < (
                    #[trigger] out@[k2]).stock_id,
                forall|sid: i64|
                    1 <= sid <= s && (#[trigger] min_ask(self.orders@, sid)) is Some
                        ==> reports_price(out@, sid),
            decreases self.stocks@.len() - s,
        {
            let sid: i64 = (s as i64) + 1;
            let ghost prev = out@;
            match self.best_ask(sid) {
                Option::None => {},
                Option::Some(p) => {
                    let name = self.stocks[s].stock_name.clone();
                    out.push(StockPrice { stock_id: sid, stock_name: name, current_price: p });
                },
            }
            proof {
                assert forall|sid2: i64|
                    1 <= sid2 <= s + 1 && (#[trigger] min_ask(self.orders@, sid2))
                        is Some implies reports_price(out@, sid2) by {
                    if sid2 == sid {
                        assert(out@[out@.len() - 1].stock_id == sid2);
                    } else {
                        let k0 = choose|k2: int|
                            0 <= k2 < prev.len() && (#[trigger] prev[k2]).stock_id == sid2;
                        assert(out@[k0].stock_id == sid2);
                    }
                }
            }
            s = s + 1;
        }
        proof {
            assert forall|sid: i64|
                valid_stock_id(self.stocks@, sid) && (#[trigger] min_ask(self.orders@, sid))
                    is Some implies reports_price(out@, sid) by {
                assert(1 <= sid <= s);
            }
        }
        out
    }

    /// Derives the wallet history of `user_id`: one cash-flow record per
    /// trade the user took part in, tagged as a debit when the user was the
    /// buyer, ordered by trade time ascending.
    pub fn get_wallet_transactions(&self, user_id: i64) -> (r: Vec<WalletTransaction>)
        requires
            self.wf(),
        ensures
            r@ == wallet_records(self.orders@, self.trades@, user_id),
            wallet_sorted(r@),
    {
        let mut out: Vec<WalletTransaction> = Vec::new();
        let mut i: usize = 0;
        while i < self.trades.len()
            invariant
                self.wf(),
                i <= self.trades@.len(),
                out@ == wallet_records(self.orders@, self.trades@.take(i as int), user_id),
            decreases self.trades@.len() - i,
        {
            proof {
                assert(self.trades@.take(i + 1).drop_last() =~= self.trades@.take(i as int));
                assert(self.trades@.take(i + 1).last() == self.trades@[i as int]);
                assert(self.trade_wf(self.trades@[i as int]));
            }
            let t = self.trades[i];
            let order_count = self.orders.len();
            let sell = self.orders[(t.sell_order - 1) as usize];
            let buy = self.orders[(t.buy_order - 1) as usize];
            proof {
                assert(sell == order_at(self.orders@, t.sell_order));
                assert(buy == order_at(self.orders@, t.buy_order));
            }
            if sell.user_id == user_id || buy.user_id == user_id {
                let price = sell.limit_price.unwrap();
                let rec = WalletTransaction {
                    wallet_tx_id: t.trade_id,
                    stock_tx_id: if buy.user_id == user_id {
                        buy.order_id
                    } else {
                        sell.order_id
                    },
                    is_debit: buy.user_id == user_id,
                    amount: t.quantity * price,
                    time_stamp: t.created_at,
                };
                out.push(rec);
            }
            i = i + 1;
        }
        proof {
            assert(self.trades@.take(self.trades@.len() as int) =~= self.trades@);
            lemma_wallet_records_sorted(self.orders@, self.trades@, user_id);
        }
        out
    }

    /// Derives the cash balance of `user_id` by folding the ledger. The
    /// balance is reported exactly whenever it fits an `i64`; a balance
    /// outside that range is reported as an internal error.
    pub fn get_wallet_balance(&self, user_id: i64) -> (r: Result<i64, AppError>)
        requires
            self.wf(),
        ensures
            i64::MIN <= balance_of(*self, user_id) <= i64::MAX ==> r == Ok::<i64, AppError>(
                (balance_of(*self, user_id) as i64),
            ),
            !(i64::MIN <= balance_of(*self, user_id) <= i64::MAX) ==> r == Err::<i64, AppError>(
                AppError::InternalServerError,
            ),
    {
        let max_entry: i128 = i64::MAX as i128;
        let mut deposited: i128 = 0;
        let mut i: usize = 0;
        while i < self.deposits.len()
            invariant
                self.wf(),
                i <= self.deposits@.len(),
                deposited == deposits_total(self.deposits@.take(i as int), user_id),
                0 <= deposited <= i * (i64::MAX as int),
            decreases self.deposits@.len() - i,
        {
            proof {
                assert(self.deposits@.take(i + 1).drop_last() =~= self.deposits@.take(i as int));
                assert(self.deposits@.take(i + 1).last() == self.deposits@[i as int]);
            }
            let d = self.deposits[i];
            if d.user_id == user_id {
                proof {
                    assert(i * (i64::MAX as int) < 0x8000_0000_0000_0000int
                        * 0x7fff_ffff_ffff_ffffint) by (nonlinear_arith)
                        requires
                            0 <= i < 0x8000_0000_0000_0000int,
                    ;
                }
                deposited = deposited + d.amount as i128;
            }
            i = i + 1;
        }
        proof {
            assert(self.deposits@.take(self.deposits@.len() as int) =~= self.deposits@);
            assert(deposited <= self.deposits@.len() * (i64::MAX as int));
            assert(self.deposits@.len() * (i64::MAX as int) < 0x8000_0000_0000_0000int
                * 0x7fff_ffff_ffff_ffffint) by (nonlinear_arith)
                requires
                    self.deposits@.len() < 0x8000_0000_0000_0000int,
            ;
        }
        let mut flows: i128 = 0;
        let mut j: usize = 0;
        while j < self.trades.len()
            invariant
                self.wf(),
                j <= self.trades@.len(),
                flows == trades_total(self.orders@, self.trades@.take(j as int), user_id),
                -(j * (i64::MAX as int)) <= flows <= j * (i64::MAX as int),
            decreases self.trades@.len() - j,
        {
            proof {
                assert(self.trades@.take(j + 1).drop_last() =~= self.trades@.take(j as int));
                assert(self.trades@.take(j + 1).last() == self.trades@[j as int]);
                assert(self.trade_wf(self.trades@[j as int]));
            }
            let t = self.trades[j];
            let order_count = self.orders.len();
            proof {
                assert(1 <= t.sell_order <= order_count && 1 <= t.buy_order <= order_count);
            }
            let sidx: usize = (t.sell_order - 1) as usize;
            let bidx: usize = (t.buy_order - 1) as usize;
            let sell = self.orders[sidx];
            let buy = self.orders[bidx];
            proof {
                assert(sell == order_at(self.orders@, t.sell_order));
                assert(buy == order_at(self.orders@, t.buy_order));
                assert(self.order_wf(self.orders@[t.sell_order - 1]));
            }
            let price = sell.limit_price.unwrap();
            proof {
                assert(t.quantity * price > 0) by (nonlinear_arith)
                    requires
                        t.quantity > 0,
                        price > 0,
                ;
            }
            proof {
                assert(j * (i64::MAX as int) < 0x8000_0000_0000_0000int
                    * 0x7fff_ffff_ffff_ffffint) by (nonlinear_arith)
                    requires
                        0 <= j < 0x8000_0000_0000_0000int,
                ;
            }
            let value = t.quantity * price;
            if sell.user_id == user_id {
                flows = flows + value as i128;
            } else if buy.user_id == user_id {
                flows = flows - value as i128;
            }
            j = j + 1;
        }
        proof {
            assert(self.trades@.take(self.trades@.len() as int) =~= self.trades@);
            assert(-(self.trades@.len() * (i64::MAX as int)) <= flows <= self.trades@.len() * (
            i64::MAX as int));
            assert(self.trades@.len() * (i64::MAX as int) < 0x8000_0000_0000_0000int
                * 0x7fff_ffff_ffff_ffffint) by (nonlinear_arith)
                requires
                    self.trades@.len() < 0x8000_0000_0000_0000int,
            ;
        }
        let total = match deposited.checked_add(flows) {
            Option::Some(total) => total,
            Option::None => {
                return Err(AppError::InternalServerError);
            },
        };
        if total > max_entry || total < -max_entry - 1 {
            return Err(AppError::InternalServerError);
        }
        Ok(total as i64)
    }
}

} // verus!
