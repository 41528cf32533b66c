//! The matching engine.
//!
//! A buy (market) order is matched synchronously at creation time against the
//! single best resting sell order for its stock under price/time priority:
//! the lowest ask wins, and among equal asks the earliest created. If no
//! resting sell order of another user can cover the full buy quantity, the
//! request is accepted with no effect. Otherwise one trade is written, the
//! matched sell order's status advances, and the buy order itself is inserted
//! already `Completed` — all in one step, so no intermediate state is ever
//! visible.

use vstd::prelude::*;

use crate::ledger::{
    bought_qty, buy_trade_count, filled_qty, lemma_bought_qty_absent, valid_stock_id, Ledger,
};
use crate::types::{AppError, BuyOutcome, Order, OrderStatus, Trade};

verus! {

/// Row `i` of the order table is a sell order for `stock_id`, owned by
/// someone other than `buyer`, and still resting (eligible for matching).
pub open spec fn eligible_sell(orders: Seq<Order>, i: int, stock_id: i64, buyer: i64) -> bool {
    &&& 0 <= i < orders.len()
    &&& orders[i].stock_id == stock_id
    &&& orders[i].user_id != buyer
    &&& orders[i].limit_price is Some
    &&& (orders[i].order_status == OrderStatus::InProgress || orders[i].order_status
        == OrderStatus::PartiallyComplete)
}

/// Price/time priority between two sell orders: `a` is strictly preferred to
/// `b` when its ask is lower, or equal-priced but created earlier.
pub open spec fn preferred(a: Order, b: Order) -> bool {
    ||| a.limit_price->Some_0 < b.limit_price->Some_0
    ||| (a.limit_price->Some_0 == b.limit_price->Some_0 && a.created_at < b.created_at)
}

/// The index of the best resting sell order for `stock_id` that `buyer` may
/// match against, under price/time priority; among orders with equal price
/// and creation time the earliest row wins. `None` when no row is eligible.
pub open spec fn best_sell(orders: Seq<Order>, stock_id: i64, buyer: i64) -> Option<int>
    decreases orders.len(),
{
    if orders.len() == 0 {
        None
    } else {
        let prev = best_sell(orders.drop_last(), stock_id, buyer);
        let i = orders.len() - 1;
        if eligible_sell(orders, i as int, stock_id, buyer) {
            match prev {
                Option::None => Some(i as int),
                Option::Some(b) => if preferred(orders[i as int], orders[b]) {
                    Some(i as int)
                } else {
                    Some(b)
                },
            }
        } else {
            prev
        }
    }
}

/// What `best_sell` returns is eligible, no eligible row is strictly
/// preferred to it, and it is the earliest row among eligible rows with its
/// price and creation time; when it returns nothing, no row is eligible.
pub proof fn lemma_best_sell_properties(orders: Seq<Order>, stock_id: i64, buyer: i64)
    ensures
        match best_sell(orders, stock_id, buyer) {
            Option::None => forall|j: int| !eligible_sell(orders, j, stock_id, buyer),
            Option::Some(b) => {
                &&& eligible_sell(orders, b, stock_id, buyer)
                &&& forall|j: int|
                    eligible_sell(orders, j, stock_id, buyer) ==> !preferred(
                        orders[j],
                        orders[b],
                    )
                &&& forall|j: int|
                    eligible_sell(orders, j, stock_id, buyer) && !preferred(orders[b], orders[j])
                        ==> b <= j
            },
        },
    decreases orders.len(),
{
    if orders.len() > 0 {
        lemma_best_sell_properties(orders.drop_last(), stock_id, buyer);
        assert(forall|j: int|
            0 <= j < orders.len() - 1 ==> eligible_sell(orders, j, stock_id, buyer)
                == eligible_sell(orders.drop_last(), j, stock_id, buyer));
    }
}

/// A prefix of the trade table never carries more fills for a sell order
/// than the whole table does, since every trade's quantity is positive.
pub proof fn lemma_filled_qty_take_le(trades: Seq<Trade>, sell_id: i64, n: int)
    requires
        0 <= n <= trades.len(),
        forall|i: int| 0 <= i < trades.len() ==> (#[trigger] trades[i]).quantity >= 0,
    ensures
        filled_qty(trades.take(n), sell_id) <= filled_qty(trades, sell_id),
    decreases trades.len() - n,
{
    if n == trades.len() {
        assert(trades.take(n) =~= trades);
    } else {
        lemma_filled_qty_take_le(trades, sell_id, n + 1);
        assert(trades.take(n + 1).drop_last() =~= trades.take(n));
        assert(trades.take(n + 1).last() == trades[n]);
    }
}

impl Ledger {
    /// Locates the best resting sell order for `stock_id` that `buyer` may
    /// match against, by price/time priority.
    pub fn find_best_sell(&self, stock_id: i64, buyer: i64) -> (r: Option<usize>)
        requires
            self.wf(),
        ensures
            match r {
                Option::None => best_sell(self.orders@, stock_id, buyer) is None,
                Option::Some(i) => i < self.orders@.len() && best_sell(
                    self.orders@,
                    stock_id,
                    buyer,
                ) == Some(i as int),
            },
    {
        let mut best: Option<usize> = None;
        let mut i: usize = 0;
        while i < self.orders.len()
            invariant
                i <= self.orders@.len(),
                match best {
                    Option::None => best_sell(self.orders@.take(i as int), stock_id, buyer)
                        is None,
                    Option::Some(b) => b < i && best_sell(
                        self.orders@.take(i as int),
                        stock_id,
                        buyer,
                    ) == Some(b as int),
                },
            decreases self.orders@.len() - i,
        {
            let o = self.orders[i];
            proof {
                lemma_best_sell_properties(self.orders@.take(i as int), stock_id, buyer);
                assert(self.orders@.take(i + 1).drop_last() =~= self.orders@.take(i as int));
                assert(self.orders@.take(i + 1).last() == self.orders@[i as int]);
                assert(forall|j: int|
                    0 <= j < i ==> eligible_sell(
                        self.orders@.take(i + 1),
                        j,
                        stock_id,
                        buyer,
                    ) == eligible_sell(self.orders@.take(i as int), j, stock_id, buyer));
            }
            let eligible = o.stock_id == stock_id && o.user_id != buyer && o.limit_price.is_some()
                && (o.order_status == OrderStatus::InProgress || o.order_status
                == OrderStatus::PartiallyComplete);
            if eligible {
                match best {
                    Option::None => {
                        best = Some(i);
                    },
                    Option::Some(b) => {
                        let ob = self.orders[b];
                        let p = o.limit_price.unwrap();
                        let pb = ob.limit_price.unwrap();
                        if p < pb || (p == pb && o.created_at < ob.created_at) {
                            best = Some(i);
                        }
                    },
                }
            }
            i = i + 1;
        }
        proof {
            assert(self.orders@.take(self.orders@.len() as int) =~= self.orders@);
        }
        best
    }

    /// Computes how much of the sell order in row `sell_idx` is already
    /// filled: the sum of the quantities of the trades that reference it.
    pub(crate) fn filled_quantity(&self, sell_idx: usize) -> (r: i64)
        requires
            self.wf(),
            sell_idx < self.orders@.len(),
            self.orders@[sell_idx as int].limit_price is Some,
        ensures
            r == filled_qty(self.trades@, self.orders@[sell_idx as int].order_id),
            0 <= r <= self.orders@[sell_idx as int].quantity,
    {
        let sell_id = self.orders[sell_idx].order_id;
        proof {
            assert(self.order_wf(self.orders@[sell_idx as int]));
        }
        let mut acc: i64 = 0;
        let mut i: usize = 0;
        while i < self.trades.len()
            invariant
                self.wf(),
                sell_idx < self.orders@.len(),
                self.orders@[sell_idx as int].limit_price is Some,
                sell_id == self.orders@[sell_idx as int].order_id,
                i <= self.trades@.len(),
                acc == filled_qty(self.trades@.take(i as int), sell_id),
                0 <= acc <= self.orders@[sell_idx as int].quantity,
            decreases self.trades@.len() - i,
        {
            proof {
                assert(self.trades@.take(i + 1).drop_last() =~= self.trades@.take(i as int));
                assert(self.trades@.take(i + 1).last() == self.trades@[i as int]);
                lemma_filled_qty_take_le(self.trades@, sell_id, i + 1);
                assert(self.order_wf(self.orders@[sell_idx as int]));
                assert(filled_qty(self.trades@, sell_id) <= self.orders@[
                    sell_idx as int
                ].quantity);
            }
            let t = self.trades[i];
            if t.sell_order == sell_id {
                acc = acc + t.quantity;
            }
            i = i + 1;
        }
        proof {
            assert(self.trades@.take(self.trades@.len() as int) =~= self.trades@);
        }
        acc
    }

    /// Places a buy (market) order for `quantity` units of `stock_id`.
    ///
    /// The request is matched against the single best resting sell order of
    /// another user, by price/time priority. When no such order exists, or
    /// the best one cannot cover the full quantity out of what it has left,
    /// the request is accepted with no effect and the outcome says
    /// `NoLiquidity`. Otherwise, in one atomic step: the buy order is
    /// inserted already `Completed`, one trade for the full quantity at the
    /// sell order's limit price is appended, and the sell order's status
    /// advances to `Completed` when this fill consumes its remainder and to
    /// `PartiallyComplete` otherwise.
    pub fn create_buy_order(&mut self, user_id: i64, stock_id: i64, quantity: i64, now: i64) -> (r:
        Result<BuyOutcome, AppError>)
        requires
            old(self).wf(),
            now >= old(self).clock,
            old(self).orders@.len() + 1 < i64::MAX,
            old(self).trades@.len() + 1 < i64::MAX,
        ensures
            final(self).wf(),
            quantity <= 0 ==> r == Err::<BuyOutcome, AppError>(AppError::BadRequest) && final(self)
                .same_state(*old(self)),
            quantity > 0 && !valid_stock_id(old(self).stocks@, stock_id) ==> r == Err::<
                BuyOutcome,
                AppError,
            >(AppError::StockNotFound) && final(self).same_state(*old(self)),
            quantity > 0 && valid_stock_id(old(self).stocks@, stock_id) ==> match best_sell(
                old(self).orders@,
                stock_id,
                user_id,
            ) {
                Option::None => r == Ok::<BuyOutcome, AppError>(BuyOutcome::NoLiquidity)
                    && final(self).same_state(*old(self)),
                Option::Some(b) => {
                    let sell = old(self).orders@[b];
                    let f = filled_qty(old(self).trades@, sell.order_id);
                    if f + quantity > sell.quantity {
                        r == Ok::<BuyOutcome, AppError>(BuyOutcome::NoLiquidity) && final(self)
                            .same_state(*old(self))
                    } else {
                        let buy_id = (old(self).orders@.len() + 1) as i64;
                        let new_status = if f + quantity == sell.quantity {
                            OrderStatus::Completed
                        } else {
                            OrderStatus::PartiallyComplete
                        };
                        &&& r == Ok::<BuyOutcome, AppError>(BuyOutcome::Filled)
                        &&& final(self).orders@ == old(self).orders@.update(
                            b,
                            (Order { order_status: new_status, ..sell }),
                        ).push(
                            (Order {
                                order_id: buy_id,
                                user_id,
                                stock_id,
                                quantity,
                                limit_price: None,
                                order_status: OrderStatus::Completed,
                                created_at: now,
                            }),
                        )
                        &&& final(self).trades@ == old(self).trades@.push(
                            (Trade {
                                trade_id: (old(self).trades@.len() + 1) as i64,
                                sell_order: sell.order_id,
                                buy_order: buy_id,
                                quantity,
                                created_at: now,
                            }),
                        )
                        &&& final(self).stocks@ == old(self).stocks@
                        &&& final(self).deposits@ == old(self).deposits@
                        &&& final(self).grants@ == old(self).grants@
                        &&& final(self).clock == now
                    }
                },
            },
    {
        if quantity <= 0 {
            return Err(AppError::BadRequest);
        }
        if stock_id < 1 || stock_id > self.stocks.len() as i64 {
            return Err(AppError::StockNotFound);
        }
        let best = self.find_best_sell(stock_id, user_id);
        let b: usize = match best {
            Option::None => {
                return Ok(BuyOutcome::NoLiquidity);
            },
            Option::Some(b) => b,
        };
        proof {
            lemma_best_sell_properties(self.orders@, stock_id, user_id);
        }
        let sell = self.orders[b];
        let f = self.filled_quantity(b);
        if quantity > sell.quantity - f {
            return Ok(BuyOutcome::NoLiquidity);
        }
        let buy_order_id: i64 = (self.orders.len() as i64) + 1;
        let trade_id: i64 = (self.trades.len() as i64) + 1;
        let new_status = if f + quantity == sell.quantity {
            OrderStatus::Completed
        } else {
            OrderStatus::PartiallyComplete
        };
        let buy = Order {
            order_id: buy_order_id,
            user_id,
            stock_id,
            quantity,
            limit_price: None,
            order_status: OrderStatus::Completed,
            created_at: now,
        };
        let tr = Trade {
            trade_id,
            sell_order: sell.order_id,
            buy_order: buy_order_id,
            quantity,
            created_at: now,
        };
        proof {
            assert(self.order_wf(self.orders@[b as int]));
            assert(quantity * sell.limit_price->Some_0 <= sell.quantity
                * sell.limit_price->Some_0) by (nonlinear_arith)
                requires
                    quantity <= sell.quantity,
                    sell.limit_price->Some_0 >= 0,
            ;
        }
        self.orders[b] = Order { order_status: new_status, ..sell };
        self.orders.push(buy);
        self.trades.push(tr);
        self.clock = now;
        proof {
            let os = *old(self);
            let nt = self.trades@;
            let no = self.orders@;
            assert(nt.drop_last() =~= os.trades@);
            assert(forall|id: i64| #![auto]
                filled_qty(nt, id) == filled_qty(os.trades@, id) + if tr.sell_order == id {
                    quantity as int
                } else {
                    0int
                });
            assert(forall|id: i64| #![auto]
                bought_qty(nt, id) == bought_qty(os.trades@, id) + if tr.buy_order == id {
                    quantity as int
                } else {
                    0int
                });
            assert(forall|id: i64| #![auto]
                buy_trade_count(nt, id) == buy_trade_count(os.trades@, id) + if tr.buy_order == id {
                    1int
                } else {
                    0int
                });
            assert forall|i: int|
                0 <= i < os.trades@.len() implies (#[trigger] os.trades@[i]).buy_order
                != buy_order_id && os.trades@[i].sell_order != buy_order_id by {
                assert(os.trade_wf(os.trades@[i]));
            }
            lemma_bought_qty_absent(os.trades@, buy_order_id);
            assert forall|i: int| 0 <= i < no.len() implies self.order_wf(#[trigger] no[i]) by {
                assert(os.order_wf(os.orders@[i]) || i == no.len() - 1);
                if i == b {
                    assert(filled_qty(nt, no[i].order_id) == filled_qty(os.trades@, no[i].order_id)
                        + quantity);
                } else if i < no.len() - 1 {
                    assert(no[i] == os.orders@[i]);
                    assert(no[i].order_id != tr.sell_order && no[i].order_id != tr.buy_order);
                }
            }
            assert forall|i: int| 0 <= i < nt.len() implies self.trade_wf(#[trigger] nt[i]) by {
                if i < nt.len() - 1 {
                    assert(os.trade_wf(os.trades@[i]));
                    assert(os.trades@[i].buy_order != (b + 1) as i64);
                    assert(no[os.trades@[i].sell_order - 1].limit_price == os.orders@[os.trades@[
                        i
                    ].sell_order - 1].limit_price);
                }
            }
        }
        Ok(BuyOutcome::Filled)
    }
}

} // verus!
