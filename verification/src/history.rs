//! The order history projector.
//!
//! A user's order history merges two kinds of records by creation time: one
//! record per order the user placed, and one record per fill that one of the
//! user's resting sell orders received from a counterparty, tagged with a
//! back-reference to that parent order. Buy orders carry the settlement
//! price of the sell order they matched and a reference to the settling
//! trade.

use vstd::prelude::*;

use crate::ledger::{buy_trade_count, lemma_bought_qty_absent, order_at, Ledger};
use crate::types::{Order, OrderStatus, OrderType, StockTransaction, Trade};

verus! {

/// The first row of the trade table that settles the buy order `buy_id`.
/// Every buy order of a valid ledger is settled by exactly one trade, so
/// the first one is the only one.
pub open spec fn buy_trade_index(trades: Seq<Trade>, buy_id: i64) -> int
    decreases trades.len(),
{
    if trades.len() == 0 {
        0
    } else if trades.first().buy_order == buy_id {
        0
    } else {
        1 + buy_trade_index(trades.drop_first(), buy_id)
    }
}

/// When no trade before row `i` settles `buy_id` and row `i` does,
/// `buy_trade_index` names row `i`.
pub proof fn lemma_buy_trade_index_first(trades: Seq<Trade>, buy_id: i64, i: int)
    requires
        0 <= i < trades.len(),
        trades[i].buy_order == buy_id,
        forall|j: int| 0 <= j < i ==> (#[trigger] trades[j]).buy_order != buy_id,
    ensures
        buy_trade_index(trades, buy_id) == i,
    decreases i,
{
    if i > 0 {
        assert(trades.first().buy_order != buy_id);
        assert(forall|j: int|
            0 <= j < i - 1 ==> (#[trigger] trades.drop_first()[j]).buy_order != buy_id);
        lemma_buy_trade_index_first(trades.drop_first(), buy_id, i - 1);
    }
}

/// The history record of one order the user placed. A sell order shows its
/// own limit price and live status; a buy order shows the price it settled
/// at (the matched sell order's limit price) and points at the settling
/// trade.
pub open spec fn order_record(orders: Seq<Order>, trades: Seq<Trade>, o: Order) -> StockTransaction {
    match o.limit_price {
        Some(p) => (StockTransaction {
            stock_tx_id: o.order_id,
            parent_stock_tx_id: None,
            stock_id: o.stock_id,
            wallet_tx_id: None,
            order_status: o.order_status,
            is_buy: false,
            order_type: OrderType::Limit,
            stock_price: p,
            quantity: o.quantity,
            time_stamp: o.created_at,
        }),
        None => {
            let t = trades[buy_trade_index(trades, o.order_id)];
            StockTransaction {
                stock_tx_id: o.order_id,
                parent_stock_tx_id: None,
                stock_id: o.stock_id,
                wallet_tx_id: Some(t.trade_id),
                order_status: o.order_status,
                is_buy: true,
                order_type: OrderType::Market,
                stock_price: order_at(orders, t.sell_order).limit_price->Some_0,
                quantity: o.quantity,
                time_stamp: o.created_at,
            }
        },
    }
}

/// The history record of one fill received by a resting sell order: a
/// completed transfer of the traded quantity at the sell order's limit
/// price, pointing back at the parent order and at the settling trade.
pub open spec fn fill_record(orders: Seq<Order>, t: Trade) -> StockTransaction {
    let sell = order_at(orders, t.sell_order);
    StockTransaction {
        stock_tx_id: t.trade_id,
        parent_stock_tx_id: Some(sell.order_id),
        stock_id: sell.stock_id,
        wallet_tx_id: Some(t.trade_id),
        order_status: OrderStatus::Completed,
        is_buy: false,
        order_type: OrderType::Limit,
        stock_price: sell.limit_price->Some_0,
        quantity: t.quantity,
        time_stamp: t.created_at,
    }
}

/// Records of the first `n` orders that belong to `user_id`, in table order.
pub open spec fn user_order_records(
    orders: Seq<Order>,
    trades: Seq<Trade>,
    user_id: i64,
    n: int,
) -> Seq<StockTransaction>
    decreases n,
{
    if n <= 0 {
        Seq::empty()
    } else {
        let prev = user_order_records(orders, trades, user_id, n - 1);
        if orders[n - 1].user_id == user_id {
            prev.push(order_record(orders, trades, orders[n - 1]))
        } else {
            prev
        }
    }
}

/// Records of the fills among the first `n` trades whose sell side belongs
/// to `user_id`, in table order.
pub open spec fn user_fill_records(
    orders: Seq<Order>,
    trades: Seq<Trade>,
    user_id: i64,
    n: int,
) -> Seq<StockTransaction>
    decreases n,
{
    if n <= 0 {
        Seq::empty()
    } else {
        let prev = user_fill_records(orders, trades, user_id, n - 1);
        if order_at(orders, trades[n - 1].sell_order).user_id == user_id {
            prev.push(fill_record(orders, trades[n - 1]))
        } else {
            prev
        }
    }
}

/// Merges two histories into one ordered by time stamp; records of the
/// first history come first among equal time stamps.
pub open spec fn merge_by_time(a: Seq<StockTransaction>, b: Seq<StockTransaction>) -> Seq<
    StockTransaction,
>
    decreases a.len() + b.len(),
{
    if a.len() == 0 {
        b
    } else if b.len() == 0 {
        a
    } else if a.first().time_stamp <= b.first().time_stamp {
        seq![a.first()] + merge_by_time(a.drop_first(), b)
    } else {
        seq![b.first()] + merge_by_time(a, b.drop_first())
    }
}

/// A history whose records carry nondecreasing time stamps.
pub open spec fn tx_sorted(recs: Seq<StockTransaction>) -> bool {
    forall|a: int, b: int|
        0 <= a <= b < recs.len() ==> (#[trigger] recs[a]).time_stamp <= (
        #[trigger] recs[b]).time_stamp
}

/// Every record of the history is stamped `t` or later.
pub open spec fn tx_at_least(recs: Seq<StockTransaction>, t: i64) -> bool {
    forall|a: int| 0 <= a < recs.len() ==> t <= (#[trigger] recs[a]).time_stamp
}

/// No record of the history is stamped later than `t`.
pub open spec fn tx_at_most(recs: Seq<StockTransaction>, t: i64) -> bool {
    forall|a: int| 0 <= a < recs.len() ==> (#[trigger] recs[a]).time_stamp <= t
}

/// A merge of two histories stamped `t` or later is stamped `t` or later.
pub proof fn lemma_merge_at_least(a: Seq<StockTransaction>, b: Seq<StockTransaction>, t: i64)
    requires
        tx_at_least(a, t),
        tx_at_least(b, t),
    ensures
        tx_at_least(merge_by_time(a, b), t),
    decreases a.len() + b.len(),
{
    if a.len() == 0 || b.len() == 0 {
    } else if a.first().time_stamp <= b.first().time_stamp {
        assert(forall|k: int|
            0 <= k < a.drop_first().len() ==> t <= (#[trigger] a.drop_first()[k]).time_stamp);
        lemma_merge_at_least(a.drop_first(), b, t);
    } else {
        assert(forall|k: int|
            0 <= k < b.drop_first().len() ==> t <= (#[trigger] b.drop_first()[k]).time_stamp);
        lemma_merge_at_least(a, b.drop_first(), t);
    }
}

/// Merging two sorted histories yields a sorted history.
pub proof fn lemma_merge_sorted(a: Seq<StockTransaction>, b: Seq<StockTransaction>)
    requires
        tx_sorted(a),
        tx_sorted(b),
    ensures
        tx_sorted(merge_by_time(a, b)),
    decreases a.len() + b.len(),
{
    if a.len() == 0 || b.len() == 0 {
    } else if a.first().time_stamp <= b.first().time_stamp {
        assert(forall|i: int, j: int|
            0 <= i <= j < a.drop_first().len() ==> (#[trigger] a.drop_first()[i]).time_stamp <= (
            #[trigger] a.drop_first()[j]).time_stamp);
        lemma_merge_sorted(a.drop_first(), b);
        assert(forall|k: int|
            0 <= k < a.drop_first().len() ==> a.first().time_stamp <= (
            #[trigger] a.drop_first()[k]).time_stamp);
        lemma_merge_at_least(a.drop_first(), b, a.first().time_stamp);
        let m = merge_by_time(a, b);
        let rest = merge_by_time(a.drop_first(), b);
        assert(m == seq![a.first()] + rest);
        assert forall|i: int, j: int|
            0 <= i <= j < m.len() implies (#[trigger] m[i]).time_stamp <= (
        #[trigger] m[j]).time_stamp by {
            if i == 0 {
                if j > 0 {
                    assert(m[j] == rest[j - 1]);
                }
            } else {
                assert(m[i] == rest[i - 1] && m[j] == rest[j - 1]);
            }
        }
    } else {
        assert(forall|i: int, j: int|
            0 <= i <= j < b.drop_first().len() ==> (#[trigger] b.drop_first()[i]).time_stamp <= (
            #[trigger] b.drop_first()[j]).time_stamp);
        lemma_merge_sorted(a, b.drop_first());
        assert(forall|k: int|
            0 <= k < b.drop_first().len() ==> b.first().time_stamp <= (
            #[trigger] b.drop_first()[k]).time_stamp);
        assert(forall|k: int|
            0 <= k < a.len() ==> b.first().time_stamp <= (#[trigger] a[k]).time_stamp);
        lemma_merge_at_least(a, b.drop_first(), b.first().time_stamp);
        let m = merge_by_time(a, b);
        let rest = merge_by_time(a, b.drop_first());
        assert(m == seq![b.first()] + rest);
        assert forall|i: int, j: int|
            0 <= i <= j < m.len() implies (#[trigger] m[i]).time_stamp <= (
        #[trigger] m[j]).time_stamp by {
            if i == 0 {
                if j > 0 {
                    assert(m[j] == rest[j - 1]);
                }
            } else {
                assert(m[i] == rest[i - 1] && m[j] == rest[j - 1]);
            }
        }
    }
}

/// Order records inherit the order table's time order.
pub proof fn lemma_order_records_sorted(
    orders: Seq<Order>,
    trades: Seq<Trade>,
    user_id: i64,
    n: int,
)
    requires
        n <= orders.len(),
        forall|i: int, j: int|
            0 <= i <= j < orders.len() ==> (#[trigger] orders[i]).created_at <= (
            #[trigger] orders[j]).created_at,
    ensures
        tx_sorted(user_order_records(orders, trades, user_id, n)),
        n >= 1 ==> tx_at_most(
            user_order_records(orders, trades, user_id, n),
            orders[n - 1].created_at,
        ),
    decreases n,
{
    if n > 0 {
        lemma_order_records_sorted(orders, trades, user_id, n - 1);
    }
}

/// Fill records inherit the trade table's time order.
pub proof fn lemma_fill_records_sorted(
    orders: Seq<Order>,
    trades: Seq<Trade>,
    user_id: i64,
    n: int,
)
    requires
        n <= trades.len(),
        forall|i: int, j: int|
            0 <= i <= j < trades.len() ==> (#[trigger] trades[i]).created_at <= (
            #[trigger] trades[j]).created_at,
    ensures
        tx_sorted(user_fill_records(orders, trades, user_id, n)),
        n >= 1 ==> tx_at_most(
            user_fill_records(orders, trades, user_id, n),
            trades[n - 1].created_at,
        ),
    decreases n,
{
    if n > 0 {
        lemma_fill_records_sorted(orders, trades, user_id, n - 1);
    }
}

/// The order history of `user_id`: the user's own orders and the fills their
/// sell orders received, merged by creation time.
pub open spec fn order_history(l: Ledger, user_id: i64) -> Seq<StockTransaction> {
    merge_by_time(
        user_order_records(l.orders@, l.trades@, user_id, l.orders@.len() as int),
        user_fill_records(l.orders@, l.trades@, user_id, l.trades@.len() as int),
    )
}

impl Ledger {
    /// Locates the one trade that settles the buy order `buy_id`.
    fn find_buy_trade(&self, buy_id: i64) -> (r: usize)
        requires
            self.wf(),
            buy_trade_count(self.trades@, buy_id) == 1,
        ensures
            r < self.trades@.len(),
            self.trades@[r as int].buy_order == buy_id,
            r as int == buy_trade_index(self.trades@, buy_id),
    {
        let mut i: usize = 0;
        while i < self.trades.len()
            invariant
                self.wf(),
                buy_trade_count(self.trades@, buy_id) == 1,
                i <= self.trades@.len(),
                forall|j: int| 0 <= j < i ==> (#[trigger] self.trades@[j]).buy_order != buy_id,
            decreases self.trades@.len() - i,
        {
            let t = self.trades[i];
            if t.buy_order == buy_id {
                proof {
                    lemma_buy_trade_index_first(self.trades@, buy_id, i as int);
                }
                return i;
            }
            i = i + 1;
        }
        proof {
            lemma_bought_qty_absent(self.trades@, buy_id);
        }
        // Unreachable: a valid ledger settles every buy order by one trade.
        0
    }

    /// Derives the order history of `user_id`: one record per order the user
    /// placed and one per fill received by the user's sell orders, merged in
    /// creation-time order; among equal time stamps the user's own orders
    /// come first.
    pub fn get_stock_transactions(&self, user_id: i64) -> (r: Vec<StockTransaction>)
        requires
            self.wf(),
        ensures
            r@ == order_history(*self, user_id),
            tx_sorted(r@),
    {
        let order_count = self.orders.len();
        let trade_count = self.trades.len();

        let mut own: Vec<StockTransaction> = Vec::new();
        let mut i: usize = 0;
        while i < order_count
            invariant
                self.wf(),
                order_count == self.orders@.len(),
                i <= order_count,
                own@ == user_order_records(self.orders@, self.trades@, user_id, i as int),
            decreases order_count - i,
        {
            let o = self.orders[i];
            if o.user_id == user_id {
                proof {
                    assert(self.order_wf(self.orders@[i as int]));
                }
                let rec = match o.limit_price {
                    Option::Some(p) => StockTransaction {
                        stock_tx_id: o.order_id,
                        parent_stock_tx_id: None,
                        stock_id: o.stock_id,
                        wallet_tx_id: None,
                        order_status: o.order_status,
                        is_buy: false,
                        order_type: OrderType::Limit,
                        stock_price: p,
                        quantity: o.quantity,
                        time_stamp: o.created_at,
                    },
                    Option::None => {
                        let ti = self.find_buy_trade(o.order_id);
                        let t = self.trades[ti];
                        proof {
                            assert(self.trade_wf(self.trades@[ti as int]));
                        }
                        let sell = self.orders[(t.sell_order - 1) as usize];
                        proof {
                            assert(sell == order_at(self.orders@, t.sell_order));
                        }
                        StockTransaction {
                            stock_tx_id: o.order_id,
                            parent_stock_tx_id: None,
                            stock_id: o.stock_id,
                            wallet_tx_id: Some(t.trade_id),
                            order_status: o.order_status,
                            is_buy: true,
                            order_type: OrderType::Market,
                            stock_price: sell.limit_price.unwrap(),
                            quantity: o.quantity,
                            time_stamp: o.created_at,
                        }
                    },
                };
                own.push(rec);
            }
            i = i + 1;
        }

        let mut fills: Vec<StockTransaction> = Vec::new();
        let mut j: usize = 0;
        while j < trade_count
            invariant
                self.wf(),
                order_count == self.orders@.len(),
                trade_count == self.trades@.len(),
                j <= trade_count,
                fills@ == user_fill_records(self.orders@, self.trades@, user_id, j as int),
            decreases trade_count - j,
        {
            let t = self.trades[j];
            proof {
                assert(self.trade_wf(self.trades@[j as int]));
            }
            let sell = self.orders[(t.sell_order - 1) as usize];
            proof {
                assert(sell == order_at(self.orders@, t.sell_order));
            }
            if sell.user_id == user_id {
                fills.push(
                    StockTransaction {
                        stock_tx_id: t.trade_id,
                        parent_stock_tx_id: Some(sell.order_id),
                        stock_id: sell.stock_id,
                        wallet_tx_id: Some(t.trade_id),
                        order_status: OrderStatus::Completed,
                        is_buy: false,
                        order_type: OrderType::Limit,
                        stock_price: sell.limit_price.unwrap(),
                        quantity: t.quantity,
                        time_stamp: t.created_at,
                    },
                );
            }
            j = j + 1;
        }

        proof {
            lemma_order_records_sorted(self.orders@, self.trades@, user_id, order_count as int);
            lemma_fill_records_sorted(self.orders@, self.trades@, user_id, trade_count as int);
            lemma_merge_sorted(own@, fills@);
        }

        let mut out: Vec<StockTransaction> = Vec::new();
        let a_len = own.len();
        let b_len = fills.len();
        let mut ai: usize = 0;
        let mut bi: usize = 0;
        proof {
            assert(own@.skip(0) =~= own@);
            assert(fills@.skip(0) =~= fills@);
            assert(out@ + merge_by_time(own@, fills@) =~= merge_by_time(own@, fills@));
        }
        while ai < a_len || bi < b_len
            invariant
                a_len == own@.len(),
                b_len == fills@.len(),
                ai <= a_len,
                bi <= b_len,
                merge_by_time(own@, fills@) == out@ + merge_by_time(
                    own@.skip(ai as int),
                    fills@.skip(bi as int),
                ),
            decreases (a_len - ai) + (b_len - bi),
        {
            let take_a = if ai < a_len && bi < b_len {
                own[ai].time_stamp <= fills[bi].time_stamp
            } else {
                ai < a_len
            };
            proof {
                let asq = own@.skip(ai as int);
                let bsq = fills@.skip(bi as int);
                if ai < a_len {
                    assert(asq.first() == own@[ai as int]);
                    assert(asq.drop_first() =~= own@.skip(ai + 1));
                }
                if bi < b_len {
                    assert(bsq.first() == fills@[bi as int]);
                    assert(bsq.drop_first() =~= fills@.skip(bi + 1));
                }
            }
            if take_a {
                let rec = own[ai];
                out.push(rec);
                proof {
                    let asq = own@.skip(ai as int);
                    let bsq = fills@.skip(bi as int);
                    if bsq.len() == 0 {
                        assert(merge_by_time(asq, bsq) == asq);
                        assert(asq =~= seq![own@[ai as int]] + own@.skip(ai + 1));
                        assert(merge_by_time(own@.skip(ai + 1), bsq) == own@.skip(ai + 1)
                            || own@.skip(ai + 1).len() == 0);
                        assert(merge_by_time(own@.skip(ai + 1), bsq) =~= own@.skip(ai + 1));
                    } else {
                        assert(merge_by_time(asq, bsq) == seq![asq.first()] + merge_by_time(
                            asq.drop_first(),
                            bsq,
                        ));
                    }
                    assert(out@ + merge_by_time(own@.skip(ai + 1), fills@.skip(bi as int))
                        =~= merge_by_time(own@, fills@));
                }
                ai = ai + 1;
            } else {
                let rec = fills[bi];
                out.push(rec);
                proof {
                    let asq = own@.skip(ai as int);
                    let bsq = fills@.skip(bi as int);
                    if asq.len() == 0 {
                        assert(merge_by_time(asq, bsq) == bsq);
                        assert(bsq =~= seq![fills@[bi as int]] + fills@.skip(bi + 1));
                        assert(merge_by_time(asq, fills@.skip(bi + 1)) =~= fills@.skip(bi + 1));
                    } else {
                        assert(asq.first().time_stamp > bsq.first().time_stamp);
                        assert(merge_by_time(asq, bsq) == seq![bsq.first()] + merge_by_time(
                            asq,
                            bsq.drop_first(),
                        ));
                    }
                    assert(out@ + merge_by_time(own@.skip(ai as int), fills@.skip(bi + 1))
                        =~= merge_by_time(own@, fills@));
                }
                bi = bi + 1;
            }
        }
        proof {
            assert(own@.skip(a_len as int) =~= Seq::<StockTransaction>::empty());
            assert(fills@.skip(b_len as int) =~= Seq::<StockTransaction>::empty());
            assert(out@ =~= merge_by_time(own@, fills@));
        }
        out
    }
}

} // verus!
