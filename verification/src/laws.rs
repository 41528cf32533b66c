//! Laws of the exchange: properties that hold of every valid ledger, stated
//! and proved once, on top of the operation contracts.

use vstd::prelude::*;

use crate::history::{fill_record, user_fill_records};
use crate::ledger::{filled_qty, order_at, sell_status_consistent, Ledger};
use crate::matching::{best_sell, eligible_sell, lemma_best_sell_properties, preferred};
use crate::projector::{balance_of, deposits_total, trades_total};
use crate::types::{Order, OrderStatus, Trade};

verus! {

/// No over-fill: in a valid ledger the total quantity filled against a sell
/// order never exceeds the order's quantity. Every operation preserves
/// validity, so this bound holds at every point in time.
pub proof fn lemma_no_overfill(l: Ledger, i: int)
    requires
        l.wf(),
        0 <= i < l.orders@.len(),
        l.orders@[i].limit_price is Some,
    ensures
        filled_qty(l.trades@, l.orders@[i].order_id) <= l.orders@[i].quantity,
{
    assert(l.order_wf(l.orders@[i]));
}

/// A sell order's status is always the one derived from its fills: no fills
/// means `InProgress`, a partial sum means `PartiallyComplete`, the full
/// quantity means `Completed`, and a `Cancelled` order was withdrawn before
/// being fully filled.
pub proof fn lemma_status_matches_fills(l: Ledger, i: int)
    requires
        l.wf(),
        0 <= i < l.orders@.len(),
        l.orders@[i].limit_price is Some,
    ensures
        sell_status_consistent(l.orders@[i], l.trades@),
{
    assert(l.order_wf(l.orders@[i]));
}

/// A cancelled order accepts no further trades: once a sell order's status
/// is `Cancelled`, it is never the best resting sell order for any buyer,
/// and the matching engine only writes trades against the best resting sell
/// order.
pub proof fn lemma_cancelled_never_matches(l: Ledger, order_id: i64, stock_id: i64, buyer: i64)
    requires
        1 <= order_id <= l.orders@.len(),
        order_at(l.orders@, order_id).order_status == OrderStatus::Cancelled,
    ensures
        best_sell(l.orders@, stock_id, buyer) != Some(order_id - 1),
{
    lemma_best_sell_properties(l.orders@, stock_id, buyer);
    assert(!eligible_sell(l.orders@, order_id - 1, stock_id, buyer));
}

/// Price/time priority: a buy is never matched against a resting sell order
/// while another eligible order is strictly preferred — asks less, or asks
/// the same but was created earlier.
pub proof fn lemma_price_time_priority(
    orders: Seq<Order>,
    stock_id: i64,
    buyer: i64,
    i: int,
    j: int,
)
    requires
        eligible_sell(orders, i, stock_id, buyer),
        eligible_sell(orders, j, stock_id, buyer),
        preferred(orders[i], orders[j]),
    ensures
        best_sell(orders, stock_id, buyer) is Some,
        best_sell(orders, stock_id, buyer) != Some(j),
{
    lemma_best_sell_properties(orders, stock_id, buyer);
}

/// Sum of the proceeds of all trades in which `user_id` was the seller.
pub open spec fn proceeds_total(orders: Seq<Order>, trades: Seq<Trade>, user_id: i64) -> int
    decreases trades.len(),
{
    if trades.len() == 0 {
        0
    } else {
        let t = trades.last();
        proceeds_total(orders, trades.drop_last(), user_id) + if order_at(
            orders,
            t.sell_order,
        ).user_id == user_id {
            t.quantity * order_at(orders, t.sell_order).limit_price->Some_0
        } else {
            0int
        }
    }
}

/// Sum of the costs of all trades in which `user_id` was the buyer.
pub open spec fn costs_total(orders: Seq<Order>, trades: Seq<Trade>, user_id: i64) -> int
    decreases trades.len(),
{
    if trades.len() == 0 {
        0
    } else {
        let t = trades.last();
        costs_total(orders, trades.drop_last(), user_id) + if order_at(
            orders,
            t.buy_order,
        ).user_id == user_id {
            t.quantity * order_at(orders, t.sell_order).limit_price->Some_0
        } else {
            0int
        }
    }
}

/// In a trade table where no trade is a self-trade, the signed cash flows
/// split into proceeds minus costs.
proof fn lemma_trades_split(orders: Seq<Order>, trades: Seq<Trade>, user_id: i64)
    requires
        forall|i: int|
            0 <= i < trades.len() ==> order_at(orders, (#[trigger] trades[i]).sell_order).user_id
                != order_at(orders, trades[i].buy_order).user_id,
    ensures
        trades_total(orders, trades, user_id) == proceeds_total(orders, trades, user_id)
            - costs_total(orders, trades, user_id),
    decreases trades.len(),
{
    if trades.len() > 0 {
        lemma_trades_split(orders, trades.drop_last(), user_id);
    }
}

/// The balance formula: a user's derived cash balance equals the sum of the
/// user's deposits, plus the proceeds of the trades in which the user sold,
/// minus the costs of the trades in which the user bought.
pub proof fn lemma_balance_formula(l: Ledger, user_id: i64)
    requires
        l.wf(),
    ensures
        balance_of(l, user_id) == deposits_total(l.deposits@, user_id) + proceeds_total(
            l.orders@,
            l.trades@,
            user_id,
        ) - costs_total(l.orders@, l.trades@, user_id),
{
    assert forall|i: int|
        0 <= i < l.trades@.len() implies order_at(
        l.orders@,
        (#[trigger] l.trades@[i]).sell_order,
    ).user_id != order_at(l.orders@, l.trades@[i].buy_order).user_id by {
        assert(l.trade_wf(l.trades@[i]));
    }
    lemma_trades_split(l.orders@, l.trades@, user_id);
}

/// The order rows of `post` extend those of `pre`: every row that existed
/// keeps every field but its status, and rows are only added.
pub open spec fn orders_extend(pre: Seq<Order>, post: Seq<Order>) -> bool {
    &&& pre.len() <= post.len()
    &&& forall|k: int|
        0 <= k < pre.len() ==> {
            let a = #[trigger] pre[k];
            let b = #[trigger] post[k];
            &&& b.order_id == a.order_id
            &&& b.user_id == a.user_id
            &&& b.stock_id == a.stock_id
            &&& b.quantity == a.quantity
            &&& b.limit_price == a.limit_price
            &&& b.created_at == a.created_at
        }
}

/// A committed trade is immutable: the history records derived from the
/// first `n` trades read the same after any ledger growth that appends
/// trades and touches nothing of an existing order but its status — so
/// re-reading the history before and after unrelated writes never changes an
/// already-reported fill.
pub proof fn lemma_fill_records_stable(pre: Ledger, post: Ledger, user_id: i64, n: int)
    requires
        0 <= n <= pre.trades@.len(),
        pre.trades@.is_prefix_of(post.trades@),
        orders_extend(pre.orders@, post.orders@),
        forall|k: int|
            0 <= k < pre.trades@.len() ==> 1 <= (#[trigger] pre.trades@[k]).sell_order
                <= pre.orders@.len(),
    ensures
        user_fill_records(post.orders@, post.trades@, user_id, n) == user_fill_records(
            pre.orders@,
            pre.trades@,
            user_id,
            n,
        ),
    decreases n,
{
    if n > 0 {
        lemma_fill_records_stable(pre, post, user_id, n - 1);
        assert(post.trades@[n - 1] == pre.trades@[n - 1]);
        let t = pre.trades@[n - 1];
        assert(fill_record(post.orders@, t) == fill_record(pre.orders@, t));
    }
}

} // verus!
