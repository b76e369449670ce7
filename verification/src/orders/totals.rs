//! What sums over placed orders come to, counted order by order.

use crate::amount::{Amount, Micros};
use crate::fills::Position;
use crate::orders;
use crate::orders::{
    BatchView, Holdings, HoldingsView, OrderView, PendingBatch, PendingOrder, Side,
};
use crate::sums;
use crate::trader::simulating;
use vstd::prelude::*;

verus! {

/// The sum of `measure` over all orders of all batches.
pub open spec fn over_all<A>(batches: Seq<BatchView<A>>, measure: spec_fn(OrderView<A>) -> int) -> int {
    sums::total(
        batches.map_values(|batch: BatchView<A>| sums::total(batch.orders.map_values(measure))),
    )
}

/// The shares of a matched order of `side`, in millionths.
pub open spec fn shares_on(side: Side) -> spec_fn(OrderView<Micros>) -> int {
    |order: OrderView<Micros>|
        if order.matched && order.side == side {
            order.size.units as int
        } else {
            0
        }
}

/// Price times size of a matched order of `side`, in millionths.
pub open spec fn cost_on(side: Side) -> spec_fn(OrderView<Micros>) -> int {
    |order: OrderView<Micros>|
        if order.matched && order.side == side {
            order.price.product(order.size).units as int
        } else {
            0
        }
}

/// Counts the orders that are not matched.
pub open spec fn unmatched_one<A>() -> spec_fn(OrderView<A>) -> int {
    |order: OrderView<A>|
        if order.matched {
            0
        } else {
            1
        }
}

/// Counts the unmatched orders of `side`.
pub open spec fn open_one<A>(side: Side) -> spec_fn(OrderView<A>) -> int {
    |order: OrderView<A>|
        if !order.matched && order.side == side {
            1
        } else {
            0
        }
}

/// Counts the unmatched orders of `side` that the exchange has a name for.
pub open spec fn named_open_one<A>(side: Side) -> spec_fn(OrderView<A>) -> int {
    |order: OrderView<A>|
        if !order.matched && order.side == side && order.order_id is Some {
            1
        } else {
            0
        }
}

/// No price and no size is negative.
pub open spec fn not_negative(orders_in: Seq<OrderView<Micros>>) -> bool {
    forall|j: int|
        0 <= j < orders_in.len() ==> (#[trigger] orders_in[j]).price.units >= 0
            && orders_in[j].size.units >= 0
}

/// No price and no size is negative, and shares and costs add up to amounts in range.
pub open spec fn sums_in_range(batches: Seq<BatchView<Micros>>) -> bool {
    &&& forall|i: int| 0 <= i < batches.len() ==> not_negative((#[trigger] batches[i]).orders)
    &&& over_all(batches, shares_on(Side::Up)) <= i64::MAX
    &&& over_all(batches, shares_on(Side::Down)) <= i64::MAX
    &&& over_all(batches, cost_on(Side::Up)) + over_all(batches, cost_on(Side::Down)) <= i64::MAX
}

proof fn lemma_over_all_step<A>(batches: Seq<BatchView<A>>, measure: spec_fn(OrderView<A>) -> int)
    requires
        batches.len() > 0,
    ensures
        over_all(batches, measure) == over_all(batches.drop_last(), measure) + sums::total(
            batches.last().orders.map_values(measure),
        ),
{
    sums::lemma_total_step(
        batches,
        |batch: BatchView<A>| sums::total(batch.orders.map_values(measure)),
    );
}

proof fn lemma_measures(orders_in: Seq<OrderView<Micros>>, side: Side)
    requires
        not_negative(orders_in),
    ensures
        sums::total(orders_in.map_values(shares_on(side))) >= 0,
        sums::total(orders_in.map_values(cost_on(side))) >= 0,
{
    assert forall|j: int| 0 <= j < orders_in.len() implies #[trigger] orders_in.map_values(
        shares_on(side),
    )[j] >= 0 by {
        assert(orders_in[j].size.units >= 0);
    }
    assert forall|j: int| 0 <= j < orders_in.len() implies #[trigger] orders_in.map_values(
        cost_on(side),
    )[j] >= 0 by {
        let (p, z) = (orders_in[j].price.units as int, orders_in[j].size.units as int);
        assert(p * z >= 0) by (nonlinear_arith)
            requires
                p >= 0,
                z >= 0,
        ;
    }
    sums::lemma_total_not_negative(orders_in.map_values(shares_on(side)));
    sums::lemma_total_not_negative(orders_in.map_values(cost_on(side)));
}

proof fn lemma_all_measures(batches: Seq<BatchView<Micros>>, side: Side)
    requires
        forall|i: int| 0 <= i < batches.len() ==> not_negative((#[trigger] batches[i]).orders),
    ensures
        over_all(batches, shares_on(side)) >= 0,
        over_all(batches, cost_on(side)) >= 0,
    decreases batches.len(),
{
    if batches.len() > 0 {
        let rest = batches.drop_last();
        assert forall|i: int| 0 <= i < rest.len() implies not_negative(
            (#[trigger] rest[i]).orders,
        ) by {
            assert(rest[i] == batches[i]);
        }
        lemma_all_measures(rest, side);
        lemma_over_all_step(batches, shares_on(side));
        lemma_over_all_step(batches, cost_on(side));
        assert(not_negative(batches[batches.len() - 1].orders));
        lemma_measures(batches.last().orders, side);
    }
}

proof fn lemma_orders_add_up(
    held: HoldingsView<Micros>,
    position: Position<Micros>,
    orders_in: Seq<OrderView<Micros>>,
)
    requires
        not_negative(orders_in),
        held.up_shares.units >= 0,
        held.down_shares.units >= 0,
        position.up_cost.units >= 0,
        position.down_cost.units >= 0,
        position.up_shares == held.up_shares,
        position.down_shares == held.down_shares,
        held.total_deposit.units == position.up_cost.units + position.down_cost.units,
        held.up_shares.units + sums::total(orders_in.map_values(shares_on(Side::Up))) <= i64::MAX,
        held.down_shares.units + sums::total(orders_in.map_values(shares_on(Side::Down)))
            <= i64::MAX,
        position.up_cost.units + position.down_cost.units + sums::total(
            orders_in.map_values(cost_on(Side::Up)),
        ) + sums::total(orders_in.map_values(cost_on(Side::Down))) <= i64::MAX,
    ensures
        ({
            let after = held.with_all(orders_in);
            let bought = simulating::with_orders(position, orders_in);
            let up = sums::total(orders_in.map_values(shares_on(Side::Up)));
            let down = sums::total(orders_in.map_values(shares_on(Side::Down)));
            let up_cost = sums::total(orders_in.map_values(cost_on(Side::Up)));
            let down_cost = sums::total(orders_in.map_values(cost_on(Side::Down)));
            &&& after.up_shares.units == held.up_shares.units + up
            &&& after.down_shares.units == held.down_shares.units + down
            &&& after.total_deposit.units == held.total_deposit.units + up_cost + down_cost
            &&& after.unmatched == held.unmatched + sums::total(
                orders_in.map_values(unmatched_one()),
            )
            &&& bought.up_shares == after.up_shares
            &&& bought.down_shares == after.down_shares
            &&& bought.up_cost.units == position.up_cost.units + up_cost
            &&& bought.down_cost.units == position.down_cost.units + down_cost
        }),
    decreases orders_in.len(),
{
    if orders_in.len() > 0 {
        let rest = orders_in.drop_last();
        let last = seq![orders_in.last()];
        assert forall|j: int| 0 <= j < rest.len() implies (#[trigger] rest[j]).price.units >= 0
            && rest[j].size.units >= 0 by {
            assert(rest[j] == orders_in[j]);
        }
        assert(orders_in[orders_in.len() - 1].size.units >= 0);
        sums::lemma_total_step(orders_in, shares_on(Side::Up));
        sums::lemma_total_step(orders_in, shares_on(Side::Down));
        sums::lemma_total_step(orders_in, cost_on(Side::Up));
        sums::lemma_total_step(orders_in, cost_on(Side::Down));
        sums::lemma_total_step(orders_in, unmatched_one());
        lemma_measures(rest, Side::Up);
        lemma_measures(rest, Side::Down);
        let (p, z) = (
            orders_in.last().price.units as int,
            orders_in.last().size.units as int,
        );
        assert(p * z >= 0) by (nonlinear_arith)
            requires
                p >= 0,
                z >= 0,
        ;
        lemma_orders_add_up(held, position, rest);
    }
}

/// With exact amounts in range, what is held is counted order by order: on each side the sizes
/// of its matched orders; as the deposit, price times size of the matched orders of both
/// sides; and as unmatched, the orders that are not matched. The position that the same orders
/// make has the same shares, and on each side what its matched orders cost.
pub proof fn holdings_add_up(batches: Seq<BatchView<Micros>>)
    requires
        sums_in_range(batches),
    ensures
        ({
            let held = orders::holdings_of(batches);
            let position = simulating::matched_position(batches);
            let up = over_all(batches, shares_on(Side::Up));
            let down = over_all(batches, shares_on(Side::Down));
            let up_cost = over_all(batches, cost_on(Side::Up));
            let down_cost = over_all(batches, cost_on(Side::Down));
            &&& held.up_shares.units == up
            &&& held.down_shares.units == down
            &&& held.total_deposit.units == up_cost + down_cost
            &&& held.unmatched == over_all(batches, unmatched_one())
            &&& position.up_shares.units == up
            &&& position.down_shares.units == down
            &&& position.up_cost.units == up_cost
            &&& position.down_cost.units == down_cost
        }),
    decreases batches.len(),
{
    reveal_with_fuel(crate::amount::pow10, 1);
    if batches.len() > 0 {
        let rest = batches.drop_last();
        let last = batches.last().orders;
        assert(not_negative(batches[batches.len() - 1].orders));
        assert forall|i: int| 0 <= i < rest.len() implies not_negative(
            (#[trigger] rest[i]).orders,
        ) by {
            assert(rest[i] == batches[i]);
        }
        lemma_over_all_step(batches, shares_on(Side::Up));
        lemma_over_all_step(batches, shares_on(Side::Down));
        lemma_over_all_step(batches, cost_on(Side::Up));
        lemma_over_all_step(batches, cost_on(Side::Down));
        lemma_over_all_step(batches, unmatched_one());
        lemma_measures(last, Side::Up);
        lemma_measures(last, Side::Down);
        lemma_all_measures(rest, Side::Up);
        lemma_all_measures(rest, Side::Down);
        holdings_add_up(rest);
        lemma_orders_add_up(
            orders::holdings_of(rest),
            simulating::matched_position(rest),
            last,
        );
    }
}

// Open orders.

proof fn lemma_filter_count<T>(items: Seq<T>, wanted: spec_fn(T) -> bool, measure: spec_fn(T) -> int)
    requires
        forall|item: T| #[trigger] measure(item) == if wanted(item) {
            1int
        } else {
            0int
        },
    ensures
        items.filter(wanted).len() == sums::total(items.map_values(measure)),
    decreases items.len(),
{
    reveal(Seq::filter);
    if items.len() > 0 {
        lemma_filter_count(items.drop_last(), wanted, measure);
        sums::lemma_total_step(items, measure);
        assert(measure(items.last()) == if wanted(items.last()) {
            1int
        } else {
            0int
        });
    }
}

/// The open orders of a side are counted order by order, over all batches; and there are as
/// many names to cancel as there are open orders of the side that have one.
pub proof fn open_orders_are_counted<A>(batches: Seq<BatchView<A>>, side: Side)
    ensures
        orders::open_count(batches, side) == over_all(batches, open_one(side)),
        orders::open_ids(batches, side).len() == over_all(batches, named_open_one(side)),
    decreases batches.len(),
{
    if batches.len() > 0 {
        let last = batches.last().orders;
        open_orders_are_counted(batches.drop_last(), side);
        lemma_over_all_step(batches, open_one(side));
        lemma_over_all_step(batches, named_open_one(side));
        lemma_filter_count(
            last,
            |order: OrderView<A>| orders::is_open(order, side),
            open_one(side),
        );
        lemma_filter_count(
            last,
            |order: OrderView<A>| orders::is_open(order, side) && order.order_id is Some,
            named_open_one(side),
        );
    }
}

/// Some order of `batches` is unmatched, of `side`, and called `id` by the exchange.
pub open spec fn is_named_open<A>(batches: Seq<BatchView<A>>, side: Side, id: Seq<char>) -> bool {
    exists|i: int, j: int|
        0 <= i < batches.len() && 0 <= j < batches[i].orders.len() && (
        #[trigger] batches[i].orders[j]).order_id == Some(id) && !batches[i].orders[j].matched
            && batches[i].orders[j].side == side
}

proof fn lemma_ids_of_one_batch<A>(orders_in: Seq<OrderView<A>>, side: Side, id: Seq<char>)
    ensures
        orders::open_ids_in(orders_in, side).contains(id) <==> exists|j: int|
            0 <= j < orders_in.len() && (#[trigger] orders_in[j]).order_id == Some(id)
                && !orders_in[j].matched && orders_in[j].side == side,
{
    let wanted = |order: OrderView<A>| orders::is_open(order, side) && order.order_id is Some;
    let found = orders_in.filter(wanted);
    let ids = orders::open_ids_in(orders_in, side);
    broadcast use vstd::seq_lib::group_filter_ensures;

    if ids.contains(id) {
        let k = ids.index_of(id);
        assert(wanted(found[k]));
        orders_in.lemma_filter_contains_rev(wanted, found[k]);
        let j = orders_in.index_of(found[k]);
        assert(orders_in[j].order_id == Some(id));
    }
    if exists|j: int|
        0 <= j < orders_in.len() && (#[trigger] orders_in[j]).order_id == Some(id)
            && !orders_in[j].matched && orders_in[j].side == side {
        let j = choose|j: int|
            0 <= j < orders_in.len() && (#[trigger] orders_in[j]).order_id == Some(id)
                && !orders_in[j].matched && orders_in[j].side == side;
        assert(wanted(orders_in[j]));
        assert(found.contains(orders_in[j]));
        let k = found.index_of(orders_in[j]);
        assert(ids[k] == id);
    }
}

/// The names to cancel are those of the unmatched orders of the side, in whichever batch they
/// stand, and no others.
pub proof fn every_open_order_is_cancelled<A>(
    batches: Seq<BatchView<A>>,
    side: Side,
    id: Seq<char>,
)
    ensures
        orders::open_ids(batches, side).contains(id) <==> is_named_open(batches, side, id),
    decreases batches.len(),
{
    if batches.len() > 0 {
        let rest = batches.drop_last();
        let n = batches.len() - 1;
        let (front, back) = (
            orders::open_ids(rest, side),
            orders::open_ids_in(batches.last().orders, side),
        );
        every_open_order_is_cancelled(rest, side, id);
        lemma_ids_of_one_batch(batches.last().orders, side, id);
        assert(orders::open_ids(batches, side) == front + back);
        if (front + back).contains(id) {
            let k = (front + back).index_of(id);
            if k < front.len() {
                assert(front[k] == id);
                let (i, j) = choose|i: int, j: int|
                    0 <= i < rest.len() && 0 <= j < rest[i].orders.len() && (
                    #[trigger] rest[i].orders[j]).order_id == Some(id) && !rest[i].orders[j].matched
                        && rest[i].orders[j].side == side;
                assert(batches[i].orders[j].order_id == Some(id));
            } else {
                assert(back[k - front.len()] == id);
                let j = choose|j: int|
                    0 <= j < batches.last().orders.len() && (
                    #[trigger] batches.last().orders[j]).order_id == Some(id)
                        && !batches.last().orders[j].matched && batches.last().orders[j].side
                        == side;
                assert(batches[n].orders[j].order_id == Some(id));
            }
        }
        if is_named_open(batches, side, id) {
            let (i, j) = choose|i: int, j: int|
                0 <= i < batches.len() && 0 <= j < batches[i].orders.len() && (
                #[trigger] batches[i].orders[j]).order_id == Some(id)
                    && !batches[i].orders[j].matched && batches[i].orders[j].side == side;
            if i < n {
                assert(rest[i].orders[j].order_id == Some(id));
                let k = front.index_of(id);
                assert((front + back)[k] == id);
            } else {
                assert(batches.last().orders[j].order_id == Some(id));
                let k = back.index_of(id);
                assert((front + back)[front.len() + k] == id);
            }
        }
    }
}

/// What holds of two lists of batches together comes from each of them, one behind the other:
/// the names to cancel, the prices shown as bought, the names of expired orders, and the
/// orders that stay when others are dropped.
pub proof fn lists_of_batches_add_up<A>(
    first: Seq<BatchView<A>>,
    second: Seq<BatchView<A>>,
    side: Side,
    now: u64,
    limit: u64,
)
    ensures
        orders::open_ids(first + second, side) == orders::open_ids(first, side) + orders::open_ids(
            second,
            side,
        ),
        orders::open_count(first + second, side) == orders::open_count(first, side)
            + orders::open_count(second, side),
        orders::bought_prices(first + second, side) == orders::bought_prices(first, side)
            + orders::bought_prices(second, side),
        orders::expired_ids(first + second, now, limit) == orders::expired_ids(first, now, limit)
            + orders::expired_ids(second, now, limit),
        orders::kept(first + second, side) == orders::kept(first, side) + orders::kept(
            second,
            side,
        ),
        orders::unexpired(first + second, now, limit) == orders::unexpired(first, now, limit)
            + orders::unexpired(second, now, limit),
    decreases second.len(),
{
    let nonempty = |batch: BatchView<A>| batch.orders.len() > 0;
    let keep = |batch: BatchView<A>| orders::kept_batch(batch, side);
    let fresh = |batch: BatchView<A>| orders::unexpired_batch(batch, now, limit);
    assert((first + second).map_values(keep) =~= first.map_values(keep) + second.map_values(keep));
    assert((first + second).map_values(fresh) =~= first.map_values(fresh) + second.map_values(
        fresh,
    ));
    Seq::filter_distributes_over_add(first.map_values(keep), second.map_values(keep), nonempty);
    Seq::filter_distributes_over_add(first.map_values(fresh), second.map_values(fresh), nonempty);
    if second.len() == 0 {
        assert(first + second =~= first);
        assert(orders::open_ids(first, side) + orders::open_ids(second, side) =~= orders::open_ids(
            first,
            side,
        ));
        assert(orders::bought_prices(first, side) + orders::bought_prices(second, side)
            =~= orders::bought_prices(first, side));
        assert(orders::expired_ids(first, now, limit) + orders::expired_ids(second, now, limit)
            =~= orders::expired_ids(first, now, limit));
    } else {
        let rest = second.drop_last();
        assert((first + second).drop_last() =~= first + rest);
        lists_of_batches_add_up(first, rest, side, now, limit);
        assert(orders::open_ids(first + second, side) =~= orders::open_ids(first, side)
            + orders::open_ids(second, side));
        assert(orders::bought_prices(first + second, side) =~= orders::bought_prices(first, side)
            + orders::bought_prices(second, side));
        assert(orders::expired_ids(first + second, now, limit) =~= orders::expired_ids(
            first,
            now,
            limit,
        ) + orders::expired_ids(second, now, limit));
    }
}

/// Some order of `batches` is unmatched, called `id` by the exchange, and was placed `limit`
/// seconds ago or longer, where there is a limit.
pub open spec fn is_overdue<A>(
    batches: Seq<BatchView<A>>,
    now: u64,
    limit: u64,
    id: Seq<char>,
) -> bool {
    limit != 0 && exists|i: int, j: int|
        0 <= i < batches.len() && 0 <= j < batches[i].orders.len() && (
        #[trigger] batches[i].orders[j]).order_id == Some(id) && !batches[i].orders[j].matched
            && now - batches[i].placed_at >= limit
}

/// The names of expired orders are those of the unmatched orders that have waited too long, in
/// whichever batch and on whichever side they stand, and no others.
pub proof fn every_overdue_order_expires<A>(
    batches: Seq<BatchView<A>>,
    now: u64,
    limit: u64,
    id: Seq<char>,
)
    ensures
        orders::expired_ids(batches, now, limit).contains(id) <==> is_overdue(
            batches,
            now,
            limit,
            id,
        ),
    decreases batches.len(),
{
    if batches.len() > 0 {
        let rest = batches.drop_last();
        let n = batches.len() - 1;
        let last = batches.last().orders;
        let front = orders::expired_ids(rest, now, limit);
        let back = orders::expired_ids_in(batches.last(), now, limit);
        let (up, down) = (
            orders::open_ids_in(last, Side::Up),
            orders::open_ids_in(last, Side::Down),
        );
        every_overdue_order_expires(rest, now, limit, id);
        lemma_ids_of_one_batch(last, Side::Up, id);
        lemma_ids_of_one_batch(last, Side::Down, id);
        lemma_contains_of_both(front, back, id);
        lemma_contains_of_both(up, down, id);
        if front.contains(id) {
            let (i, j) = choose|i: int, j: int|
                0 <= i < rest.len() && 0 <= j < rest[i].orders.len() && (
                #[trigger] rest[i].orders[j]).order_id == Some(id) && !rest[i].orders[j].matched
                    && now - rest[i].placed_at >= limit;
            assert(batches[i].orders[j].order_id == Some(id));
        }
        if back.contains(id) {
            let j = choose|j: int|
                0 <= j < last.len() && (#[trigger] last[j]).order_id == Some(id)
                    && !last[j].matched;
            assert(batches[n].orders[j].order_id == Some(id));
        }
        if is_overdue(batches, now, limit, id) {
            let (i, j) = choose|i: int, j: int|
                0 <= i < batches.len() && 0 <= j < batches[i].orders.len() && (
                #[trigger] batches[i].orders[j]).order_id == Some(id)
                    && !batches[i].orders[j].matched && now - batches[i].placed_at >= limit;
            if i < n {
                assert(rest[i].orders[j].order_id == Some(id));
            } else {
                assert(last[j].order_id == Some(id));
                assert(last[j].side == Side::Up || last[j].side == Side::Down);
            }
        }
    }
}

proof fn lemma_contains_of_both<T>(front: Seq<T>, back: Seq<T>, item: T)
    ensures
        (front + back).contains(item) <==> front.contains(item) || back.contains(item),
{
    let both = front + back;
    if both.contains(item) {
        let k = both.index_of(item);
        if k < front.len() {
            assert(front[k] == item);
        } else {
            assert(back[k - front.len()] == item);
        }
    }
    if front.contains(item) {
        assert(both[front.index_of(item)] == item);
    }
    if back.contains(item) {
        assert(both[front.len() + back.index_of(item)] == item);
    }
}

proof fn lemma_first_filtered<T>(items: Seq<T>, wanted: spec_fn(T) -> bool, j: int)
    requires
        0 <= j < items.len(),
        wanted(items[j]),
        forall|k: int| 0 <= k < j ==> !wanted(#[trigger] items[k]),
    ensures
        items.filter(wanted).len() > 0,
        items.filter(wanted).first() == items[j],
    decreases items.len(),
{
    reveal(Seq::filter);
    let rest = items.drop_last();
    if j < rest.len() {
        assert(rest[j] == items[j]);
        assert forall|k: int| 0 <= k < j implies !wanted(#[trigger] rest[k]) by {
            assert(rest[k] == items[k]);
        }
        lemma_first_filtered(rest, wanted, j);
    } else {
        if rest.filter(wanted).len() > 0 {
            broadcast use vstd::seq_lib::group_filter_ensures;

            rest.lemma_filter_contains_rev(wanted, rest.filter(wanted)[0]);
            let k = rest.index_of(rest.filter(wanted)[0]);
            assert(wanted(rest.filter(wanted)[0]));
            assert(!wanted(items[k]));
        }
    }
}

proof fn lemma_none_filtered<T>(items: Seq<T>, wanted: spec_fn(T) -> bool)
    requires
        forall|k: int| 0 <= k < items.len() ==> !wanted(#[trigger] items[k]),
    ensures
        items.filter(wanted).len() == 0,
{
    if items.filter(wanted).len() > 0 {
        broadcast use vstd::seq_lib::group_filter_ensures;

        items.lemma_filter_contains_rev(wanted, items.filter(wanted)[0]);
        let k = items.index_of(items.filter(wanted)[0]);
        assert(wanted(items.filter(wanted)[0]));
        assert(!wanted(items[k]));
    }
}

/// A batch shows the price of its earliest matched order of a side, and nothing where no order
/// of the side is matched.
pub proof fn a_batch_shows_its_first_price<A>(batch: BatchView<A>, side: Side, j: int)
    ensures
        0 <= j < batch.orders.len() && batch.orders[j].matched && batch.orders[j].side == side && (
        forall|k: int|
            0 <= k < j ==> !((#[trigger] batch.orders[k]).matched && batch.orders[k].side == side))
            ==> orders::bought_prices(seq![batch], side) == seq![batch.orders[j].price],
        (forall|k: int|
            0 <= k < batch.orders.len() ==> !((#[trigger] batch.orders[k]).matched
                && batch.orders[k].side == side)) ==> orders::bought_prices(seq![batch], side)
            == Seq::<A>::empty(),
{
    let wanted = |order: OrderView<A>| order.matched && order.side == side;
    assert(seq![batch].drop_last() =~= Seq::<BatchView<A>>::empty());
    assert(orders::bought_prices(Seq::<BatchView<A>>::empty(), side) =~= Seq::<A>::empty());
    assert(orders::bought_prices(seq![batch], side) =~= orders::first_matched_price(
        batch.orders,
        side,
    ));
    if 0 <= j < batch.orders.len() && batch.orders[j].matched && batch.orders[j].side == side && (
    forall|k: int|
        0 <= k < j ==> !((#[trigger] batch.orders[k]).matched && batch.orders[k].side == side)) {
        lemma_first_filtered(batch.orders, wanted, j);
    }
    if forall|k: int|
        0 <= k < batch.orders.len() ==> !((#[trigger] batch.orders[k]).matched
            && batch.orders[k].side == side) {
        lemma_none_filtered(batch.orders, wanted);
    }
}

/// `rest` holds just those orders of `all` that are `staying`, in the same order.
pub open spec fn just_those<T>(rest: Seq<T>, all: Seq<T>, staying: spec_fn(T) -> bool) -> bool {
    exists|places: Seq<int>| chosen_places(rest, all, staying, places)
}

/// `places` are the places in `all`, in rising order, of what is `staying`, and `rest` holds
/// what stands there.
pub open spec fn chosen_places<T>(
    rest: Seq<T>,
    all: Seq<T>,
    staying: spec_fn(T) -> bool,
    places: Seq<int>,
) -> bool {
    &&& places.len() == rest.len()
    &&& forall|k: int|
        0 <= k < places.len() ==> 0 <= #[trigger] places[k] < all.len() && rest[k]
            == all[places[k]] && staying(all[places[k]])
    &&& forall|k: int, m: int| 0 <= k < m < places.len() ==> places[k] < places[m]
    &&& forall|j: int| 0 <= j < all.len() && staying(#[trigger] all[j]) ==> places.contains(j)
}

proof fn lemma_filter_chooses<T>(all: Seq<T>, staying: spec_fn(T) -> bool) -> (places: Seq<int>)
    ensures
        chosen_places(all.filter(staying), all, staying, places),
    decreases all.len(),
{
    reveal(Seq::filter);
    if all.len() == 0 {
        Seq::empty()
    } else {
        let rest = all.drop_last();
        let before = lemma_filter_chooses(rest, staying);
        let n = all.len() - 1;
        if staying(all.last()) {
            let places = before.push(n);
            assert forall|j: int| 0 <= j < all.len() && staying(
                #[trigger] all[j],
            ) implies places.contains(j) by {
                if j < n {
                    assert(staying(rest[j]));
                    let k = before.index_of(j);
                    assert(places[k] == j);
                } else {
                    assert(places[before.len() as int] == j);
                }
            }
            assert forall|k: int| 0 <= k < places.len() implies 0 <= #[trigger] places[k]
                < all.len() && all.filter(staying)[k] == all[places[k]] && staying(
                all[places[k]],
            ) by {
                if k < before.len() {
                    assert(0 <= before[k] < rest.len());
                }
            }
            assert forall|k: int, m: int| 0 <= k < m < places.len() implies places[k]
                < places[m] by {
                assert(0 <= before[k] < rest.len());
                if m < before.len() {
                    assert(before[k] < before[m]);
                }
            }
            places
        } else {
            assert forall|j: int| 0 <= j < all.len() && staying(
                #[trigger] all[j],
            ) implies before.contains(j) by {
                assert(staying(rest[j]));
            }
            assert forall|k: int| 0 <= k < before.len() implies 0 <= #[trigger] before[k]
                < all.len() && all.filter(staying)[k] == all[before[k]] && staying(
                all[before[k]],
            ) by {
                assert(0 <= before[k] < rest.len());
            }
            before
        }
    }
}

/// Of one batch, cancelling a side keeps the orders that are matched or of the other side,
/// where and as they were, and when it was placed; with none of them left the batch is gone.
pub proof fn cancelling_keeps_the_rest_of_a_batch<A>(batch: BatchView<A>, side: Side)
    ensures
        ({
            let left = orders::kept(seq![batch], side);
            let staying = |order: OrderView<A>| order.matched || order.side != side;
            &&& left.len() == 1 ==> left[0].placed_at == batch.placed_at && left[0].orders.len()
                > 0 && just_those(left[0].orders, batch.orders, staying)
            &&& left.len() != 1 ==> left.len() == 0 && just_those(
                Seq::<OrderView<A>>::empty(),
                batch.orders,
                staying,
            )
        }),
{
    reveal(Seq::filter);
    let staying = |order: OrderView<A>| order.matched || order.side != side;
    let keep = |order: OrderView<A>| !orders::is_open(order, side);
    let map = |batch: BatchView<A>| orders::kept_batch(batch, side);
    let nonempty = |batch: BatchView<A>| batch.orders.len() > 0;
    assert(seq![batch].map_values(map) =~= seq![orders::kept_batch(batch, side)]);
    let one = seq![orders::kept_batch(batch, side)];
    assert(one.drop_last() =~= Seq::<BatchView<A>>::empty());
    assert(one.drop_last().filter(nonempty) =~= Seq::<BatchView<A>>::empty());
    let rest = batch.orders.filter(keep);
    let places = lemma_filter_chooses(batch.orders, keep);
    assert forall|k: int| 0 <= k < places.len() implies 0 <= #[trigger] places[k]
        < batch.orders.len() && rest[k] == batch.orders[places[k]] && staying(
        batch.orders[places[k]],
    ) by {
        assert(keep(batch.orders[places[k]]));
    }
    assert forall|j: int| 0 <= j < batch.orders.len() && staying(
        #[trigger] batch.orders[j],
    ) implies places.contains(j) by {
        assert(keep(batch.orders[j]));
    }
    assert(chosen_places(rest, batch.orders, staying, places));
    if rest.len() == 0 {
        assert(rest =~= Seq::<OrderView<A>>::empty());
    }
}

/// Of one batch that has waited long enough, expiry keeps the matched orders, as they were and
/// in the same order; a batch that has not, or where there is no limit, stays as it is.
pub proof fn expiry_keeps_the_rest_of_a_batch<A>(batch: BatchView<A>, now: u64, limit: u64)
    requires
        batch.orders.len() > 0,
    ensures
        ({
            let left = orders::unexpired(seq![batch], now, limit);
            let staying = |order: OrderView<A>| order.matched;
            if limit != 0 && now - batch.placed_at >= limit {
                &&& left.len() == 1 ==> left[0].placed_at == batch.placed_at
                    && left[0].orders.len() > 0 && just_those(
                    left[0].orders,
                    batch.orders,
                    staying,
                )
                &&& left.len() != 1 ==> left.len() == 0 && just_those(
                    Seq::<OrderView<A>>::empty(),
                    batch.orders,
                    staying,
                )
            } else {
                left == seq![batch]
            }
        }),
{
    reveal(Seq::filter);
    let staying = |order: OrderView<A>| order.matched;
    let map = |batch: BatchView<A>| orders::unexpired_batch(batch, now, limit);
    let nonempty = |batch: BatchView<A>| batch.orders.len() > 0;
    let after = orders::unexpired_batch(batch, now, limit);
    let one = seq![after];
    assert(seq![batch].map_values(map) =~= one);
    assert(one.drop_last() =~= Seq::<BatchView<A>>::empty());
    assert(one.drop_last().filter(nonempty) =~= Seq::<BatchView<A>>::empty());
    if limit != 0 && now - batch.placed_at >= limit {
        let up = |order: OrderView<A>| !orders::is_open(order, Side::Up);
        let down = |order: OrderView<A>| !orders::is_open(order, Side::Down);
        let once = batch.orders.filter(up);
        let rest = once.filter(down);
        let outer = lemma_filter_chooses(batch.orders, up);
        let inner = lemma_filter_chooses(once, down);
        let places = Seq::new(inner.len(), |k: int| outer[inner[k]]);
        assert forall|k: int| 0 <= k < places.len() implies 0 <= #[trigger] places[k]
            < batch.orders.len() && rest[k] == batch.orders[places[k]] && staying(
            batch.orders[places[k]],
        ) by {
            assert(0 <= inner[k] < once.len());
            assert(0 <= outer[inner[k]] < batch.orders.len());
            assert(up(batch.orders[places[k]]));
            assert(down(once[inner[k]]));
        }
        assert forall|k: int, m: int| 0 <= k < m < places.len() implies places[k] < places[m] by {
            assert(inner[k] < inner[m]);
            assert(0 <= inner[k] < once.len() && 0 <= inner[m] < once.len());
        }
        assert forall|j: int| 0 <= j < batch.orders.len() && staying(
            #[trigger] batch.orders[j],
        ) implies places.contains(j) by {
            assert(up(batch.orders[j]));
            let k = outer.index_of(j);
            assert(once[k] == batch.orders[j]);
            assert(down(once[k]));
            let m = inner.index_of(k);
            assert(places[m] == j);
        }
        assert(chosen_places(rest, batch.orders, staying, places));
        if rest.len() == 0 {
            assert(rest =~= Seq::<OrderView<A>>::empty());
        }
    }
}

/// A batch that has waited too long gives up each unmatched order that the exchange has a name
/// for, once; another batch gives up none.
pub proof fn overdue_orders_expire_once<A>(batch: BatchView<A>, now: u64, limit: u64)
    ensures
        orders::expired_ids_in(batch, now, limit).len() == if limit != 0 && now - batch.placed_at
            >= limit {
            over_all(seq![batch], named_open_one(Side::Up)) + over_all(
                seq![batch],
                named_open_one(Side::Down),
            )
        } else {
            0
        },
{
    let one = seq![batch];
    let none = Seq::<BatchView<A>>::empty();
    assert(one.drop_last() =~= none);
    assert(orders::open_ids(none, Side::Up) =~= Seq::<Seq<char>>::empty());
    assert(orders::open_ids(none, Side::Down) =~= Seq::<Seq<char>>::empty());
    open_orders_are_counted(one, Side::Up);
    open_orders_are_counted(one, Side::Down);
    assert(orders::open_ids(one, Side::Up) =~= orders::open_ids_in(batch.orders, Side::Up));
    assert(orders::open_ids(one, Side::Down) =~= orders::open_ids_in(batch.orders, Side::Down));
}

/// Orders, batches and holdings are seen as they are: each part of a value is that part of its
/// view.
pub proof fn orders_are_seen_as_they_are<A>(
    order: PendingOrder<A>,
    batch: PendingBatch<A>,
    held: Holdings<A>,
    i: int,
)
    requires
        0 <= i < batch.orders@.len(),
    ensures
        order.deep_view().side == order.side,
        order.deep_view().price == order.price,
        order.deep_view().size == order.size,
        order.deep_view().matched == order.matched,
        order.deep_view().order_id is Some <==> order.order_id is Some,
        order.order_id is Some ==> order.deep_view().order_id->0 == order.order_id->0@,
        batch.deep_view().placed_at == batch.placed_at,
        batch.deep_view().orders.len() == batch.orders@.len(),
        batch.deep_view().orders[i] == batch.orders@[i].deep_view(),
        held.deep_view().up_shares == held.up_shares,
        held.deep_view().down_shares == held.down_shares,
        held.deep_view().unmatched == held.unmatched,
        held.deep_view().total_deposit == held.total_deposit,
{
}

} // verus!
