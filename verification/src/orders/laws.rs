//! What holds of placed orders whatever happens to them.

use crate::amount::Amount;
use crate::orders;
use crate::orders::{BatchView, HoldingsView, OrderView, Side};
use vstd::prelude::*;

verus! {

proof fn lemma_filter_within<T>(s: Seq<T>, wide: spec_fn(T) -> bool, narrow: spec_fn(T) -> bool)
    requires
        forall|x: T| #[trigger] narrow(x) ==> wide(x),
    ensures
        s.filter(wide).filter(narrow) == s.filter(narrow),
    decreases s.len(),
{
    reveal(Seq::filter);
    if s.len() > 0 {
        lemma_filter_within(s.drop_last(), wide, narrow);
        let rest = s.drop_last().filter(wide);
        if wide(s.last()) {
            assert(rest.push(s.last()).drop_last() =~= rest);
        } else {
            assert(!narrow(s.last()));
        }
    }
}

proof fn lemma_filter_outside<T>(s: Seq<T>, one: spec_fn(T) -> bool, other: spec_fn(T) -> bool)
    requires
        forall|x: T| #[trigger] other(x) ==> !one(x),
    ensures
        s.filter(one).filter(other) == Seq::<T>::empty(),
    decreases s.len(),
{
    reveal(Seq::filter);
    if s.len() > 0 {
        lemma_filter_outside(s.drop_last(), one, other);
        let rest = s.drop_last().filter(one);
        if one(s.last()) {
            assert(rest.push(s.last()).drop_last() =~= rest);
            assert(!other(s.last()));
        }
    }
}

/// `after` holds the orders of `before`, each where it was and with nothing about it changed,
/// except that it may have become matched; a matched order has stayed matched.
pub open spec fn only_more_matched<A>(
    before: Seq<BatchView<A>>,
    after: Seq<BatchView<A>>,
) -> bool {
    &&& after.len() == before.len()
    &&& forall|i: int|
        0 <= i < before.len() ==> {
            &&& (#[trigger] after[i]).placed_at == before[i].placed_at
            &&& after[i].orders.len() == before[i].orders.len()
        }
    &&& forall|i: int, j: int|
        0 <= i < before.len() && 0 <= j < before[i].orders.len() ==> {
            let order = #[trigger] after[i].orders[j];
            &&& order == (OrderView { matched: order.matched, ..before[i].orders[j] })
            &&& before[i].orders[j].matched ==> order.matched
        }
}

/// Marking orders, by the asks or by the exchange's fills, changes nothing but that some of
/// them become matched; a matched order stays matched.
pub proof fn marking_only_matches<A: Amount>(
    batches: Seq<BatchView<A>>,
    up_ask: A,
    down_ask: A,
    filled: Set<Seq<char>>,
)
    ensures
        only_more_matched(batches, orders::marked(batches, up_ask, down_ask)),
        only_more_matched(batches, orders::confirmed(batches, filled)),
{
}

/// Marking twice at the same asks is the same as marking once.
pub proof fn marking_again_changes_nothing<A: Amount>(
    batches: Seq<BatchView<A>>,
    up_ask: A,
    down_ask: A,
)
    ensures
        orders::marked(orders::marked(batches, up_ask, down_ask), up_ask, down_ask)
            == orders::marked(batches, up_ask, down_ask),
{
    let once = orders::marked(batches, up_ask, down_ask);
    let twice = orders::marked(once, up_ask, down_ask);
    assert forall|i: int| 0 <= i < batches.len() implies twice[i] == once[i] by {
        assert(twice[i].orders =~= once[i].orders);
    }
    assert(twice =~= once);
}

/// A batch shows at most one price per side.
pub proof fn one_bought_price_per_batch<A>(batches: Seq<BatchView<A>>, side: Side)
    ensures
        orders::bought_prices(batches, side).len() <= batches.len(),
    decreases batches.len(),
{
    if batches.len() > 0 {
        one_bought_price_per_batch(batches.drop_last(), side);
    }
}

/// Every price shown as bought is the price of a matched order of that side.
pub proof fn bought_prices_were_matched<A>(batches: Seq<BatchView<A>>, side: Side, n: int)
    requires
        0 <= n < orders::bought_prices(batches, side).len(),
    ensures
        exists|i: int, j: int|
            0 <= i < batches.len() && 0 <= j < batches[i].orders.len()
                && is_bought(#[trigger] batches[i].orders[j], side)
                && batches[i].orders[j].price == orders::bought_prices(batches, side)[n],
    decreases batches.len(),
{
    let before = orders::bought_prices(batches.drop_last(), side);
    if n < before.len() {
        bought_prices_were_matched(batches.drop_last(), side, n);
        let (i, j) = choose|i: int, j: int|
            0 <= i < batches.drop_last().len() && 0 <= j < batches.drop_last()[i].orders.len()
                && is_bought(#[trigger] batches.drop_last()[i].orders[j], side)
                && batches.drop_last()[i].orders[j].price == before[n];
        assert(is_bought(batches[i].orders[j], side));
    } else {
        let wanted = |order: OrderView<A>| order.matched && order.side == side;
        let last = batches.last().orders;
        last.lemma_filter_contains_rev(wanted, last.filter(wanted).first());
        let j = last.index_of(last.filter(wanted).first());
        broadcast use vstd::seq_lib::group_filter_ensures;

        assert(wanted(last.filter(wanted)[0]));
        assert(is_bought(batches[batches.len() - 1].orders[j], side));
    }
}

/// `order` is a matched order of `side`.
pub open spec fn is_bought<A>(order: OrderView<A>, side: Side) -> bool {
    order.matched && order.side == side
}

// Cancelling.

proof fn lemma_kept_step<A>(batches: Seq<BatchView<A>>, side: Side)
    requires
        batches.len() > 0,
    ensures
        orders::kept(batches, side) == if orders::kept_batch(batches.last(), side).orders.len()
            > 0 {
            orders::kept(batches.drop_last(), side).push(
                orders::kept_batch(batches.last(), side),
            )
        } else {
            orders::kept(batches.drop_last(), side)
        },
{
    reveal(Seq::filter);
    let keep = |batch: BatchView<A>| orders::kept_batch(batch, side);
    assert(batches.map_values(keep).drop_last() =~= batches.drop_last().map_values(keep));
}

/// Where nothing was placed, cancelling leaves nothing.
pub proof fn cancelling_nothing<A>(side: Side)
    ensures
        orders::kept(Seq::<BatchView<A>>::empty(), side) == Seq::<BatchView<A>>::empty(),
{
    reveal(Seq::filter);
    let keep = |batch: BatchView<A>| orders::kept_batch(batch, side);
    assert(Seq::<BatchView<A>>::empty().map_values(keep) =~= Seq::<BatchView<A>>::empty());
}

proof fn lemma_kept_orders<A>(orders_in: Seq<OrderView<A>>, side: Side, other: Side)
    ensures
        ({
            let rest = orders::kept_orders(orders_in, side);
            let open = |order: OrderView<A>| orders::is_open(order, other);
            &&& orders::first_matched_price(rest, other) == orders::first_matched_price(
                orders_in,
                other,
            )
            &&& other != side ==> rest.filter(open) == orders_in.filter(open)
            &&& other != side ==> orders::open_ids_in(rest, other) == orders::open_ids_in(
                orders_in,
                other,
            )
            &&& other == side ==> rest.filter(open).len() == 0
            &&& other == side ==> orders::open_ids_in(rest, other) == Seq::<Seq<char>>::empty()
        }),
{
    let keep = |order: OrderView<A>| !orders::is_open(order, side);
    let bought = |order: OrderView<A>| order.matched && order.side == other;
    let open = |order: OrderView<A>| orders::is_open(order, other);
    let named = |order: OrderView<A>| orders::is_open(order, other) && order.order_id is Some;
    lemma_filter_within(orders_in, keep, bought);
    if other == side {
        lemma_filter_outside(orders_in, keep, open);
        lemma_filter_outside(orders_in, keep, named);
        assert(orders::open_ids_in(orders::kept_orders(orders_in, side), other) =~= Seq::<
            Seq<char>,
        >::empty());
    } else {
        lemma_filter_within(orders_in, keep, open);
        lemma_filter_within(orders_in, keep, named);
    }
}

proof fn lemma_no_orders<A>(orders_in: Seq<OrderView<A>>, side: Side)
    requires
        orders_in.len() == 0,
    ensures
        orders_in.filter(|order: OrderView<A>| orders::is_open(order, side)).len() == 0,
        orders::open_ids_in(orders_in, side) == Seq::<Seq<char>>::empty(),
        orders::first_matched_price(orders_in, side) == Seq::<A>::empty(),
{
    reveal(Seq::filter);
    assert(orders::open_ids_in(orders_in, side) =~= Seq::<Seq<char>>::empty());
}

/// Once the open orders of a side are cancelled, the side has none left.
pub proof fn cancelling_leaves_none_open<A>(batches: Seq<BatchView<A>>, side: Side)
    ensures
        orders::open_count(orders::kept(batches, side), side) == 0,
        orders::open_ids(orders::kept(batches, side), side) == Seq::<Seq<char>>::empty(),
    decreases batches.len(),
{
    if batches.len() == 0 {
        assert(batches =~= Seq::<BatchView<A>>::empty());
        cancelling_nothing::<A>(side);
    } else {
        let before = batches.drop_last();
        let last = orders::kept_batch(batches.last(), side);
        cancelling_leaves_none_open(before, side);
        lemma_kept_step(batches, side);
        lemma_kept_orders(batches.last().orders, side, side);
        assert(orders::kept(before, side).push(last).drop_last() =~= orders::kept(before, side));
        assert(orders::open_ids(orders::kept(batches, side), side) =~= Seq::<Seq<char>>::empty());
    }
}

/// Cancelling the orders of one side leaves the open orders of the other side alone.
pub proof fn cancelling_keeps_the_other_side<A>(
    batches: Seq<BatchView<A>>,
    side: Side,
    other: Side,
)
    requires
        other != side,
    ensures
        orders::open_count(orders::kept(batches, side), other) == orders::open_count(
            batches,
            other,
        ),
        orders::open_ids(orders::kept(batches, side), other) == orders::open_ids(batches, other),
    decreases batches.len(),
{
    if batches.len() == 0 {
        assert(batches =~= Seq::<BatchView<A>>::empty());
        cancelling_nothing::<A>(side);
    } else {
        let before = batches.drop_last();
        let last = orders::kept_batch(batches.last(), side);
        cancelling_keeps_the_other_side(before, side, other);
        lemma_kept_step(batches, side);
        lemma_kept_orders(batches.last().orders, side, other);
        assert(orders::kept(before, side).push(last).drop_last() =~= orders::kept(before, side));
        if last.orders.len() == 0 {
            lemma_no_orders(last.orders, other);
            assert(orders::open_ids(batches, other) =~= orders::open_ids(before, other));
        }
    }
}

/// Cancelling takes no bought price off the display.
pub proof fn cancelling_keeps_bought_prices<A>(
    batches: Seq<BatchView<A>>,
    side: Side,
    shown: Side,
)
    ensures
        orders::bought_prices(orders::kept(batches, side), shown) == orders::bought_prices(
            batches,
            shown,
        ),
    decreases batches.len(),
{
    if batches.len() == 0 {
        assert(batches =~= Seq::<BatchView<A>>::empty());
        cancelling_nothing::<A>(side);
    } else {
        let before = batches.drop_last();
        let last = orders::kept_batch(batches.last(), side);
        cancelling_keeps_bought_prices(before, side, shown);
        lemma_kept_step(batches, side);
        lemma_kept_orders(batches.last().orders, side, shown);
        assert(orders::kept(before, side).push(last).drop_last() =~= orders::kept(before, side));
        if last.orders.len() == 0 {
            lemma_no_orders(last.orders, shown);
            assert(orders::bought_prices(batches, shown) =~= orders::bought_prices(before, shown));
        }
    }
}

/// Cancelling twice is the same as cancelling once.
pub proof fn cancelling_again_changes_nothing<A>(batches: Seq<BatchView<A>>, side: Side)
    ensures
        orders::kept(orders::kept(batches, side), side) == orders::kept(batches, side),
    decreases batches.len(),
{
    if batches.len() == 0 {
        assert(batches =~= Seq::<BatchView<A>>::empty());
        cancelling_nothing::<A>(side);
    } else {
        let before = batches.drop_last();
        let last = orders::kept_batch(batches.last(), side);
        let keep = |order: OrderView<A>| !orders::is_open(order, side);
        cancelling_again_changes_nothing(before, side);
        lemma_kept_step(batches, side);
        lemma_filter_within(batches.last().orders, keep, keep);
        assert(orders::kept_batch(last, side) == last);
        if last.orders.len() > 0 {
            let once = orders::kept(before, side).push(last);
            assert(once.drop_last() =~= orders::kept(before, side));
            lemma_kept_step(once, side);
        }
    }
}

/// `less` is `more`, but for `count` unmatched orders.
pub open spec fn fewer_unmatched<A: Amount>(
    less: HoldingsView<A>,
    more: HoldingsView<A>,
    count: nat,
) -> bool {
    &&& less.up_shares == more.up_shares
    &&& less.down_shares == more.down_shares
    &&& less.total_deposit == more.total_deposit
    &&& less.unmatched + count == more.unmatched
}

proof fn lemma_kept_holdings<A: Amount>(
    less: HoldingsView<A>,
    more: HoldingsView<A>,
    count: nat,
    orders_in: Seq<OrderView<A>>,
    side: Side,
)
    requires
        fewer_unmatched(less, more, count),
    ensures
        fewer_unmatched(
            less.with_all(orders::kept_orders(orders_in, side)),
            more.with_all(orders_in),
            count + orders_in.filter(|order: OrderView<A>| orders::is_open(order, side)).len(),
        ),
    decreases orders_in.len(),
{
    reveal(Seq::filter);
    if orders_in.len() > 0 {
        let before = orders_in.drop_last();
        let rest = orders::kept_orders(before, side);
        lemma_kept_holdings(less, more, count, before, side);
        assert(rest.push(orders_in.last()).drop_last() =~= rest);
    }
}

/// Cancelling the orders of a side takes just its open orders out of the unmatched ones:
/// shares and deposit stay as they are.
pub proof fn cancelling_keeps_holdings<A: Amount>(batches: Seq<BatchView<A>>, side: Side)
    ensures
        fewer_unmatched(
            orders::holdings_of(orders::kept(batches, side)),
            orders::holdings_of(batches),
            orders::open_count(batches, side),
        ),
    decreases batches.len(),
{
    if batches.len() == 0 {
        assert(batches =~= Seq::<BatchView<A>>::empty());
        cancelling_nothing::<A>(side);
    } else {
        let before = batches.drop_last();
        let last = orders::kept_batch(batches.last(), side);
        cancelling_keeps_holdings(before, side);
        lemma_kept_step(batches, side);
        lemma_kept_holdings(
            orders::holdings_of(orders::kept(before, side)),
            orders::holdings_of(before),
            orders::open_count(before, side),
            batches.last().orders,
            side,
        );
        assert(orders::kept(before, side).push(last).drop_last() =~= orders::kept(before, side));
    }
}

// Placing.

/// Every order of `batch` is an open order of `side`.
pub open spec fn all_open<A>(batch: BatchView<A>, side: Side) -> bool {
    forall|j: int|
        0 <= j < batch.orders.len() ==> orders::is_open(#[trigger] batch.orders[j], side)
}

proof fn lemma_open_holdings<A: Amount>(
    held: HoldingsView<A>,
    orders_in: Seq<OrderView<A>>,
    side: Side,
)
    requires
        forall|j: int|
            0 <= j < orders_in.len() ==> orders::is_open(#[trigger] orders_in[j], side),
    ensures
        fewer_unmatched(held, held.with_all(orders_in), orders_in.len()),
    decreases orders_in.len(),
{
    if orders_in.len() > 0 {
        assert forall|j: int| 0 <= j < orders_in.drop_last().len() implies orders::is_open(
            #[trigger] orders_in.drop_last()[j],
            side,
        ) by {
            assert(orders_in.drop_last()[j] == orders_in[j]);
        }
        lemma_open_holdings(held, orders_in.drop_last(), side);
        assert(orders::is_open(orders_in[orders_in.len() - 1], side));
    }
}

/// Placing a batch of open orders adds them to the unmatched ones and changes no shares and
/// no deposit.
pub proof fn placing_adds_unmatched<A: Amount>(
    batches: Seq<BatchView<A>>,
    batch: BatchView<A>,
    side: Side,
)
    requires
        all_open(batch, side),
    ensures
        fewer_unmatched(
            orders::holdings_of(batches),
            orders::holdings_of(batches.push(batch)),
            batch.orders.len(),
        ),
{
    assert(batches.push(batch).drop_last() =~= batches);
    lemma_open_holdings(orders::holdings_of(batches), batch.orders, side);
}

/// Cancelling takes back what was just placed.
pub proof fn cancelling_undoes_placing<A>(
    batches: Seq<BatchView<A>>,
    batch: BatchView<A>,
    side: Side,
)
    requires
        all_open(batch, side),
    ensures
        orders::kept(batches.push(batch), side) == orders::kept(batches, side),
{
    assert(batches.push(batch).drop_last() =~= batches);
    lemma_kept_step(batches.push(batch), side);
    let keep = |order: OrderView<A>| !orders::is_open(order, side);
    let rest = batch.orders.filter(keep);
    if rest.len() > 0 {
        broadcast use vstd::seq_lib::group_filter_ensures;

        assert(keep(rest[0]));
        batch.orders.lemma_filter_contains_rev(keep, rest[0]);
        let j = batch.orders.index_of(rest[0]);
        assert(orders::is_open(batch.orders[j], side));
    }
}

// Waiting too long.

/// With a limit of zero no order ever expires.
pub proof fn no_limit_keeps_all<A>(batches: Seq<BatchView<A>>, now: u64)
    ensures
        orders::expired_ids(batches, now, 0) == Seq::<Seq<char>>::empty(),
        orders::unexpired(batches, now, 0) == batches.filter(
            |batch: BatchView<A>| batch.orders.len() > 0,
        ),
    decreases batches.len(),
{
    if batches.len() > 0 {
        no_limit_keeps_all(batches.drop_last(), now);
        assert(orders::expired_ids(batches, now, 0) =~= Seq::<Seq<char>>::empty());
    }
    assert(batches.map_values(|batch: BatchView<A>| orders::unexpired_batch(batch, now, 0))
        =~= batches);
}

/// Dropping a batch that has expired leaves none of its orders open.
pub proof fn expired_batch_has_none_open<A>(
    batch: BatchView<A>,
    now: u64,
    limit: u64,
    side: Side,
)
    requires
        orders::is_expired(batch.placed_at, now, limit),
    ensures
        orders::unexpired_batch(batch, now, limit).orders.filter(
            |order: OrderView<A>| orders::is_open(order, side),
        ).len() == 0,
{
    let once = orders::kept_batch(batch, Side::Up);
    lemma_kept_orders(batch.orders, Side::Up, side);
    lemma_kept_orders(once.orders, Side::Down, side);
}

// Prices.

/// The price of every order in `batches` is one of `prices`.
pub open spec fn all_priced<A>(batches: Seq<BatchView<A>>, prices: spec_fn(A) -> bool) -> bool {
    forall|i: int, j: int|
        0 <= i < batches.len() && 0 <= j < batches[i].orders.len() ==> prices(
            (#[trigger] batches[i].orders[j]).price,
        )
}

proof fn lemma_filtered_from<T>(s: Seq<T>, wanted: spec_fn(T) -> bool, i: int) -> (from: int)
    requires
        0 <= i < s.filter(wanted).len(),
    ensures
        0 <= from < s.len(),
        s[from] == s.filter(wanted)[i],
{
    s.lemma_filter_contains_rev(wanted, s.filter(wanted)[i]);
    s.index_of(s.filter(wanted)[i])
}

proof fn lemma_kept_prices<A>(batch: BatchView<A>, side: Side, prices: spec_fn(A) -> bool)
    requires
        forall|j: int|
            0 <= j < batch.orders.len() ==> prices((#[trigger] batch.orders[j]).price),
    ensures
        forall|j: int|
            0 <= j < orders::kept_batch(batch, side).orders.len() ==> prices(
                (#[trigger] orders::kept_batch(batch, side).orders[j]).price,
            ),
{
    let keep = |order: OrderView<A>| !orders::is_open(order, side);
    assert forall|j: int| 0 <= j < orders::kept_batch(batch, side).orders.len() implies prices(
        (#[trigger] orders::kept_batch(batch, side).orders[j]).price,
    ) by {
        let from = lemma_filtered_from(batch.orders, keep, j);
        assert(prices(batch.orders[from].price));
    }
}

/// Neither marking nor dropping orders brings in a price that was not there.
pub proof fn prices_stay<A: Amount>(
    batches: Seq<BatchView<A>>,
    prices: spec_fn(A) -> bool,
    up_ask: A,
    down_ask: A,
    filled: Set<Seq<char>>,
    side: Side,
    now: u64,
    limit: u64,
)
    requires
        all_priced(batches, prices),
    ensures
        all_priced(orders::marked(batches, up_ask, down_ask), prices),
        all_priced(orders::confirmed(batches, filled), prices),
        all_priced(orders::kept(batches, side), prices),
        all_priced(orders::unexpired(batches, now, limit), prices),
{
    let nonempty = |batch: BatchView<A>| batch.orders.len() > 0;
    let marked = orders::marked(batches, up_ask, down_ask);
    assert forall|i: int, j: int|
        0 <= i < marked.len() && 0 <= j < marked[i].orders.len() implies prices(
        (#[trigger] marked[i].orders[j]).price,
    ) by {
        assert(prices(batches[i].orders[j].price));
    }
    let confirmed = orders::confirmed(batches, filled);
    assert forall|i: int, j: int|
        0 <= i < confirmed.len() && 0 <= j < confirmed[i].orders.len() implies prices(
        (#[trigger] confirmed[i].orders[j]).price,
    ) by {
        assert(prices(batches[i].orders[j].price));
    }
    let kept = batches.map_values(|batch: BatchView<A>| orders::kept_batch(batch, side));
    assert forall|i: int, j: int|
        0 <= i < kept.filter(nonempty).len() && 0 <= j < kept.filter(
            nonempty,
        )[i].orders.len() implies prices((#[trigger] kept.filter(nonempty)[i].orders[j]).price) by {
        let from = lemma_filtered_from(kept, nonempty, i);
        assert forall|k: int| 0 <= k < batches[from].orders.len() implies prices(
            (#[trigger] batches[from].orders[k]).price,
        ) by {}
        lemma_kept_prices(batches[from], side, prices);
    }
    let fresh = batches.map_values(|batch: BatchView<A>| orders::unexpired_batch(batch, now, limit));
    assert forall|i: int, j: int|
        0 <= i < fresh.filter(nonempty).len() && 0 <= j < fresh.filter(
            nonempty,
        )[i].orders.len() implies prices((#[trigger] fresh.filter(nonempty)[i].orders[j]).price) by {
        let from = lemma_filtered_from(fresh, nonempty, i);
        assert forall|k: int| 0 <= k < batches[from].orders.len() implies prices(
            (#[trigger] batches[from].orders[k]).price,
        ) by {}
        lemma_kept_prices(batches[from], Side::Up, prices);
        lemma_kept_prices(orders::kept_batch(batches[from], Side::Up), Side::Down, prices);
    }
}

// What was bought stays bought.

/// `places` are the places, in rising order, at which the items of `part` stand in `whole`.
pub open spec fn stands_at<T>(part: Seq<T>, whole: Seq<T>, places: Seq<int>) -> bool {
    &&& places.len() == part.len()
    &&& forall|i: int|
        0 <= i < part.len() ==> 0 <= #[trigger] places[i] < whole.len() && whole[places[i]]
            == part[i]
    &&& forall|i: int, j: int| 0 <= i < j < places.len() ==> places[i] < places[j]
}

/// `part` is `whole` without some of its items.
pub open spec fn is_subsequence<T>(part: Seq<T>, whole: Seq<T>) -> bool {
    exists|places: Seq<int>| stands_at(part, whole, places)
}

pub proof fn lemma_subsequence_of_itself<T>(s: Seq<T>)
    ensures
        is_subsequence(s, s),
{
    assert(stands_at(s, s, Seq::new(s.len(), |i: int| i)));
}

pub proof fn lemma_subsequence_chain<T>(small: Seq<T>, middle: Seq<T>, large: Seq<T>)
    requires
        is_subsequence(small, middle),
        is_subsequence(middle, large),
    ensures
        is_subsequence(small, large),
{
    let inner = choose|places: Seq<int>| stands_at(small, middle, places);
    let outer = choose|places: Seq<int>| stands_at(middle, large, places);
    let places = Seq::new(small.len(), |i: int| outer[inner[i]]);
    assert forall|i: int, j: int| 0 <= i < j < places.len() implies places[i] < places[j] by {
        assert(inner[i] < inner[j]);
    }
    assert(stands_at(small, large, places));
}

proof fn lemma_subsequence_joined<T>(part: Seq<T>, whole: Seq<T>, tail: Seq<T>, end: Seq<T>)
    requires
        is_subsequence(part, whole),
        is_subsequence(tail, end),
    ensures
        is_subsequence(part + tail, whole + end),
{
    let front = choose|places: Seq<int>| stands_at(part, whole, places);
    let back = choose|places: Seq<int>| stands_at(tail, end, places);
    let places = Seq::new(
        part.len() + tail.len(),
        |i: int|
            if i < part.len() {
                front[i]
            } else {
                whole.len() + back[i - part.len()]
            },
    );
    assert(stands_at(part + tail, whole + end, places));
}

/// All orders of `batch` have one price.
pub open spec fn one_price<A>(batch: BatchView<A>) -> bool {
    forall|j: int, k: int|
        0 <= j < batch.orders.len() && 0 <= k < batch.orders.len() ==> (
        #[trigger] batch.orders[j]).price == (#[trigger] batch.orders[k]).price
}

/// In each of `batches` all orders have one price.
pub open spec fn all_one_price<A>(batches: Seq<BatchView<A>>) -> bool {
    forall|i: int| 0 <= i < batches.len() ==> one_price(#[trigger] batches[i])
}

proof fn lemma_first_matched<A>(batch: BatchView<A>, side: Side)
    requires
        one_price(batch),
    ensures
        orders::first_matched_price(batch.orders, side).len() > 0 ==> exists|j: int|
            0 <= j < batch.orders.len() && is_bought(#[trigger] batch.orders[j], side),
        forall|j: int|
            0 <= j < batch.orders.len() && is_bought(#[trigger] batch.orders[j], side)
                ==> orders::first_matched_price(batch.orders, side) == seq![batch.orders[j].price],
{
    let wanted = |order: OrderView<A>| order.matched && order.side == side;
    let matched = batch.orders.filter(wanted);
    broadcast use vstd::seq_lib::group_filter_ensures;

    if matched.len() > 0 {
        let from = lemma_filtered_from(batch.orders, wanted, 0);
        assert(wanted(matched[0]));
        assert(is_bought(batch.orders[from], side));
    }
    assert forall|j: int|
        0 <= j < batch.orders.len() && is_bought(
            #[trigger] batch.orders[j],
            side,
        ) implies orders::first_matched_price(batch.orders, side) == seq![batch.orders[j].price] by {
        assert(wanted(batch.orders[j]));
        assert(matched.contains(batch.orders[j]));
        let from = lemma_filtered_from(batch.orders, wanted, 0);
        assert(batch.orders[from].price == batch.orders[j].price);
    }
}

/// Where each batch has one price, an order that becomes matched takes no bought price off
/// the display: the prices shown before are among those shown after, in the same order.
pub proof fn matching_keeps_bought_prices<A>(
    before: Seq<BatchView<A>>,
    after: Seq<BatchView<A>>,
    side: Side,
)
    requires
        all_one_price(before),
        only_more_matched(before, after),
    ensures
        is_subsequence(
            orders::bought_prices(before, side),
            orders::bought_prices(after, side),
        ),
        all_one_price(after),
    decreases before.len(),
{
    assert forall|i: int| 0 <= i < after.len() implies one_price(#[trigger] after[i]) by {
        assert(one_price(before[i]));
        assert forall|j: int, k: int|
            0 <= j < after[i].orders.len() && 0 <= k < after[i].orders.len() implies (
        #[trigger] after[i].orders[j]).price == (#[trigger] after[i].orders[k]).price by {
            assert(before[i].orders[j].price == before[i].orders[k].price);
        }
    }
    if before.len() == 0 {
        lemma_subsequence_of_itself(Seq::<A>::empty());
    } else {
        let (old_rest, new_rest) = (before.drop_last(), after.drop_last());
        assert(only_more_matched(old_rest, new_rest)) by {
            assert forall|i: int| 0 <= i < old_rest.len() implies {
                &&& (#[trigger] new_rest[i]).placed_at == old_rest[i].placed_at
                &&& new_rest[i].orders.len() == old_rest[i].orders.len()
            } by {
                assert(new_rest[i] == after[i]);
            }
            assert forall|i: int, j: int|
                0 <= i < old_rest.len() && 0 <= j < old_rest[i].orders.len() implies {
                let order = #[trigger] new_rest[i].orders[j];
                &&& order == (OrderView { matched: order.matched, ..old_rest[i].orders[j] })
                &&& old_rest[i].orders[j].matched ==> order.matched
            } by {
                assert(new_rest[i].orders[j] == after[i].orders[j]);
            }
        }
        assert(all_one_price(old_rest)) by {
            assert forall|i: int| 0 <= i < old_rest.len() implies one_price(
                #[trigger] old_rest[i],
            ) by {
                assert(one_price(before[i]));
            }
        }
        matching_keeps_bought_prices(old_rest, new_rest, side);
        let n = before.len() - 1;
        assert(one_price(before[n]));
        assert(one_price(after[n]));
        lemma_first_matched(before[n], side);
        lemma_first_matched(after[n], side);
        let old_price = orders::first_matched_price(before[n].orders, side);
        let new_price = orders::first_matched_price(after[n].orders, side);
        if old_price.len() > 0 {
            let j = choose|j: int|
                0 <= j < before[n].orders.len() && is_bought(#[trigger] before[n].orders[j], side);
            assert(is_bought(after[n].orders[j], side));
            assert(old_price == seq![before[n].orders[j].price]);
            assert(new_price == seq![before[n].orders[j].price]);
            lemma_subsequence_of_itself(old_price);
        } else {
            assert(stands_at(old_price, new_price, Seq::<int>::empty()));
        }
        lemma_subsequence_joined(
            orders::bought_prices(old_rest, side),
            orders::bought_prices(new_rest, side),
            old_price,
            new_price,
        );
    }
}

proof fn lemma_unexpired_step<A>(batches: Seq<BatchView<A>>, now: u64, limit: u64)
    requires
        batches.len() > 0,
    ensures
        orders::unexpired(batches, now, limit) == if orders::unexpired_batch(
            batches.last(),
            now,
            limit,
        ).orders.len() > 0 {
            orders::unexpired(batches.drop_last(), now, limit).push(
                orders::unexpired_batch(batches.last(), now, limit),
            )
        } else {
            orders::unexpired(batches.drop_last(), now, limit)
        },
{
    reveal(Seq::filter);
    let keep = |batch: BatchView<A>| orders::unexpired_batch(batch, now, limit);
    assert(batches.map_values(keep).drop_last() =~= batches.drop_last().map_values(keep));
}

/// Dropping expired orders takes no bought price off the display.
pub proof fn expiring_keeps_bought_prices<A>(
    batches: Seq<BatchView<A>>,
    now: u64,
    limit: u64,
    shown: Side,
)
    ensures
        orders::bought_prices(orders::unexpired(batches, now, limit), shown)
            == orders::bought_prices(batches, shown),
    decreases batches.len(),
{
    if batches.len() == 0 {
        reveal(Seq::filter);
        let keep = |batch: BatchView<A>| orders::unexpired_batch(batch, now, limit);
        assert(batches.map_values(keep) =~= Seq::<BatchView<A>>::empty());
    } else {
        let before = batches.drop_last();
        let last = orders::unexpired_batch(batches.last(), now, limit);
        expiring_keeps_bought_prices(before, now, limit, shown);
        lemma_unexpired_step(batches, now, limit);
        let once = orders::kept_batch(batches.last(), Side::Up);
        lemma_kept_orders(batches.last().orders, Side::Up, shown);
        lemma_kept_orders(once.orders, Side::Down, shown);
        assert(orders::unexpired(before, now, limit).push(last).drop_last() =~= orders::unexpired(
            before,
            now,
            limit,
        ));
        if last.orders.len() == 0 {
            lemma_no_orders(last.orders, shown);
            assert(orders::bought_prices(batches, shown) =~= orders::bought_prices(before, shown));
        }
    }
}

/// A batch of open orders adds no bought price and takes none off the display.
pub proof fn placing_keeps_bought_prices<A>(
    batches: Seq<BatchView<A>>,
    batch: BatchView<A>,
    side: Side,
    shown: Side,
)
    requires
        all_open(batch, side),
    ensures
        orders::bought_prices(batches.push(batch), shown) == orders::bought_prices(batches, shown),
{
    assert(batches.push(batch).drop_last() =~= batches);
    let wanted = |order: OrderView<A>| order.matched && order.side == shown;
    if batch.orders.filter(wanted).len() > 0 {
        broadcast use vstd::seq_lib::group_filter_ensures;

        let from = lemma_filtered_from(batch.orders, wanted, 0);
        assert(wanted(batch.orders.filter(wanted)[0]));
        assert(orders::is_open(batch.orders[from], side));
    }
    assert(orders::bought_prices(batches.push(batch), shown) =~= orders::bought_prices(
        batches,
        shown,
    ));
}

proof fn lemma_kept_one_price<A>(batch: BatchView<A>, side: Side)
    requires
        one_price(batch),
    ensures
        one_price(orders::kept_batch(batch, side)),
{
    let keep = |order: OrderView<A>| !orders::is_open(order, side);
    let rest = orders::kept_batch(batch, side);
    assert forall|j: int, k: int|
        0 <= j < rest.orders.len() && 0 <= k < rest.orders.len() implies (
    #[trigger] rest.orders[j]).price == (#[trigger] rest.orders[k]).price by {
        let from = lemma_filtered_from(batch.orders, keep, j);
        let other = lemma_filtered_from(batch.orders, keep, k);
        assert(batch.orders[from].price == batch.orders[other].price);
    }
}

/// Dropping orders leaves each batch with one price, if it had one.
pub proof fn dropping_keeps_one_price<A>(
    batches: Seq<BatchView<A>>,
    side: Side,
    now: u64,
    limit: u64,
)
    requires
        all_one_price(batches),
    ensures
        all_one_price(orders::kept(batches, side)),
        all_one_price(orders::unexpired(batches, now, limit)),
{
    let nonempty = |batch: BatchView<A>| batch.orders.len() > 0;
    let kept = batches.map_values(|batch: BatchView<A>| orders::kept_batch(batch, side));
    assert forall|i: int| 0 <= i < kept.filter(nonempty).len() implies one_price(
        #[trigger] kept.filter(nonempty)[i],
    ) by {
        let from = lemma_filtered_from(kept, nonempty, i);
        assert(one_price(batches[from]));
        lemma_kept_one_price(batches[from], side);
    }
    let fresh = batches.map_values(|batch: BatchView<A>| orders::unexpired_batch(batch, now, limit));
    assert forall|i: int| 0 <= i < fresh.filter(nonempty).len() implies one_price(
        #[trigger] fresh.filter(nonempty)[i],
    ) by {
        let from = lemma_filtered_from(fresh, nonempty, i);
        assert(one_price(batches[from]));
        lemma_kept_one_price(batches[from], Side::Up);
        lemma_kept_one_price(orders::kept_batch(batches[from], Side::Up), Side::Down);
    }
}

} // verus!
