//! Limit orders that have been placed, and what has become of them.

use crate::amount::Amount;
use crate::text::same_text;
use vstd::prelude::*;

pub mod laws;
pub mod totals;

verus! {

/// The two outcomes of a market.
#[derive(Clone, Copy, Debug, PartialEq, Eq, Structural)]
pub enum Side {
    Up,
    Down,
}

impl Side {
    pub open spec fn name(self) -> Seq<char> {
        match self {
            Side::Up => "Up"@,
            Side::Down => "Down"@,
        }
    }

    /// "Up" or "Down".
    pub fn label(self) -> (label: &'static str)
        ensures
            label@ == self.name(),
    {
        match self {
            Side::Up => "Up",
            Side::Down => "Down",
        }
    }
}

/// One limit order to buy.
pub struct PendingOrder<A> {
    pub side: Side,
    pub price: A,
    pub size: A,
    /// The exchange's name for the order; simulated orders have none.
    pub order_id: Option<String>,
    pub matched: bool,
}

/// Orders that were placed together.
pub struct PendingBatch<A> {
    /// Unix time in seconds.
    pub placed_at: u64,
    pub orders: Vec<PendingOrder<A>>,
}

/// A `PendingOrder`, seen as a mathematical value.
pub struct OrderView<A> {
    pub side: Side,
    pub price: A,
    pub size: A,
    pub order_id: Option<Seq<char>>,
    pub matched: bool,
}

/// A `PendingBatch`, seen as a mathematical value.
#[verifier::ext_equal]
pub struct BatchView<A> {
    pub placed_at: u64,
    pub orders: Seq<OrderView<A>>,
}

impl<A> DeepView for PendingOrder<A> {
    type V = OrderView<A>;

    open spec fn deep_view(&self) -> OrderView<A> {
        OrderView {
            side: self.side,
            price: self.price,
            size: self.size,
            order_id: self.order_id.deep_view(),
            matched: self.matched,
        }
    }
}

impl<A> DeepView for PendingBatch<A> {
    type V = BatchView<A>;

    open spec fn deep_view(&self) -> BatchView<A> {
        BatchView { placed_at: self.placed_at, orders: self.orders.deep_view() }
    }
}

// Matching orders against the market.

/// The ask of one side.
pub open spec fn ask_of<A>(side: Side, up_ask: A, down_ask: A) -> A {
    match side {
        Side::Up => up_ask,
        Side::Down => down_ask,
    }
}

/// The ask of the order's side has come down to its price, give or take 0.0001.
pub open spec fn fills<A: Amount>(order: OrderView<A>, up_ask: A, down_ask: A) -> bool {
    ask_of(order.side, up_ask, down_ask).is_at_most(order.price.sum(A::decimal(1, 4)))
}

/// `order`, marked as matched if it fills.
pub open spec fn marked_order<A: Amount>(
    order: OrderView<A>,
    up_ask: A,
    down_ask: A,
) -> OrderView<A> {
    OrderView { matched: order.matched || fills(order, up_ask, down_ask), ..order }
}

/// `batch`, with the orders that fill marked as matched.
pub open spec fn marked_batch<A: Amount>(
    batch: BatchView<A>,
    up_ask: A,
    down_ask: A,
) -> BatchView<A> {
    BatchView {
        orders: batch.orders.map_values(|order: OrderView<A>| marked_order(order, up_ask, down_ask)),
        ..batch
    }
}

/// `batches`, with the orders that fill marked as matched.
pub open spec fn marked<A: Amount>(
    batches: Seq<BatchView<A>>,
    up_ask: A,
    down_ask: A,
) -> Seq<BatchView<A>> {
    batches.map_values(|batch: BatchView<A>| marked_batch(batch, up_ask, down_ask))
}

fn mark_batch<A: Amount>(batch: &mut PendingBatch<A>, up_ask: A, down_ask: A)
    ensures
        final(batch).deep_view() == marked_batch(old(batch).deep_view(), up_ask, down_ask),
{
    let ghost before = batch.deep_view();
    let epsilon: A = A::from_decimal(1, 4);
    let mut i: usize = 0;
    while i < batch.orders.len()
        invariant
            epsilon == A::decimal(1, 4),
            i <= batch.orders@.len(),
            batch.placed_at == before.placed_at,
            batch.orders@.len() == before.orders.len(),
            forall|j: int|
                0 <= j < i ==> #[trigger] batch.orders@[j].deep_view() == marked_order(
                    before.orders[j],
                    up_ask,
                    down_ask,
                ),
            forall|j: int|
                i <= j < batch.orders@.len() ==> #[trigger] batch.orders@[j].deep_view()
                    == before.orders[j],
        decreases batch.orders@.len() - i,
    {
        assert(batch.orders@[i as int].deep_view() == before.orders[i as int]);
        if !batch.orders[i].matched {
            let ask: A = match batch.orders[i].side {
                Side::Up => up_ask,
                Side::Down => down_ask,
            };
            if ask.at_most(batch.orders[i].price.plus(epsilon)) {
                batch.orders[i].matched = true;
            }
        }
        i = i + 1;
    }
    assert(batch.deep_view() =~= marked_batch(before, up_ask, down_ask));
}

/// Marks the orders that fill at the given asks.
pub fn mark_filled<A: Amount>(batches: &mut Vec<PendingBatch<A>>, up_ask: A, down_ask: A)
    ensures
        final(batches).deep_view() == marked(old(batches).deep_view(), up_ask, down_ask),
{
    let ghost before = batches.deep_view();
    let mut i: usize = 0;
    while i < batches.len()
        invariant
            i <= batches@.len(),
            batches@.len() == before.len(),
            forall|j: int|
                0 <= j < i ==> #[trigger] batches@[j].deep_view() == marked_batch(
                    before[j],
                    up_ask,
                    down_ask,
                ),
            forall|j: int|
                i <= j < batches@.len() ==> #[trigger] batches@[j].deep_view() == before[j],
        decreases batches@.len() - i,
    {
        assert(batches@[i as int].deep_view() == before[i as int]);
        mark_batch(&mut batches[i], up_ask, down_ask);
        i = i + 1;
    }
    assert(batches.deep_view() =~= marked(before, up_ask, down_ask));
}

// Matching orders against the exchange's fills.

/// The exchange has filled the order: its name is one of `ids`.
pub open spec fn is_filled<A>(order: OrderView<A>, ids: Set<Seq<char>>) -> bool {
    order.order_id is Some && ids.contains(order.order_id->0)
}

/// `order`, marked as matched if the exchange has filled it.
pub open spec fn confirmed_order<A>(order: OrderView<A>, ids: Set<Seq<char>>) -> OrderView<A> {
    OrderView { matched: order.matched || is_filled(order, ids), ..order }
}

/// `batch`, with the orders that the exchange has filled marked as matched.
pub open spec fn confirmed_batch<A>(batch: BatchView<A>, ids: Set<Seq<char>>) -> BatchView<A> {
    BatchView {
        orders: batch.orders.map_values(|order: OrderView<A>| confirmed_order(order, ids)),
        ..batch
    }
}

/// `batches`, with the orders that the exchange has filled marked as matched.
pub open spec fn confirmed<A>(batches: Seq<BatchView<A>>, ids: Set<Seq<char>>) -> Seq<BatchView<A>> {
    batches.map_values(|batch: BatchView<A>| confirmed_batch(batch, ids))
}

fn names_one(ids: &Vec<String>, order_id: &Option<String>) -> (answer: bool)
    ensures
        answer == (order_id is Some && ids.deep_view().to_set().contains(order_id->0@)),
{
    match order_id {
        Some(id) => {
            let mut i: usize = 0;
            while i < ids.len()
                invariant
                    order_id is Some,
                    order_id->0@ == id@,
                    i <= ids@.len(),
                    forall|j: int| 0 <= j < i ==> #[trigger] ids.deep_view()[j] != id@,
                decreases ids@.len() - i,
            {
                if same_text(ids[i].as_str(), id.as_str()) {
                    assert(ids.deep_view()[i as int] == id@);
                    return true;
                }
                i = i + 1;
            }
            assert(!ids.deep_view().contains(id@));
            false
        },
        None => false,
    }
}

fn confirm_batch<A: Amount>(batch: &mut PendingBatch<A>, ids: &Vec<String>)
    ensures
        final(batch).deep_view() == confirmed_batch(
            old(batch).deep_view(),
            ids.deep_view().to_set(),
        ),
{
    let ghost before = batch.deep_view();
    let ghost names = ids.deep_view().to_set();
    let mut i: usize = 0;
    while i < batch.orders.len()
        invariant
            names == ids.deep_view().to_set(),
            i <= batch.orders@.len(),
            batch.placed_at == before.placed_at,
            batch.orders@.len() == before.orders.len(),
            forall|j: int|
                0 <= j < i ==> #[trigger] batch.orders@[j].deep_view() == confirmed_order(
                    before.orders[j],
                    names,
                ),
            forall|j: int|
                i <= j < batch.orders@.len() ==> #[trigger] batch.orders@[j].deep_view()
                    == before.orders[j],
        decreases batch.orders@.len() - i,
    {
        assert(batch.orders@[i as int].deep_view() == before.orders[i as int]);
        if names_one(ids, &batch.orders[i].order_id) {
            batch.orders[i].matched = true;
        }
        i = i + 1;
    }
    assert(batch.deep_view() =~= confirmed_batch(before, names));
}

/// Marks the orders that the exchange calls by one of `ids`.
pub fn mark_confirmed<A: Amount>(batches: &mut Vec<PendingBatch<A>>, ids: &Vec<String>)
    ensures
        final(batches).deep_view() == confirmed(
            old(batches).deep_view(),
            ids.deep_view().to_set(),
        ),
{
    let ghost before = batches.deep_view();
    let ghost names = ids.deep_view().to_set();
    let mut i: usize = 0;
    while i < batches.len()
        invariant
            names == ids.deep_view().to_set(),
            i <= batches@.len(),
            batches@.len() == before.len(),
            forall|j: int|
                0 <= j < i ==> #[trigger] batches@[j].deep_view() == confirmed_batch(
                    before[j],
                    names,
                ),
            forall|j: int|
                i <= j < batches@.len() ==> #[trigger] batches@[j].deep_view() == before[j],
        decreases batches@.len() - i,
    {
        assert(batches@[i as int].deep_view() == before[i as int]);
        confirm_batch(&mut batches[i], ids);
        i = i + 1;
    }
    assert(batches.deep_view() =~= confirmed(before, names));
}

// What the matched orders amount to.

/// Shares held on each side, orders still unmatched, and what the matched ones cost.
pub struct HoldingsView<A> {
    pub up_shares: A,
    pub down_shares: A,
    pub unmatched: nat,
    pub total_deposit: A,
}

/// Shares held on each side, orders still unmatched, and what the matched ones cost.
#[derive(Clone, Copy, Debug)]
pub struct Holdings<A> {
    pub up_shares: A,
    pub down_shares: A,
    pub unmatched: u128,
    pub total_deposit: A,
}

impl<A> DeepView for Holdings<A> {
    type V = HoldingsView<A>;

    open spec fn deep_view(&self) -> HoldingsView<A> {
        HoldingsView {
            up_shares: self.up_shares,
            down_shares: self.down_shares,
            unmatched: self.unmatched as nat,
            total_deposit: self.total_deposit,
        }
    }
}

impl<A: Amount> HoldingsView<A> {
    /// Nothing held.
    pub open spec fn none() -> Self {
        HoldingsView {
            up_shares: A::decimal(0, 0),
            down_shares: A::decimal(0, 0),
            unmatched: 0,
            total_deposit: A::decimal(0, 0),
        }
    }

    /// These holdings and one more order: a matched order adds its size to its side and its
    /// price times its size to the deposit; another one counts as unmatched.
    pub open spec fn with(self, order: OrderView<A>) -> Self {
        if order.matched {
            let deposit = self.total_deposit.sum(order.price.product(order.size));
            match order.side {
                Side::Up => HoldingsView {
                    up_shares: self.up_shares.sum(order.size),
                    total_deposit: deposit,
                    ..self
                },
                Side::Down => HoldingsView {
                    down_shares: self.down_shares.sum(order.size),
                    total_deposit: deposit,
                    ..self
                },
            }
        } else {
            HoldingsView { unmatched: self.unmatched + 1, ..self }
        }
    }

    /// These holdings and `orders`, one after the other.
    pub open spec fn with_all(self, orders: Seq<OrderView<A>>) -> Self
        decreases orders.len(),
    {
        if orders.len() == 0 {
            self
        } else {
            self.with_all(orders.drop_last()).with(orders.last())
        }
    }
}

/// What `batches` amount to, taken in the order in which they were placed.
pub open spec fn holdings_of<A: Amount>(batches: Seq<BatchView<A>>) -> HoldingsView<A>
    decreases batches.len(),
{
    if batches.len() == 0 {
        HoldingsView::none()
    } else {
        holdings_of(batches.drop_last()).with_all(batches.last().orders)
    }
}

/// As many orders as `i + 1` lists can hold are counted in 128 bits.
proof fn lemma_counts_fit(i: usize)
    requires
        i < usize::MAX,
    ensures
        (i + 1) * (usize::MAX as int) == i * (usize::MAX as int) + usize::MAX,
        (i + 1) * (usize::MAX as int) <= u128::MAX,
{
    assert((i + 1) * (usize::MAX as int) == i * (usize::MAX as int) + usize::MAX)
        by (nonlinear_arith);
    assert((i + 1) * (usize::MAX as int) <= 0xffff_ffff_ffff_ffff * 0xffff_ffff_ffff_ffff)
        by (nonlinear_arith)
        requires
            i < usize::MAX,
            usize::MAX <= 0xffff_ffff_ffff_ffff,
    ;
}

fn add_batch<A: Amount>(held: Holdings<A>, orders: &Vec<PendingOrder<A>>) -> (sum: Holdings<A>)
    requires
        held.unmatched + orders@.len() <= u128::MAX,
    ensures
        sum.deep_view() == held.deep_view().with_all(orders.deep_view()),
        sum.unmatched <= held.unmatched + orders@.len(),
{
    let mut sum: Holdings<A> = held;
    let mut i: usize = 0;
    let ghost all = orders.deep_view();
    assert(all.take(0) =~= Seq::<OrderView<A>>::empty());
    while i < orders.len()
        invariant
            i <= orders@.len(),
            all == orders.deep_view(),
            held.unmatched + orders@.len() <= u128::MAX,
            sum.deep_view() == held.deep_view().with_all(all.take(i as int)),
            sum.unmatched <= held.unmatched + i,
        decreases orders@.len() - i,
    {
        let order: &PendingOrder<A> = &orders[i];
        if order.matched {
            sum.total_deposit = sum.total_deposit.plus(order.price.times(order.size));
            match order.side {
                Side::Up => {
                    sum.up_shares = sum.up_shares.plus(order.size);
                },
                Side::Down => {
                    sum.down_shares = sum.down_shares.plus(order.size);
                },
            }
        } else {
            sum.unmatched = sum.unmatched + 1;
        }
        assert(all.take(i + 1).drop_last() =~= all.take(i as int));
        assert(all.take(i + 1).last() == order.deep_view());
        i = i + 1;
    }
    assert(all.take(all.len() as int) =~= all);
    sum
}

/// What `batches` amount to.
pub fn holdings<A: Amount>(batches: &Vec<PendingBatch<A>>) -> (held: Holdings<A>)
    ensures
        held.deep_view() == holdings_of(batches.deep_view()),
{
    let zero: A = A::from_decimal(0, 0);
    let mut held: Holdings<A> = Holdings {
        up_shares: zero,
        down_shares: zero,
        unmatched: 0,
        total_deposit: zero,
    };
    let mut i: usize = 0;
    let ghost all = batches.deep_view();
    assert(all.take(0) =~= Seq::<BatchView<A>>::empty());
    while i < batches.len()
        invariant
            i <= batches@.len(),
            all == batches.deep_view(),
            held.deep_view() == holdings_of(all.take(i as int)),
            held.unmatched <= i * (usize::MAX as int),
        decreases batches@.len() - i,
    {
        proof {
            lemma_counts_fit(i);
            assert(batches@[i as int].orders.len() <= usize::MAX);
        }
        held = add_batch(held, &batches[i].orders);
        assert(all.take(i + 1).drop_last() =~= all.take(i as int));
        assert(all.take(i + 1).last() == batches@[i as int].deep_view());
        i = i + 1;
    }
    assert(all.take(all.len() as int) =~= all);
    held
}

// The prices at which orders were matched.

/// The price of the first matched order of `side`, if there is one.
pub open spec fn first_matched_price<A>(orders: Seq<OrderView<A>>, side: Side) -> Seq<A> {
    let matched = orders.filter(|order: OrderView<A>| order.matched && order.side == side);
    if matched.len() > 0 {
        seq![matched.first().price]
    } else {
        Seq::empty()
    }
}

/// For each batch with a matched order of `side`, the price of the first such order.
pub open spec fn bought_prices<A>(batches: Seq<BatchView<A>>, side: Side) -> Seq<A>
    decreases batches.len(),
{
    if batches.len() == 0 {
        Seq::empty()
    } else {
        bought_prices(batches.drop_last(), side) + first_matched_price(batches.last().orders, side)
    }
}

proof fn lemma_first_matched_push<A>(orders: Seq<OrderView<A>>, order: OrderView<A>, side: Side)
    ensures
        first_matched_price(orders.push(order), side) == if first_matched_price(orders, side).len()
            > 0 {
            first_matched_price(orders, side)
        } else if order.matched && order.side == side {
            seq![order.price]
        } else {
            Seq::empty()
        },
{
    let wanted = |o: OrderView<A>| o.matched && o.side == side;
    reveal(Seq::filter);
    assert(orders.push(order).drop_last() =~= orders);
    assert(orders.push(order).last() == order);
}

fn first_matched<A: Amount>(orders: &Vec<PendingOrder<A>>, side: Side) -> (price: Option<A>)
    ensures
        first_matched_price(orders.deep_view(), side) == match price {
            Some(price) => seq![price],
            None => Seq::empty(),
        },
{
    let ghost all = orders.deep_view();
    let mut i: usize = 0;
    let mut found: Option<A> = None;
    proof {
        reveal(Seq::filter);
        assert(all.take(0) =~= Seq::<OrderView<A>>::empty());
    }
    while i < orders.len()
        invariant
            i <= orders@.len(),
            all == orders.deep_view(),
            first_matched_price(all.take(i as int), side) == match found {
                Some(price) => seq![price],
                None => Seq::empty(),
            },
        decreases orders@.len() - i,
    {
        proof {
            assert(all.take(i + 1) =~= all.take(i as int).push(all[i as int]));
            lemma_first_matched_push(all.take(i as int), all[i as int], side);
        }
        if found.is_none() && orders[i].matched && orders[i].side == side {
            found = Some(orders[i].price);
        }
        i = i + 1;
    }
    assert(all.take(all.len() as int) =~= all);
    found
}

/// For each batch with a matched order of `side`, the price of the first such order.
pub fn matched_prices<A: Amount>(batches: &Vec<PendingBatch<A>>, side: Side) -> (prices: Vec<A>)
    ensures
        prices@ == bought_prices(batches.deep_view(), side),
{
    let ghost all = batches.deep_view();
    let mut prices: Vec<A> = Vec::new();
    let mut i: usize = 0;
    assert(all.take(0) =~= Seq::<BatchView<A>>::empty());
    while i < batches.len()
        invariant
            i <= batches@.len(),
            all == batches.deep_view(),
            prices@ == bought_prices(all.take(i as int), side),
        decreases batches@.len() - i,
    {
        assert(all.take(i + 1).drop_last() =~= all.take(i as int));
        assert(all.take(i + 1).last() == batches@[i as int].deep_view());
        if let Some(price) = first_matched(&batches[i].orders, side) {
            prices.push(price);
        }
        assert(prices@ =~= bought_prices(all.take(i + 1), side));
        i = i + 1;
    }
    assert(all.take(all.len() as int) =~= all);
    prices
}

// Cancelling orders.

/// `order` is an unmatched order of `side`.
pub open spec fn is_open<A>(order: OrderView<A>, side: Side) -> bool {
    order.side == side && !order.matched
}

/// `orders` without the unmatched ones of `side`.
pub open spec fn kept_orders<A>(orders: Seq<OrderView<A>>, side: Side) -> Seq<OrderView<A>> {
    orders.filter(|order: OrderView<A>| !is_open(order, side))
}

/// `batch` without the unmatched orders of `side`.
pub open spec fn kept_batch<A>(batch: BatchView<A>, side: Side) -> BatchView<A> {
    BatchView { orders: kept_orders(batch.orders, side), ..batch }
}

/// `batches` without the unmatched orders of `side`; a batch that has none left is gone.
pub open spec fn kept<A>(batches: Seq<BatchView<A>>, side: Side) -> Seq<BatchView<A>> {
    batches.map_values(|batch: BatchView<A>| kept_batch(batch, side)).filter(
        |batch: BatchView<A>| batch.orders.len() > 0,
    )
}

/// The exchange's names for the unmatched orders of `side` that have one.
pub open spec fn open_ids_in<A>(orders: Seq<OrderView<A>>, side: Side) -> Seq<Seq<char>> {
    orders.filter(|order: OrderView<A>| is_open(order, side) && order.order_id is Some).map_values(
        |order: OrderView<A>| order.order_id->0,
    )
}

/// The exchange's names for the unmatched orders of `side` that have one, batch by batch.
pub open spec fn open_ids<A>(batches: Seq<BatchView<A>>, side: Side) -> Seq<Seq<char>>
    decreases batches.len(),
{
    if batches.len() == 0 {
        Seq::empty()
    } else {
        open_ids(batches.drop_last(), side) + open_ids_in(batches.last().orders, side)
    }
}

/// How many unmatched orders of `side` there are.
pub open spec fn open_count<A>(batches: Seq<BatchView<A>>, side: Side) -> nat
    decreases batches.len(),
{
    if batches.len() == 0 {
        0
    } else {
        open_count(batches.drop_last(), side) + batches.last().orders.filter(
            |order: OrderView<A>| is_open(order, side),
        ).len()
    }
}

fn keep_orders<A: Amount>(orders: Vec<PendingOrder<A>>, side: Side) -> (rest: Vec<PendingOrder<A>>)
    ensures
        rest.deep_view() == kept_orders(orders.deep_view(), side),
{
    let ghost all = orders.deep_view();
    let mut rest: Vec<PendingOrder<A>> = Vec::new();
    let ghost wanted = |order: OrderView<A>| !is_open(order, side);
    proof {
        reveal(Seq::filter);
        assert(all.take(0) =~= Seq::<OrderView<A>>::empty());
        assert(rest.deep_view() =~= all.take(0).filter(wanted));
    }
    for order in it: orders
        invariant
            it.seq() == orders@,
            all == orders.deep_view(),
            wanted == (|order: OrderView<A>| !is_open(order, side)),
            rest.deep_view() == all.take(it.index() as int).filter(wanted),
    {
        let ghost before = rest.deep_view();
        let ghost i = it.index() as int;
        proof {
            reveal(Seq::filter);
            assert(all.take(i + 1).drop_last() =~= all.take(i));
            assert(all.take(i + 1).last() == order.deep_view());
        }
        let open: bool = order.side == side && !order.matched;
        if !open {
            rest.push(order);
            assert(rest.deep_view() =~= before.push(all[i]));
        }
    }
    assert(all.take(all.len() as int) =~= all);
    rest
}

/// `batches` without the unmatched orders of `side`; a batch that has none left is dropped.
pub fn drop_open<A: Amount>(batches: Vec<PendingBatch<A>>, side: Side) -> (rest: Vec<
    PendingBatch<A>,
>)
    ensures
        rest.deep_view() == kept(batches.deep_view(), side),
{
    let ghost all = batches.deep_view();
    let ghost mapped = all.map_values(|batch: BatchView<A>| kept_batch(batch, side));
    let ghost wanted = |batch: BatchView<A>| batch.orders.len() > 0;
    let mut rest: Vec<PendingBatch<A>> = Vec::new();
    proof {
        reveal(Seq::filter);
        assert(mapped.take(0) =~= Seq::<BatchView<A>>::empty());
        assert(rest.deep_view() =~= mapped.take(0).filter(wanted));
    }
    for batch in it: batches
        invariant
            it.seq() == batches@,
            all == batches.deep_view(),
            mapped == all.map_values(|batch: BatchView<A>| kept_batch(batch, side)),
            wanted == (|batch: BatchView<A>| batch.orders.len() > 0),
            rest.deep_view() == mapped.take(it.index() as int).filter(wanted),
    {
        let ghost before = rest.deep_view();
        let ghost i = it.index() as int;
        proof {
            reveal(Seq::filter);
            assert(mapped.take(i + 1).drop_last() =~= mapped.take(i));
            assert(mapped.take(i + 1).last() == kept_batch(batch.deep_view(), side));
        }
        let placed_at: u64 = batch.placed_at;
        let orders: Vec<PendingOrder<A>> = keep_orders(batch.orders, side);
        if orders.len() > 0 {
            rest.push(PendingBatch { placed_at, orders });
            assert(rest.deep_view() =~= before.push(mapped[i]));
        }
    }
    assert(mapped.take(mapped.len() as int) =~= mapped);
    rest
}

fn push_open_ids<A: Amount>(orders: &Vec<PendingOrder<A>>, side: Side, ids: &mut Vec<String>)
    ensures
        final(ids).deep_view() == old(ids).deep_view() + open_ids_in(orders.deep_view(), side),
{
    let ghost all = orders.deep_view();
    let ghost before = ids.deep_view();
    let ghost wanted = |order: OrderView<A>| is_open(order, side) && order.order_id is Some;
    let ghost id_of = |order: OrderView<A>| order.order_id->0;
    let mut i: usize = 0;
    proof {
        reveal(Seq::filter);
        assert(all.take(0) =~= Seq::<OrderView<A>>::empty());
        assert(ids.deep_view() =~= before + all.take(0).filter(wanted).map_values(id_of));
    }
    while i < orders.len()
        invariant
            i <= orders@.len(),
            all == orders.deep_view(),
            wanted == (|order: OrderView<A>| is_open(order, side) && order.order_id is Some),
            id_of == (|order: OrderView<A>| order.order_id->0),
            ids.deep_view() == before + all.take(i as int).filter(wanted).map_values(id_of),
        decreases orders@.len() - i,
    {
        let ghost so_far = ids.deep_view();
        let order: &PendingOrder<A> = &orders[i];
        proof {
            reveal(Seq::filter);
            assert(all.take(i + 1).drop_last() =~= all.take(i as int));
            assert(all.take(i + 1).last() == order.deep_view());
        }
        if order.side == side && !order.matched {
            if let Some(id) = &order.order_id {
                ids.push(id.clone());
                assert(ids.deep_view() =~= so_far.push(id@));
                assert(all.take(i + 1).filter(wanted).map_values(id_of) =~= all.take(
                    i as int,
                ).filter(wanted).map_values(id_of).push(id@));
            }
        }
        assert(ids.deep_view() =~= before + all.take(i + 1).filter(wanted).map_values(id_of));
        i = i + 1;
    }
    assert(all.take(all.len() as int) =~= all);
}

/// The exchange's names for the unmatched orders of `side` that have one, batch by batch.
pub fn open_order_ids<A: Amount>(batches: &Vec<PendingBatch<A>>, side: Side) -> (ids: Vec<String>)
    ensures
        ids.deep_view() == open_ids(batches.deep_view(), side),
{
    let ghost all = batches.deep_view();
    let mut ids: Vec<String> = Vec::new();
    let mut i: usize = 0;
    proof {
        assert(all.take(0) =~= Seq::<BatchView<A>>::empty());
        assert(ids.deep_view() =~= Seq::<Seq<char>>::empty());
    }
    while i < batches.len()
        invariant
            i <= batches@.len(),
            all == batches.deep_view(),
            ids.deep_view() == open_ids(all.take(i as int), side),
        decreases batches@.len() - i,
    {
        assert(all.take(i + 1).drop_last() =~= all.take(i as int));
        assert(all.take(i + 1).last() == batches@[i as int].deep_view());
        push_open_ids(&batches[i].orders, side, &mut ids);
        i = i + 1;
    }
    assert(all.take(all.len() as int) =~= all);
    ids
}

fn count_open_in<A: Amount>(orders: &Vec<PendingOrder<A>>, side: Side) -> (count: usize)
    ensures
        count == orders.deep_view().filter(|order: OrderView<A>| is_open(order, side)).len(),
        count <= orders@.len(),
{
    let ghost all = orders.deep_view();
    let ghost wanted = |order: OrderView<A>| is_open(order, side);
    let mut count: usize = 0;
    let mut i: usize = 0;
    proof {
        reveal(Seq::filter);
        assert(all.take(0) =~= Seq::<OrderView<A>>::empty());
    }
    while i < orders.len()
        invariant
            i <= orders@.len(),
            all == orders.deep_view(),
            wanted == (|order: OrderView<A>| is_open(order, side)),
            count == all.take(i as int).filter(wanted).len(),
            count <= i,
        decreases orders@.len() - i,
    {
        proof {
            reveal(Seq::filter);
            assert(all.take(i + 1).drop_last() =~= all.take(i as int));
            assert(all.take(i + 1).last() == orders@[i as int].deep_view());
        }
        if orders[i].side == side && !orders[i].matched {
            count = count + 1;
        }
        i = i + 1;
    }
    assert(all.take(all.len() as int) =~= all);
    count
}

/// How many unmatched orders of `side` there are.
pub fn count_open<A: Amount>(batches: &Vec<PendingBatch<A>>, side: Side) -> (count: u128)
    ensures
        count == open_count(batches.deep_view(), side),
{
    let ghost all = batches.deep_view();
    let mut count: u128 = 0;
    let mut i: usize = 0;
    assert(all.take(0) =~= Seq::<BatchView<A>>::empty());
    while i < batches.len()
        invariant
            i <= batches@.len(),
            all == batches.deep_view(),
            count == open_count(all.take(i as int), side),
            count <= i * (usize::MAX as int),
        decreases batches@.len() - i,
    {
        proof {
            lemma_counts_fit(i);
        }
        count = count + count_open_in(&batches[i].orders, side) as u128;
        assert(all.take(i + 1).drop_last() =~= all.take(i as int));
        assert(all.take(i + 1).last() == batches@[i as int].deep_view());
        i = i + 1;
    }
    assert(all.take(all.len() as int) =~= all);
    count
}

// Orders that have waited too long.

/// A batch placed at `placed_at` has waited for `limit` seconds or longer; a limit of zero
/// stands for no limit.
pub open spec fn is_expired(placed_at: u64, now: u64, limit: u64) -> bool {
    limit > 0 && now >= placed_at + limit
}

/// The exchange's names for the unmatched orders of `batch` that have one, if it has expired.
pub open spec fn expired_ids_in<A>(batch: BatchView<A>, now: u64, limit: u64) -> Seq<Seq<char>> {
    if is_expired(batch.placed_at, now, limit) {
        open_ids_in(batch.orders, Side::Up) + open_ids_in(batch.orders, Side::Down)
    } else {
        Seq::empty()
    }
}

/// The exchange's names for the unmatched orders of expired batches, batch by batch.
pub open spec fn expired_ids<A>(batches: Seq<BatchView<A>>, now: u64, limit: u64) -> Seq<Seq<char>>
    decreases batches.len(),
{
    if batches.len() == 0 {
        Seq::empty()
    } else {
        expired_ids(batches.drop_last(), now, limit) + expired_ids_in(batches.last(), now, limit)
    }
}

/// `batch`, without its unmatched orders if it has expired.
pub open spec fn unexpired_batch<A>(batch: BatchView<A>, now: u64, limit: u64) -> BatchView<A> {
    if is_expired(batch.placed_at, now, limit) {
        kept_batch(kept_batch(batch, Side::Up), Side::Down)
    } else {
        batch
    }
}

/// `batches` without the unmatched orders of expired batches; a batch that has none left is
/// gone.
pub open spec fn unexpired<A>(batches: Seq<BatchView<A>>, now: u64, limit: u64) -> Seq<BatchView<A>> {
    batches.map_values(|batch: BatchView<A>| unexpired_batch(batch, now, limit)).filter(
        |batch: BatchView<A>| batch.orders.len() > 0,
    )
}

fn has_expired(placed_at: u64, now: u64, limit: u64) -> (answer: bool)
    ensures
        answer == is_expired(placed_at, now, limit),
{
    limit > 0 && now >= placed_at && now - placed_at >= limit
}

/// The exchange's names for the unmatched orders of expired batches, batch by batch.
pub fn expired_order_ids<A: Amount>(batches: &Vec<PendingBatch<A>>, now: u64, limit: u64) -> (ids: Vec<
    String,
>)
    ensures
        ids.deep_view() == expired_ids(batches.deep_view(), now, limit),
{
    let ghost all = batches.deep_view();
    let mut ids: Vec<String> = Vec::new();
    let mut i: usize = 0;
    proof {
        assert(all.take(0) =~= Seq::<BatchView<A>>::empty());
        assert(ids.deep_view() =~= Seq::<Seq<char>>::empty());
    }
    while i < batches.len()
        invariant
            i <= batches@.len(),
            all == batches.deep_view(),
            ids.deep_view() == expired_ids(all.take(i as int), now, limit),
        decreases batches@.len() - i,
    {
        let ghost before = ids.deep_view();
        assert(all.take(i + 1).drop_last() =~= all.take(i as int));
        assert(all.take(i + 1).last() == batches@[i as int].deep_view());
        if has_expired(batches[i].placed_at, now, limit) {
            push_open_ids(&batches[i].orders, Side::Up, &mut ids);
            push_open_ids(&batches[i].orders, Side::Down, &mut ids);
        }
        assert(ids.deep_view() =~= before + expired_ids_in(all[i as int], now, limit));
        i = i + 1;
    }
    assert(all.take(all.len() as int) =~= all);
    ids
}

/// `batches` without the unmatched orders of expired batches; a batch that has none left is
/// dropped.
pub fn drop_expired<A: Amount>(batches: Vec<PendingBatch<A>>, now: u64, limit: u64) -> (rest: Vec<
    PendingBatch<A>,
>)
    ensures
        rest.deep_view() == unexpired(batches.deep_view(), now, limit),
{
    let ghost all = batches.deep_view();
    let ghost mapped = all.map_values(|batch: BatchView<A>| unexpired_batch(batch, now, limit));
    let ghost wanted = |batch: BatchView<A>| batch.orders.len() > 0;
    let mut rest: Vec<PendingBatch<A>> = Vec::new();
    proof {
        reveal(Seq::filter);
        assert(mapped.take(0) =~= Seq::<BatchView<A>>::empty());
        assert(rest.deep_view() =~= mapped.take(0).filter(wanted));
    }
    for batch in it: batches
        invariant
            it.seq() == batches@,
            all == batches.deep_view(),
            mapped == all.map_values(|batch: BatchView<A>| unexpired_batch(batch, now, limit)),
            wanted == (|batch: BatchView<A>| batch.orders.len() > 0),
            rest.deep_view() == mapped.take(it.index() as int).filter(wanted),
    {
        let ghost before = rest.deep_view();
        let ghost i = it.index() as int;
        proof {
            reveal(Seq::filter);
            assert(mapped.take(i + 1).drop_last() =~= mapped.take(i));
            assert(mapped.take(i + 1).last() == unexpired_batch(batch.deep_view(), now, limit));
        }
        let placed_at: u64 = batch.placed_at;
        let orders: Vec<PendingOrder<A>> = if has_expired(placed_at, now, limit) {
            keep_orders(keep_orders(batch.orders, Side::Up), Side::Down)
        } else {
            batch.orders
        };
        if orders.len() > 0 {
            rest.push(PendingBatch { placed_at, orders });
            assert(rest.deep_view() =~= before.push(mapped[i]));
        }
    }
    assert(mapped.take(mapped.len() as int) =~= mapped);
    rest
}

/// A side is called Up or Down.
pub proof fn sides_have_their_names(side: Side)
    ensures
        side == Side::Up <==> side.name() == "Up"@,
        side == Side::Down <==> side.name() == "Down"@,
{
    reveal_strlit("Up");
    reveal_strlit("Down");
    assert("Up"@.len() != "Down"@.len());
}

} // verus!
