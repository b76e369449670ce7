//! What the exchange says has been bought.

use crate::amount::{Amount, Micros};
use crate::models::Fill;
use crate::orders::Side;
use crate::sums;
use crate::text;
use crate::text::{same_ignoring_ascii_case, same_text, uppercase};
use vstd::prelude::*;

verus! {

/// Whether `fill` is of the outcome called `name`: by its outcome where it has one, else by
/// its token, which must then be `token_id`.
pub open spec fn is_outcome<A>(fill: Fill<A>, name: Seq<char>, token_id: Option<Seq<char>>) -> bool {
    match fill.outcome {
        Some(outcome) => text::ascii_lowered(outcome@) == text::ascii_lowered(name),
        None => fill.token() is Some && token_id == fill.token(),
    }
}

/// The side that `fill` adds to, if any, when its own side reads `direction` in upper case:
/// only buys count, and Up is tried before Down.
pub open spec fn side_of_fill<A>(
    direction: Seq<char>,
    fill: Fill<A>,
    up_token: Option<Seq<char>>,
    down_token: Option<Seq<char>>,
) -> Option<Side> {
    if direction != "BUY"@ {
        None
    } else if is_outcome(fill, "up"@, up_token) {
        Some(Side::Up)
    } else if is_outcome(fill, "down"@, down_token) {
        Some(Side::Down)
    } else {
        None
    }
}

fn outcome_is<A>(fill: &Fill<A>, name: &str, token_id: &Option<String>) -> (answer: bool)
    ensures
        answer == is_outcome(*fill, name@, token_id.deep_view()),
{
    match &fill.outcome {
        Some(outcome) => same_ignoring_ascii_case(outcome.as_str(), name),
        None => match (fill.get_token_id(), token_id) {
            (Some(found), Some(wanted)) => same_text(found.as_str(), wanted.as_str()),
            _ => false,
        },
    }
}

/// The side that `fill` adds to, if any, when its own side reads `direction` in upper case.
pub fn fill_side<A>(
    direction: &str,
    fill: &Fill<A>,
    up_token: &Option<String>,
    down_token: &Option<String>,
) -> (side: Option<Side>)
    ensures
        side == side_of_fill(direction@, *fill, up_token.deep_view(), down_token.deep_view()),
{
    if !same_text(direction, "BUY") {
        None
    } else if outcome_is(fill, "up", up_token) {
        Some(Side::Up)
    } else if outcome_is(fill, "down", down_token) {
        Some(Side::Down)
    } else {
        None
    }
}

/// `fill` is a buy of the order that the exchange calls `id`.
pub open spec fn buys_order<A>(fill: Fill<A>, id: Seq<char>) -> bool {
    text::unicode_uppercase(fill.side@) == "BUY"@ && fill.order_id.deep_view() == Some(id)
}

/// The exchange's names for the orders that have been filled: those with a buy among `fills`.
pub open spec fn bought_ids<A>(fills: Seq<Fill<A>>) -> Set<Seq<char>> {
    Set::new(
        |id: Seq<char>| exists|i: int| 0 <= i < fills.len() && buys_order(#[trigger] fills[i], id),
    )
}

/// On fills whose sides are ASCII text, upper case is that of the ASCII letters.
pub open spec fn raises_ascii_sides<A>(fills: Seq<Fill<A>>) -> bool {
    forall|i: int|
        0 <= i < fills.len() && vstd::utf8::is_ascii_chars((#[trigger] fills[i]).side@)
            ==> text::unicode_uppercase(fills[i].side@) == text::ascii_raised(fills[i].side@)
}

proof fn lemma_raises_one_more<A>(fills: Seq<Fill<A>>, i: int)
    requires
        0 <= i < fills.len(),
        raises_ascii_sides(fills.take(i)),
        vstd::utf8::is_ascii_chars(fills[i].side@) ==> text::unicode_uppercase(fills[i].side@)
            == text::ascii_raised(fills[i].side@),
    ensures
        raises_ascii_sides(fills.take(i + 1)),
{
    let more = fills.take(i + 1);
    assert forall|k: int|
        0 <= k < more.len() && vstd::utf8::is_ascii_chars(
            (#[trigger] more[k]).side@,
        ) implies text::unicode_uppercase(more[k].side@) == text::ascii_raised(more[k].side@) by {
        if k < i {
            assert(fills.take(i)[k] == more[k]);
        }
    }
}

/// The exchange's names for the orders that have been filled.
pub fn bought_order_ids<A>(fills: &Vec<Fill<A>>) -> (ids: Vec<String>)
    ensures
        ids.deep_view().to_set() == bought_ids(fills@),
        raises_ascii_sides(fills@),
{
    let mut ids: Vec<String> = Vec::new();
    let mut i: usize = 0;
    while i < fills.len()
        invariant
            i <= fills@.len(),
            raises_ascii_sides(fills@.take(i as int)),
            forall|id: Seq<char>| #[trigger]
                ids.deep_view().contains(id) <==> exists|j: int|
                    0 <= j < i && buys_order(#[trigger] fills@[j], id),
        decreases fills@.len() - i,
    {
        let ghost before = ids.deep_view();
        let fill: &Fill<A> = &fills[i];
        let direction: String = uppercase(fill.side.as_str());
        if same_text(direction.as_str(), "BUY") {
            if let Some(id) = &fill.order_id {
                ids.push(id.clone());
                assert(ids.deep_view() =~= before.push(id@));
                assert(ids.deep_view()[before.len() as int] == id@);
            }
        }
        proof {
            assert forall|id: Seq<char>| #[trigger]
                ids.deep_view().contains(id) <==> exists|j: int|
                    0 <= j < i + 1 && buys_order(#[trigger] fills@[j], id) by {
                if before.contains(id) {
                    let k = before.index_of(id);
                    assert(ids.deep_view()[k] == id);
                }
                if buys_order(fills@[i as int], id) {
                    assert(ids.deep_view()[before.len() as int] == id);
                }
                if ids.deep_view().contains(id) && !before.contains(id) {
                    let k = ids.deep_view().index_of(id);
                    if k < before.len() {
                        assert(before[k] == id);
                    }
                    assert(buys_order(fills@[i as int], id));
                }
            }
            lemma_raises_one_more(fills@, i as int);
        }
        i = i + 1;
    }
    proof {
        assert(fills@.take(fills@.len() as int) =~= fills@);
        assert forall|id: Seq<char>| #[trigger]
            ids.deep_view().to_set().contains(id) <==> bought_ids(fills@).contains(id) by {
            assert(ids.deep_view().to_set().contains(id) <==> ids.deep_view().contains(id));
        }
        assert(ids.deep_view().to_set() =~= bought_ids(fills@));
    }
    ids
}

/// Shares bought on each side, and what they cost.
#[derive(Clone, Copy, Debug)]
pub struct Position<A> {
    pub up_shares: A,
    pub down_shares: A,
    pub up_cost: A,
    pub down_cost: A,
}

impl<A: Amount> Position<A> {
    /// Nothing bought.
    pub open spec fn none() -> Self {
        Position {
            up_shares: A::decimal(0, 0),
            down_shares: A::decimal(0, 0),
            up_cost: A::decimal(0, 0),
            down_cost: A::decimal(0, 0),
        }
    }

    /// This position and one more fill of `side`.
    pub open spec fn with(self, fill: Fill<A>, side: Option<Side>) -> Self {
        match side {
            Some(Side::Up) => Position {
                up_shares: self.up_shares.sum(fill.size),
                up_cost: self.up_cost.sum(fill.size.product(fill.price)),
                ..self
            },
            Some(Side::Down) => Position {
                down_shares: self.down_shares.sum(fill.size),
                down_cost: self.down_cost.sum(fill.size.product(fill.price)),
                ..self
            },
            None => self,
        }
    }

    /// What was paid for both sides.
    pub open spec fn cost(self) -> A {
        self.up_cost.sum(self.down_cost)
    }

    /// Shares are held on one side at least.
    pub open spec fn is_held(self) -> bool {
        A::decimal(0, 0).is_below(self.up_shares) || A::decimal(0, 0).is_below(self.down_shares)
    }
}

/// What `fills` amount to, taken one after the other.
pub open spec fn position_of<A: Amount>(
    fills: Seq<Fill<A>>,
    up_token: Option<Seq<char>>,
    down_token: Option<Seq<char>>,
) -> Position<A>
    decreases fills.len(),
{
    if fills.len() == 0 {
        Position::none()
    } else {
        let fill = fills.last();
        position_of(fills.drop_last(), up_token, down_token).with(
            fill,
            side_of_fill(text::unicode_uppercase(fill.side@), fill, up_token, down_token),
        )
    }
}

/// What `fills` amount to for a market with the two given tokens.
pub fn position<A: Amount>(
    fills: &Vec<Fill<A>>,
    up_token: &Option<String>,
    down_token: &Option<String>,
) -> (position: Position<A>)
    ensures
        position == position_of(fills@, up_token.deep_view(), down_token.deep_view()),
        raises_ascii_sides(fills@),
{
    let zero: A = A::from_decimal(0, 0);
    let mut position: Position<A> = Position {
        up_shares: zero,
        down_shares: zero,
        up_cost: zero,
        down_cost: zero,
    };
    let mut i: usize = 0;
    assert(fills@.take(0) =~= Seq::<Fill<A>>::empty());
    while i < fills.len()
        invariant
            i <= fills@.len(),
            raises_ascii_sides(fills@.take(i as int)),
            position == position_of(
                fills@.take(i as int),
                up_token.deep_view(),
                down_token.deep_view(),
            ),
        decreases fills@.len() - i,
    {
        let fill: &Fill<A> = &fills[i];
        let direction: String = uppercase(fill.side.as_str());
        let side: Option<Side> = fill_side(direction.as_str(), fill, up_token, down_token);
        position = add_fill(position, fill, side);
        proof {
            assert(fills@.take(i + 1).drop_last() =~= fills@.take(i as int));
            lemma_raises_one_more(fills@, i as int);
        }
        i = i + 1;
    }
    assert(fills@.take(fills@.len() as int) =~= fills@);
    position
}

/// `position` and one more fill of `side`.
pub fn add_fill<A: Amount>(position: Position<A>, fill: &Fill<A>, side: Option<Side>) -> (sum: Position<
    A,
>)
    ensures
        sum == position.with(*fill, side),
{
    let cost: A = fill.size.times(fill.price);
    let mut sum: Position<A> = position;
    match side {
        Some(Side::Up) => {
            sum.up_shares = sum.up_shares.plus(fill.size);
            sum.up_cost = sum.up_cost.plus(cost);
        },
        Some(Side::Down) => {
            sum.down_shares = sum.down_shares.plus(fill.size);
            sum.down_cost = sum.down_cost.plus(cost);
        },
        None => {},
    }
    sum
}

/// Only buys count: a fill of another kind, or of neither side, leaves the position as it is.
pub proof fn only_buys_count<A: Amount>(
    fills: Seq<Fill<A>>,
    fill: Fill<A>,
    up_token: Option<Seq<char>>,
    down_token: Option<Seq<char>>,
)
    requires
        text::unicode_uppercase(fill.side@) != "BUY"@ || !is_outcome(fill, "up"@, up_token)
            && !is_outcome(fill, "down"@, down_token),
    ensures
        position_of(fills.push(fill), up_token, down_token) == position_of(
            fills,
            up_token,
            down_token,
        ),
{
    assert(fills.push(fill).drop_last() =~= fills);
}

/// The shares that a fill adds to `side`, in millionths.
pub open spec fn shares_for(
    side: Side,
    up_token: Option<Seq<char>>,
    down_token: Option<Seq<char>>,
) -> spec_fn(Fill<Micros>) -> int {
    |fill: Fill<Micros>|
        if side_of_fill(text::unicode_uppercase(fill.side@), fill, up_token, down_token) == Some(
            side,
        ) {
            fill.size.units as int
        } else {
            0
        }
}

/// What a fill adds to the cost of `side`, in millionths: size times price.
pub open spec fn cost_for(
    side: Side,
    up_token: Option<Seq<char>>,
    down_token: Option<Seq<char>>,
) -> spec_fn(Fill<Micros>) -> int {
    |fill: Fill<Micros>|
        if side_of_fill(text::unicode_uppercase(fill.side@), fill, up_token, down_token) == Some(
            side,
        ) {
            fill.size.product(fill.price).units as int
        } else {
            0
        }
}

/// No fill makes a position of nothing.
pub proof fn no_fills_hold_nothing(up_token: Option<Seq<char>>, down_token: Option<Seq<char>>)
    ensures
        ({
            let position = position_of(Seq::<Fill<Micros>>::empty(), up_token, down_token);
            &&& position.up_shares.units == 0
            &&& position.down_shares.units == 0
            &&& position.up_cost.units == 0
            &&& position.down_cost.units == 0
        }),
{
    reveal_with_fuel(crate::amount::pow10, 1);
}

/// With exact amounts in range, a further buy of a side raises its shares by the fill's size
/// and its cost by size times price, and leaves the other side alone; any other fill changes
/// nothing.
pub proof fn a_further_fill_adds_to_its_side(
    fills: Seq<Fill<Micros>>,
    fill: Fill<Micros>,
    up_token: Option<Seq<char>>,
    down_token: Option<Seq<char>>,
)
    ensures
        ({
            let before = position_of(fills, up_token, down_token);
            let after = position_of(fills.push(fill), up_token, down_token);
            let side = side_of_fill(
                text::unicode_uppercase(fill.side@),
                fill,
                up_token,
                down_token,
            );
            let (size, cost) = (fill.size.units, fill.size.product(fill.price).units);
            &&& side == Some(Side::Up) && i64::MIN <= before.up_shares.units + size <= i64::MAX
                ==> after.up_shares.units == before.up_shares.units + size
            &&& side == Some(Side::Up) && i64::MIN <= before.up_cost.units + cost <= i64::MAX
                ==> after.up_cost.units == before.up_cost.units + cost
            &&& side == Some(Side::Down) && i64::MIN <= before.down_shares.units + size <= i64::MAX
                ==> after.down_shares.units == before.down_shares.units + size
            &&& side == Some(Side::Down) && i64::MIN <= before.down_cost.units + cost <= i64::MAX
                ==> after.down_cost.units == before.down_cost.units + cost
            &&& side != Some(Side::Up) ==> after.up_shares == before.up_shares && after.up_cost
                == before.up_cost
            &&& side != Some(Side::Down) ==> after.down_shares == before.down_shares
                && after.down_cost == before.down_cost
        }),
{
    assert(fills.push(fill).drop_last() =~= fills);
}

/// Size and price of every fill are not negative.
pub open spec fn fills_not_negative(fills: Seq<Fill<Micros>>) -> bool {
    forall|i: int|
        0 <= i < fills.len() ==> (#[trigger] fills[i]).size.units >= 0 && fills[i].price.units >= 0
}

proof fn lemma_fill_measures(
    fills: Seq<Fill<Micros>>,
    side: Side,
    up_token: Option<Seq<char>>,
    down_token: Option<Seq<char>>,
)
    requires
        fills_not_negative(fills),
    ensures
        sums::total(fills.map_values(shares_for(side, up_token, down_token))) >= 0,
        sums::total(fills.map_values(cost_for(side, up_token, down_token))) >= 0,
{
    let shares = fills.map_values(shares_for(side, up_token, down_token));
    let costs = fills.map_values(cost_for(side, up_token, down_token));
    assert forall|i: int| 0 <= i < shares.len() implies #[trigger] shares[i] >= 0 by {
        assert(fills[i].size.units >= 0);
    }
    assert forall|i: int| 0 <= i < costs.len() implies #[trigger] costs[i] >= 0 by {
        let (z, p) = (fills[i].size.units as int, fills[i].price.units as int);
        assert(z * p >= 0) by (nonlinear_arith)
            requires
                z >= 0,
                p >= 0,
        ;
    }
    sums::lemma_total_not_negative(shares);
    sums::lemma_total_not_negative(costs);
}

/// With exact amounts in range, the position that fills make has on each side the sum of the
/// sizes of the buys of that side, and the sum of size times price of them.
pub proof fn fills_add_up(
    fills: Seq<Fill<Micros>>,
    up_token: Option<Seq<char>>,
    down_token: Option<Seq<char>>,
)
    requires
        fills_not_negative(fills),
        sums::total(fills.map_values(shares_for(Side::Up, up_token, down_token))) <= i64::MAX,
        sums::total(fills.map_values(shares_for(Side::Down, up_token, down_token))) <= i64::MAX,
        sums::total(fills.map_values(cost_for(Side::Up, up_token, down_token))) <= i64::MAX,
        sums::total(fills.map_values(cost_for(Side::Down, up_token, down_token))) <= i64::MAX,
    ensures
        ({
            let position = position_of(fills, up_token, down_token);
            &&& position.up_shares.units == sums::total(
                fills.map_values(shares_for(Side::Up, up_token, down_token)),
            )
            &&& position.down_shares.units == sums::total(
                fills.map_values(shares_for(Side::Down, up_token, down_token)),
            )
            &&& position.up_cost.units == sums::total(
                fills.map_values(cost_for(Side::Up, up_token, down_token)),
            )
            &&& position.down_cost.units == sums::total(
                fills.map_values(cost_for(Side::Down, up_token, down_token)),
            )
        }),
    decreases fills.len(),
{
    if fills.len() == 0 {
        assert(fills =~= Seq::<Fill<Micros>>::empty());
        no_fills_hold_nothing(up_token, down_token);
    } else {
        let rest = fills.drop_last();
        let last = fills.last();
        assert forall|i: int| 0 <= i < rest.len() implies (#[trigger] rest[i]).size.units >= 0
            && rest[i].price.units >= 0 by {
            assert(rest[i] == fills[i]);
        }
        assert(fills[fills.len() - 1].size.units >= 0 && fills[fills.len() - 1].price.units >= 0);
        let (z, p) = (last.size.units as int, last.price.units as int);
        assert(z * p >= 0) by (nonlinear_arith)
            requires
                z >= 0,
                p >= 0,
        ;
        sums::lemma_total_step(fills, shares_for(Side::Up, up_token, down_token));
        sums::lemma_total_step(fills, shares_for(Side::Down, up_token, down_token));
        sums::lemma_total_step(fills, cost_for(Side::Up, up_token, down_token));
        sums::lemma_total_step(fills, cost_for(Side::Down, up_token, down_token));
        lemma_fill_measures(rest, Side::Up, up_token, down_token);
        lemma_fill_measures(rest, Side::Down, up_token, down_token);
        fills_add_up(rest, up_token, down_token);
        assert(rest.push(last) =~= fills);
        a_further_fill_adds_to_its_side(rest, last, up_token, down_token);
    }
}

/// A fill goes to a side only if it is a buy. Where it names an outcome, that decides: "up" or
/// "down", in any case. Where it names none, its token decides, or else its asset: that of Up
/// first, then that of Down.
pub proof fn fills_go_to_the_side_they_name<A>(
    fill: Fill<A>,
    up_token: Option<Seq<char>>,
    down_token: Option<Seq<char>>,
)
    ensures
        ({
            let direction = text::unicode_uppercase(fill.side@);
            let side = side_of_fill(direction, fill, up_token, down_token);
            let token: Option<Seq<char>> = if fill.token_id is Some {
                Some(fill.token_id->0@)
            } else if fill.asset is Some {
                Some(fill.asset->0@)
            } else {
                None
            };
            &&& direction != "BUY"@ ==> side is None
            &&& direction == "BUY"@ && fill.outcome is Some ==> {
                let outcome = text::ascii_lowered(fill.outcome->0@);
                &&& side == Some(Side::Up) <==> outcome == seq!['u', 'p']
                &&& side == Some(Side::Down) <==> outcome == seq!['d', 'o', 'w', 'n']
            }
            &&& direction == "BUY"@ && fill.outcome is None ==> {
                &&& side == Some(Side::Up) <==> token is Some && up_token == token
                &&& side == Some(Side::Down) <==> token is Some && up_token != token && down_token
                    == token
            }
        }),
{
    reveal_strlit("up");
    reveal_strlit("down");
    assert(text::ascii_lowered("up"@) =~= seq!['u', 'p']);
    assert(text::ascii_lowered("down"@) =~= seq!['d', 'o', 'w', 'n']);
    assert(seq!['u', 'p'].len() != seq!['d', 'o', 'w', 'n'].len());
}

/// The orders that fills confirm are those that a buy among them names.
pub proof fn buys_confirm_the_orders_they_name<A>(fills: Seq<Fill<A>>, id: Seq<char>)
    ensures
        bought_ids(fills).contains(id) <==> exists|i: int|
            0 <= i < fills.len() && text::unicode_uppercase((#[trigger] fills[i]).side@) == "BUY"@
                && fills[i].order_id is Some && fills[i].order_id->0@ == id,
{
    if bought_ids(fills).contains(id) {
        let i = choose|i: int| 0 <= i < fills.len() && buys_order(#[trigger] fills[i], id);
        assert(fills[i].order_id->0@ == id);
    }
    if exists|i: int|
        0 <= i < fills.len() && text::unicode_uppercase((#[trigger] fills[i]).side@) == "BUY"@
            && fills[i].order_id is Some && fills[i].order_id->0@ == id {
        let i = choose|i: int|
            0 <= i < fills.len() && text::unicode_uppercase((#[trigger] fills[i]).side@) == "BUY"@
                && fills[i].order_id is Some && fills[i].order_id->0@ == id;
        assert(buys_order(fills[i], id));
    }
}

} // verus!
