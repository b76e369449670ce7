//! The name under which a market's orders and trades are kept.

use crate::text;
use crate::text::decimal_text;
use vstd::prelude::*;
use vstd::string::*;

verus! {

/// `condition_id`, a colon, and the start of the period.
pub open spec fn market_key_of(condition_id: Seq<char>, period_timestamp: u64) -> Seq<char> {
    condition_id + ":"@ + text::decimal_digits(period_timestamp as nat)
}

/// The key of the market `condition_id` in the period that starts at `period_timestamp`.
pub fn market_key(condition_id: &str, period_timestamp: u64) -> (key: String)
    ensures
        key@ == market_key_of(condition_id@, period_timestamp),
{
    let mut key: String = condition_id.to_owned();
    key.append(":");
    key.append(decimal_text(period_timestamp as u128).as_str());
    key
}

/// Two numbers with the same decimal digits are the same.
pub proof fn lemma_digits_injective(m: nat, n: nat)
    requires
        text::decimal_digits(m) == text::decimal_digits(n),
    ensures
        m == n,
    decreases m,
{
    let left = text::decimal_digits(m);
    let right = text::decimal_digits(n);
    lemma_digit_chars(m);
    lemma_digit_chars(n);
    assert(left.last() == right.last());
    assert(left.last() == text::digit_char(m % 10));
    assert(right.last() == text::digit_char(n % 10));
    assert(text::digit_char(m % 10) as int == 48 + m % 10);
    assert(text::digit_char(n % 10) as int == 48 + n % 10);
    if m < 10 && n < 10 {
    } else if m < 10 {
        lemma_digit_chars(n / 10);
        assert(right.len() > 1);
    } else if n < 10 {
        lemma_digit_chars(m / 10);
        assert(left.len() > 1);
    } else {
        assert(left.drop_last() =~= text::decimal_digits(m / 10));
        assert(right.drop_last() =~= text::decimal_digits(n / 10));
        lemma_digits_injective(m / 10, n / 10);
        assert(m % 10 == n % 10);
    }
}

/// Decimal digits are the characters from `0` to `9`, and there is at least one.
pub proof fn lemma_digit_chars(n: nat)
    ensures
        text::decimal_digits(n).len() > 0,
        forall|i: int|
            0 <= i < text::decimal_digits(n).len() ==> '0' <= #[trigger] text::decimal_digits(n)[i]
                <= '9',
    decreases n,
{
    if n >= 10 {
        lemma_digit_chars(n / 10);
    }
}

/// No two markets share a key, and no two periods of one market do.
pub proof fn market_keys_are_distinct(
    first_id: Seq<char>,
    first_period: u64,
    second_id: Seq<char>,
    second_period: u64,
)
    requires
        market_key_of(first_id, first_period) == market_key_of(second_id, second_period),
    ensures
        first_id == second_id,
        first_period == second_period,
{
    reveal_strlit(":");
    let first = text::decimal_digits(first_period as nat);
    let second = text::decimal_digits(second_period as nat);
    let key = market_key_of(first_id, first_period);
    lemma_digit_chars(first_period as nat);
    lemma_digit_chars(second_period as nat);
    assert(key[first_id.len() as int] == ':');
    assert(key == second_id + ":"@ + second);
    assert(key[second_id.len() as int] == ':');
    if first_id.len() < second_id.len() {
        assert(key[second_id.len() as int] == first[second_id.len() - first_id.len() - 1]);
    } else if second_id.len() < first_id.len() {
        assert(key[first_id.len() as int] == second[first_id.len() - second_id.len() - 1]);
    }
    assert(first_id =~= key.take(first_id.len() as int));
    assert(second_id =~= key.take(first_id.len() as int));
    assert(first =~= key.skip(first_id.len() as int + 1));
    assert(second =~= key.skip(first_id.len() as int + 1));
    lemma_digits_injective(first_period as nat, second_period as nat);
}

/// A key begins with the market's name, and what follows the colon reads as the start of the
/// period.
pub proof fn market_keys_read_back(condition_id: Seq<char>, period_timestamp: u64)
    ensures
        ({
            let key = market_key_of(condition_id, period_timestamp);
            &&& key.take(condition_id.len() as int) == condition_id
            &&& key[condition_id.len() as int] == ':'
            &&& text::number_of(key.skip(condition_id.len() as int + 1)) == period_timestamp
        }),
{
    reveal_strlit(":");
    let key = market_key_of(condition_id, period_timestamp);
    text::decimal_digits_read_back(period_timestamp as nat);
    assert(key.take(condition_id.len() as int) =~= condition_id);
    assert(key.skip(condition_id.len() as int + 1) =~= text::decimal_digits(period_timestamp as nat));
}

} // verus!
