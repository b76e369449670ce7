//! Sums of whole numbers.

use vstd::prelude::*;

verus! {

/// The sum of `values`.
pub open spec fn total(values: Seq<int>) -> int
    decreases values.len(),
{
    if values.len() == 0 {
        0
    } else {
        total(values.drop_last()) + values.last()
    }
}

/// What a sum over one item more comes to.
pub proof fn lemma_total_step<T>(items: Seq<T>, measure: spec_fn(T) -> int)
    requires
        items.len() > 0,
    ensures
        total(items.map_values(measure)) == total(items.drop_last().map_values(measure)) + measure(
            items.last(),
        ),
{
    assert(items.map_values(measure).drop_last() =~= items.drop_last().map_values(measure));
}

/// The sum over two lists, one behind the other, is the sum of their sums.
pub proof fn lemma_total_of_both(left: Seq<int>, right: Seq<int>)
    ensures
        total(left + right) == total(left) + total(right),
    decreases right.len(),
{
    if right.len() == 0 {
        assert(left + right =~= left);
    } else {
        assert((left + right).drop_last() =~= left + right.drop_last());
        lemma_total_of_both(left, right.drop_last());
    }
}

/// A sum of numbers that are not negative is not negative.
pub proof fn lemma_total_not_negative(values: Seq<int>)
    requires
        forall|i: int| 0 <= i < values.len() ==> #[trigger] values[i] >= 0,
    ensures
        total(values) >= 0,
    decreases values.len(),
{
    if values.len() > 0 {
        assert forall|i: int| 0 <= i < values.drop_last().len() implies #[trigger] values.drop_last()[i]
            >= 0 by {
            assert(values[i] >= 0);
        }
        lemma_total_not_negative(values.drop_last());
        assert(values[values.len() - 1] >= 0);
    }
}

} // verus!
