//! Weighted selection: one entry of a list, drawn in proportion to its
//! weight.
use vstd::prelude::*;
use crate::fixed::{lemma_div_unique, Fixed};

verus! {

/// The exact sum of the first `n` weights of `list`.
pub open spec fn prefix_weight<T>(list: Seq<(T, Fixed)>, n: nat) -> int
    decreases n,
{
    if n == 0 {
        0
    } else {
        prefix_weight(list, (n - 1) as nat) + list[n - 1].1 as int
    }
}

/// The exact sum of all weights of `list`.
pub open spec fn total_weight<T>(list: Seq<(T, Fixed)>) -> int {
    prefix_weight(list, list.len())
}

/// The draw `random`, a fixed-point number in `[0, 1)`, scaled by `total` and
/// rounded down.
pub open spec fn scaled_draw(total: int, random: int) -> int {
    (total * random) / 16777216
}

/// The first index, from `from` on, at which the running sum of the weights
/// is above `target`; the length of the list if there is none.
pub open spec fn first_exceeding<T>(list: Seq<(T, Fixed)>, target: int, from: nat) -> nat
    decreases list.len() - from,
{
    if from >= list.len() {
        list.len()
    } else if prefix_weight(list, from + 1) > target {
        from
    } else {
        first_exceeding(list, target, from + 1)
    }
}

/// The index that the draw `random` selects: the first entry if the total
/// weight is not positive, else the first entry at which the running sum is
/// above the scaled draw.
pub open spec fn weighted_index_spec<T>(list: Seq<(T, Fixed)>, random: int) -> nat {
    let total = total_weight(list);
    if total <= 0 {
        0
    } else {
        first_exceeding(list, scaled_draw(total, random), 0)
    }
}

/// A running sum of `n` weights lies within `n` times the 64-bit range.
pub proof fn lemma_prefix_weight_bound<T>(list: Seq<(T, Fixed)>, n: nat)
    requires
        n <= list.len(),
    ensures
        -n * 0x8000_0000_0000_0000 <= prefix_weight(list, n) <= n * 0x8000_0000_0000_0000,
    decreases n,
{
    if n > 0 {
        lemma_prefix_weight_bound(list, (n - 1) as nat);
    }
}

/// A draw below 1 scales to a target below a positive total.
pub proof fn lemma_scaled_draw_below_total(total: int, random: int)
    requires
        total > 0,
        0 <= random < 16777216,
    ensures
        0 <= scaled_draw(total, random) < total,
{
    assert(0 <= total * random < total * 16777216) by (nonlinear_arith)
        requires
            total > 0,
            0 <= random < 16777216,
    ;
    let q = (total * random) / 16777216;
    assert(total * random == 16777216 * q + (total * random) % 16777216) by {
        vstd::arithmetic::div_mod::lemma_fundamental_div_mod(total * random, 16777216);
    }
}

/// Where the running sum ends above the target, some entry is selected, the
/// running sum is above the target there, and at no entry before it from
/// `from` on.
pub proof fn lemma_first_exceeding<T>(list: Seq<(T, Fixed)>, target: int, from: nat)
    requires
        from < list.len(),
        total_weight(list) > target,
    ensures
        from <= first_exceeding(list, target, from) < list.len(),
        prefix_weight(list, first_exceeding(list, target, from) + 1) > target,
        forall|k: int|
            from <= k < first_exceeding(list, target, from) ==> #[trigger] prefix_weight(
                list,
                (k + 1) as nat,
            ) <= target,
    decreases list.len() - from,
{
    if prefix_weight(list, from + 1) > target {
    } else {
        assert(from + 1 < list.len());
        lemma_first_exceeding(list, target, from + 1);
    }
}

/// The selected index is an index of the list.
pub proof fn lemma_weighted_index_in_range<T>(list: Seq<(T, Fixed)>, random: int)
    requires
        list.len() > 0,
        0 <= random < 16777216,
    ensures
        weighted_index_spec(list, random) < list.len(),
{
    let total = total_weight(list);
    if total > 0 {
        lemma_scaled_draw_below_total(total, random);
        lemma_first_exceeding(list, scaled_draw(total, random), 0);
    }
}

/// With weights that are not negative and a positive total, the draw 0
/// selects the first entry whose weight is positive.
pub proof fn lemma_zero_draw_selects_first_positive<T>(list: Seq<(T, Fixed)>)
    requires
        forall|k: int| 0 <= k < list.len() ==> (#[trigger] list[k]).1 >= 0,
        total_weight(list) > 0,
    ensures
        weighted_index_spec(list, 0) < list.len(),
        list[weighted_index_spec(list, 0) as int].1 > 0,
        forall|k: int| 0 <= k < weighted_index_spec(list, 0) ==> (#[trigger] list[k]).1 == 0,
{
    let total = total_weight(list);
    assert(total * 0 == 0) by (nonlinear_arith);
    assert(scaled_draw(total, 0) == 0);
    lemma_first_exceeding(list, 0, 0);
    let index = first_exceeding(list, 0, 0);
    lemma_zero_prefix(list, index);
}

/// With weights that are not negative and a positive total, the selected
/// entry has a positive weight, whatever the draw in `[0, 1)`.
pub proof fn lemma_selected_has_weight<T>(list: Seq<(T, Fixed)>, random: int)
    requires
        forall|k: int| 0 <= k < list.len() ==> (#[trigger] list[k]).1 >= 0,
        total_weight(list) > 0,
        0 <= random < 16777216,
    ensures
        weighted_index_spec(list, random) < list.len(),
        list[weighted_index_spec(list, random) as int].1 > 0,
{
    let total = total_weight(list);
    let target = scaled_draw(total, random);
    lemma_scaled_draw_below_total(total, random);
    lemma_first_exceeding(list, target, 0);
    let index = first_exceeding(list, target, 0);
    assert(prefix_weight(list, index + 1) == prefix_weight(list, index) + list[index as int].1);
    if index > 0 {
        assert(prefix_weight(list, ((index - 1) + 1) as nat) <= target);
    }
}

/// Weights that are not negative and have no positive total are all zero.
pub proof fn lemma_zero_total<T>(list: Seq<(T, Fixed)>)
    requires
        forall|k: int| 0 <= k < list.len() ==> (#[trigger] list[k]).1 >= 0,
        total_weight(list) <= 0,
    ensures
        forall|k: int| 0 <= k < list.len() ==> (#[trigger] list[k]).1 == 0,
{
    assert forall|k: int| 0 <= k < list.len() implies #[trigger] prefix_weight(
        list,
        (k + 1) as nat,
    ) <= 0 by {
        lemma_prefix_weight_grows(list, (k + 1) as nat, list.len());
    }
    lemma_zero_prefix(list, list.len());
}

/// Where no running sum up to `n` is positive and no weight is negative, the
/// first `n` weights are zero and the running sum after them is zero.
proof fn lemma_zero_prefix<T>(list: Seq<(T, Fixed)>, n: nat)
    requires
        n <= list.len(),
        forall|k: int| 0 <= k < list.len() ==> (#[trigger] list[k]).1 >= 0,
        forall|k: int| 0 <= k < n ==> #[trigger] prefix_weight(list, (k + 1) as nat) <= 0,
    ensures
        prefix_weight(list, n) == 0,
        forall|k: int| 0 <= k < n ==> (#[trigger] list[k]).1 == 0,
    decreases n,
{
    if n > 0 {
        lemma_zero_prefix(list, (n - 1) as nat);
        assert(prefix_weight(list, ((n - 1) + 1) as nat) <= 0);
    }
}

/// With weights that are not negative, a draw so high that its scaled value
/// is not below any running sum short of the total selects the first entry at
/// which the running sum reaches the total: the last entry of positive
/// weight, not one of weight zero behind it.
pub proof fn lemma_high_draw_reaches_total<T>(list: Seq<(T, Fixed)>, random: int)
    requires
        forall|k: int| 0 <= k < list.len() ==> (#[trigger] list[k]).1 >= 0,
        total_weight(list) > 0,
        0 <= random < 16777216,
        forall|k: int|
            0 <= k < list.len() && #[trigger] prefix_weight(list, (k + 1) as nat) < total_weight(
                list,
            ) ==> prefix_weight(list, (k + 1) as nat) <= scaled_draw(total_weight(list), random),
    ensures
        weighted_index_spec(list, random) < list.len(),
        prefix_weight(list, weighted_index_spec(list, random) + 1) == total_weight(list),
        list[weighted_index_spec(list, random) as int].1 > 0,
        forall|k: int|
            0 <= k < weighted_index_spec(list, random) ==> #[trigger] prefix_weight(
                list,
                (k + 1) as nat,
            ) < total_weight(list),
{
    let total = total_weight(list);
    let target = scaled_draw(total, random);
    lemma_scaled_draw_below_total(total, random);
    lemma_first_exceeding(list, target, 0);
    let index = first_exceeding(list, target, 0);
    lemma_prefix_weight_grows(list, index + 1, list.len());
    lemma_selected_has_weight(list, random);
}

/// With weights that are not negative and a total of at most 1, the highest
/// draw selects an entry at which the running sum has reached the total: after
/// it come only entries of weight zero.
pub proof fn lemma_top_draw_reaches_total<T>(list: Seq<(T, Fixed)>)
    requires
        forall|k: int| 0 <= k < list.len() ==> (#[trigger] list[k]).1 >= 0,
        0 < total_weight(list) <= 16777216,
    ensures
        weighted_index_spec(list, 16777215) < list.len(),
        prefix_weight(list, weighted_index_spec(list, 16777215) + 1) == total_weight(list),
{
    let total = total_weight(list);
    let target = scaled_draw(total, 16777215);
    assert(total * 16777215 == (total - 1) * 16777216 + (16777216 - total)) by (nonlinear_arith);
    lemma_div_unique(total * 16777215, 16777216, total - 1, 16777216 - total);
    assert(target == total - 1);
    lemma_first_exceeding(list, target, 0);
    let index = first_exceeding(list, target, 0);
    lemma_prefix_weight_grows(list, index + 1, list.len());
}

/// A running sum of weights that are not negative does not shrink.
pub proof fn lemma_prefix_weight_grows<T>(list: Seq<(T, Fixed)>, m: nat, n: nat)
    requires
        m <= n <= list.len(),
        forall|k: int| 0 <= k < list.len() ==> (#[trigger] list[k]).1 >= 0,
    ensures
        0 <= prefix_weight(list, m) <= prefix_weight(list, n),
    decreases n,
{
    if m < n {
        lemma_prefix_weight_grows(list, m, (n - 1) as nat);
    } else if n > 0 {
        lemma_prefix_weight_grows(list, (m - 1) as nat, (n - 1) as nat);
    }
}

/// Where the total weight is not positive, the first entry is selected,
/// whatever the draw.
pub proof fn lemma_degenerate_selects_first<T>(list: Seq<(T, Fixed)>, random: int)
    requires
        total_weight(list) <= 0,
    ensures
        weighted_index_spec(list, random) == 0,
{
}

/// The exact sum of the weights of `list`.
pub fn sum_weights<T>(list: &Vec<(T, Fixed)>) -> (total: i128)
    ensures
        total as int == total_weight(list@),
{
    let mut total: i128 = 0;
    let mut k: usize = 0;
    while k < list.len()
        invariant
            k <= list@.len(),
            total as int == prefix_weight(list@, k as nat),
        decreases list@.len() - k,
    {
        proof {
            lemma_prefix_weight_bound(list@, k as nat);
        }
        total = total + list[k].1 as i128;
        k = k + 1;
    }
    total
}

/// The draw scaled by a positive total.
fn scale_draw(total: i128, random: Fixed) -> (target: i128)
    requires
        total > 0,
        0 <= random < 16777216,
    ensures
        target as int == scaled_draw(total as int, random as int),
        0 <= target < total,
{
    let q: i128 = total / 16777216;
    let r: i128 = total % 16777216;
    proof {
        assert(0 <= q * random <= q * 16777216) by (nonlinear_arith)
            requires
                q >= 0,
                0 <= random < 16777216,
        ;
        assert(0 <= r * random <= 16777216 * 16777216) by (nonlinear_arith)
            requires
                0 <= r < 16777216,
                0 <= random < 16777216,
        ;
    }
    let whole: i128 = q * (random as i128);
    let part: i128 = (r * (random as i128)) / 16777216;
    proof {
        let rest = (r * random) % 16777216;
        assert(total * random == (whole + part) * 16777216 + rest) by (nonlinear_arith)
            requires
                total == q * 16777216 + r,
                whole == q * random,
                r * random == part * 16777216 + rest,
        ;
        lemma_div_unique(total as int * random as int, 16777216, whole as int + part as int, rest as int);
        lemma_scaled_draw_below_total(total as int, random as int);
    }
    whole + part
}

/// The index that the draw selects.
pub fn weighted_index<T>(list: &Vec<(T, Fixed)>, random: Fixed) -> (index: usize)
    requires
        list@.len() > 0,
        total_weight(list@) <= 0 || 0 <= random < 16777216,
    ensures
        index as nat == weighted_index_spec(list@, random as int),
        index < list@.len(),
{
    let total = sum_weights(list);
    if total <= 0 {
        return 0;
    }
    let target = scale_draw(total, random);
    proof {
        lemma_first_exceeding(list@, target as int, 0);
    }
    let mut running: i128 = 0;
    let mut k: usize = 0;
    while k < list.len()
        invariant
            k <= list@.len(),
            running as int == prefix_weight(list@, k as nat),
            total as int == total_weight(list@),
            0 < total,
            target as int == scaled_draw(total as int, random as int),
            first_exceeding(list@, target as int, k as nat) == first_exceeding(list@, target as int, 0),
            first_exceeding(list@, target as int, 0) < list@.len(),
        decreases list@.len() - k,
    {
        proof {
            lemma_prefix_weight_bound(list@, k as nat);
        }
        running = running + list[k].1 as i128;
        assert(running as int == prefix_weight(list@, (k + 1) as nat));
        if running > target {
            return k;
        }
        k = k + 1;
    }
    vstd::pervasive::unreached()
}

/// Draws one entry of `list` in proportion to its weight, and gives its
/// value. The weights need not add up to 1.
///
/// If the total weight is not positive, the first entry is taken, whatever
/// the draw. Else the draw `random`, which then lies in `[0, 1)`, is scaled by
/// the total, and the entry is the first at which the running sum of the
/// weights is above the scaled draw.
pub fn weighted_random<T: Copy>(list: Vec<(T, Fixed)>, random: Fixed) -> (value: T)
    requires
        list@.len() > 0,
        total_weight(list@) <= 0 || 0 <= random < 16777216,
    ensures
        value == list@[weighted_index_spec(list@, random as int) as int].0,
{
    let index = weighted_index(&list, random);
    list[index].0
}

} // verus!
