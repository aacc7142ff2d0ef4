//! Laws of the blend between layers: where its blocks come from, when it is
//! empty, and how a layer fades out towards its boundary.
use vstd::prelude::*;
use crate::fixed::{lemma_mul_up_sign, Fixed};
use crate::layer::{
    blend_spec, candidates_spec, combined_spec, distance_spec, dominance_spec, ends_after,
    leftover_spec, lemma_leftover, normalized, palette_has, quota_spec, quotas_sum,
    scaled_palette, share_spec, starts_before, top_index, Layer,
};
use crate::random::{
    lemma_prefix_weight_grows, lemma_selected_has_weight, lemma_zero_total, prefix_weight,
    total_weight,
};

use crate::game_rules::select_spec;

verus! {

/// Whether some layer whose range holds `depth` has the block `id` in its
/// palette.
pub open spec fn offered_at(layers: Seq<Layer>, depth: int, id: u16) -> bool {
    exists|i: int|
        0 <= i < layers.len() && (#[trigger] layers[i]).contains_spec(depth) && palette_has(
            layers[i].palette(),
            id,
        )
}

/// Whether layer `i + 1` starts above layer `i`, ends above it, and starts no
/// higher than layer `i` ends.
pub open spec fn steps_up(layers: Seq<Layer>, i: int) -> bool {
    &&& starts_before(layers[i], layers[i + 1])
    &&& ends_after(layers[i + 1], layers[i])
    &&& layers[i + 1].start.unwrap() <= layers[i].end.unwrap()
}

/// Layers that climb like a staircase: the first is open below, the last is
/// open above, each next one starts and ends above the one before and leaves
/// no gap to it, and no palette is empty.
pub open spec fn staircase(layers: Seq<Layer>) -> bool {
    &&& 0 < layers.len() <= usize::MAX
    &&& layers[0].start is None
    &&& layers[layers.len() - 1].end is None
    &&& forall|i: int| 0 <= i < layers.len() ==> (#[trigger] layers[i]).palette().len() > 0
    &&& forall|i: int| 0 <= i < layers.len() - 1 ==> #[trigger] steps_up(layers, i)
}

/// The candidates at a depth are the layers that hold it, each once, in
/// rising order.
pub proof fn lemma_candidates(layers: Seq<Layer>, depth: int, n: nat)
    requires
        n <= layers.len() <= usize::MAX,
    ensures
        forall|k: int|
            0 <= k < candidates_spec(layers, depth, n).len() ==> {
                &&& (#[trigger] candidates_spec(layers, depth, n)[k]) < n
                &&& layers[candidates_spec(layers, depth, n)[k] as int].contains_spec(depth)
            },
        forall|j: int, k: int|
            0 <= j < k < candidates_spec(layers, depth, n).len() ==> (
            #[trigger] candidates_spec(layers, depth, n)[j]) < (#[trigger] candidates_spec(
                layers,
                depth,
                n,
            )[k]),
        forall|i: int|
            0 <= i < n && (#[trigger] layers[i]).contains_spec(depth) ==> candidates_spec(
                layers,
                depth,
                n,
            ).contains(i as usize),
    decreases n,
{
    if n > 0 {
        lemma_candidates(layers, depth, (n - 1) as nat);
        let rest = candidates_spec(layers, depth, (n - 1) as nat);
        let cands = candidates_spec(layers, depth, n);
        assert forall|i: int| 0 <= i < n && (#[trigger] layers[i]).contains_spec(
            depth,
        ) implies cands.contains(i as usize) by {
            if i == n - 1 {
                assert(cands[cands.len() - 1] == i as usize);
            } else {
                assert(rest.contains(i as usize));
                let k = choose|k: int| 0 <= k < rest.len() && rest[k] == i as usize;
                assert(cands[k] == i as usize);
            }
        }
    }
}

/// Every entry of a share is an entry of the candidate's palette, with
/// another weight.
pub proof fn lemma_combined_origin(layers: Seq<Layer>, cands: Seq<usize>, depth: int, n: nat, k: int)
    requires
        n <= cands.len(),
        0 <= k < combined_spec(layers, cands, depth, n).len(),
    ensures
        exists|a: int|
            0 <= a < n && palette_has(
                layers[#[trigger] cands[a] as int].palette(),
                combined_spec(layers, cands, depth, n)[k].0,
            ),
    decreases n,
{
    let before = combined_spec(layers, cands, depth, (n - 1) as nat);
    if k < before.len() {
        lemma_combined_origin(layers, cands, depth, (n - 1) as nat, k);
        let a = choose|a: int|
            0 <= a < n - 1 && palette_has(layers[#[trigger] cands[a] as int].palette(), before[k].0);
        assert(palette_has(
            layers[cands[a] as int].palette(),
            combined_spec(layers, cands, depth, n)[k].0,
        ));
    } else {
        let share = share_spec(layers, cands, n - 1, depth);
        let palette = layers[cands[n - 1] as int].palette();
        let at = k - before.len();
        assert(combined_spec(layers, cands, depth, n)[k] == share[at]);
        assert(palette[at].0 == share[at].0);
        assert(palette_has(palette, share[at].0));
    }
}

/// Every block of the blend at a depth is offered there: it stands in the
/// palette of a layer whose range holds the depth.
pub proof fn lemma_blend_origin(layers: Seq<Layer>, depth: int, k: int)
    requires
        layers.len() <= usize::MAX,
        0 <= k < blend_spec(layers, depth).len(),
    ensures
        offered_at(layers, depth, blend_spec(layers, depth)[k].0),
{
    let cands = candidates_spec(layers, depth, layers.len());
    lemma_candidates(layers, depth, layers.len());
    if cands.len() == 1 {
        let i = cands[0] as int;
        assert(layers[i].contains_spec(depth));
        assert(layers[i].palette()[k].0 == blend_spec(layers, depth)[k].0);
    } else {
        lemma_combined_origin(layers, cands, depth, cands.len(), k);
        let a = choose|a: int|
            0 <= a < cands.len() && palette_has(
                layers[#[trigger] cands[a] as int].palette(),
                combined_spec(layers, cands, depth, cands.len())[k].0,
            );
        let i = cands[a] as int;
        assert(layers[i].contains_spec(depth));
    }
}

/// Where the range of one layer alone holds the depth, every block of the
/// blend is a block of that layer's palette.
pub proof fn lemma_single_layer_containment(layers: Seq<Layer>, depth: int, i: int, k: int)
    requires
        layers.len() <= usize::MAX,
        0 <= i < layers.len(),
        layers[i].contains_spec(depth),
        forall|j: int| 0 <= j < layers.len() && j != i ==> !(#[trigger] layers[j]).contains_spec(depth),
        0 <= k < blend_spec(layers, depth).len(),
    ensures
        palette_has(layers[i].palette(), blend_spec(layers, depth)[k].0),
{
    lemma_blend_origin(layers, depth, k);
}

/// In a staircase, a later layer starts and ends above an earlier one.
pub proof fn lemma_staircase_order(layers: Seq<Layer>, i: int, j: int)
    requires
        staircase(layers),
        0 <= i < j < layers.len(),
    ensures
        starts_before(layers[i], layers[j]),
        ends_after(layers[j], layers[i]),
    decreases j - i,
{
    assert(steps_up(layers, j - 1));
    if i < j - 1 {
        lemma_staircase_order(layers, i, j - 1);
    }
}

/// In a staircase, every depth that is not above the end of layer `k` lies in
/// the range of some layer up to `k`.
pub proof fn lemma_staircase_covers(layers: Seq<Layer>, depth: int, k: int)
    requires
        staircase(layers),
        0 <= k < layers.len(),
        layers[k].end is None || depth <= layers[k].end.unwrap(),
    ensures
        exists|i: int| 0 <= i <= k && (#[trigger] layers[i]).contains_spec(depth),
    decreases k,
{
    if layers[k].start is None || layers[k].start.unwrap() <= depth {
        assert(layers[k].contains_spec(depth));
    } else {
        assert(k > 0);
        assert(steps_up(layers, k - 1));
        lemma_staircase_covers(layers, depth, k - 1);
        let i = choose|i: int| 0 <= i <= k - 1 && (#[trigger] layers[i]).contains_spec(depth);
        assert(layers[i].contains_spec(depth));
    }
}

/// A candidate with a competitor that gives it a distance has a dominance,
/// and that is at most the distance.
pub proof fn lemma_dominance_at_most(layers: Seq<Layer>, cands: Seq<usize>, a: int, depth: int, n: nat, b: int)
    requires
        0 <= b < n,
        b != a,
        distance_spec(layers[cands[a] as int], layers[cands[b] as int], depth) is Some,
    ensures
        dominance_spec(layers, cands, a, depth, n) is Some,
        dominance_spec(layers, cands, a, depth, n).unwrap() <= distance_spec(
            layers[cands[a] as int],
            layers[cands[b] as int],
            depth,
        ).unwrap(),
    decreases n,
{
    if n - 1 != b {
        lemma_dominance_at_most(layers, cands, a, depth, (n - 1) as nat, b);
    }
}

/// Inside its layer, a candidate's distances are not negative, and neither is
/// its dominance.
pub proof fn lemma_dominance_not_negative(layers: Seq<Layer>, cands: Seq<usize>, a: int, depth: int, n: nat)
    requires
        i64::MIN <= depth <= i64::MAX,
        layers[cands[a] as int].contains_spec(depth),
    ensures
        dominance_spec(layers, cands, a, depth, n) is Some ==> dominance_spec(
            layers,
            cands,
            a,
            depth,
            n,
        ).unwrap() >= 0,
    decreases n,
{
    if n > 0 {
        lemma_dominance_not_negative(layers, cands, a, depth, (n - 1) as nat);
    }
}

/// Boundary continuity at the start of a layer: where a competitor starts
/// below the candidate, the candidate's dominance is at most the distance of
/// the depth from the candidate's start, and not negative. So it goes to zero
/// as the depth goes to that boundary, and is zero on it.
pub proof fn lemma_dominance_fades_at_start(layers: Seq<Layer>, cands: Seq<usize>, a: int, b: int, depth: int)
    requires
        i64::MIN <= depth <= i64::MAX,
        0 <= a < cands.len(),
        0 <= b < cands.len(),
        a != b,
        layers[cands[a] as int].contains_spec(depth),
        starts_before(layers[cands[b] as int], layers[cands[a] as int]),
    ensures
        dominance_spec(layers, cands, a, depth, cands.len()) is Some,
        0 <= dominance_spec(layers, cands, a, depth, cands.len()).unwrap() <= depth
            - layers[cands[a] as int].start.unwrap(),
{
    lemma_dominance_at_most(layers, cands, a, depth, cands.len(), b);
    lemma_dominance_not_negative(layers, cands, a, depth, cands.len());
}

/// Boundary continuity at the end of a layer: where a competitor ends above
/// the candidate and does not start below it, the candidate's dominance is at
/// most the distance of the depth from the candidate's end, and not negative.
pub proof fn lemma_dominance_fades_at_end(layers: Seq<Layer>, cands: Seq<usize>, a: int, b: int, depth: int)
    requires
        i64::MIN <= depth <= i64::MAX,
        0 <= a < cands.len(),
        0 <= b < cands.len(),
        a != b,
        layers[cands[a] as int].contains_spec(depth),
        !starts_before(layers[cands[b] as int], layers[cands[a] as int]),
        ends_after(layers[cands[b] as int], layers[cands[a] as int]),
    ensures
        dominance_spec(layers, cands, a, depth, cands.len()) is Some,
        0 <= dominance_spec(layers, cands, a, depth, cands.len()).unwrap()
            <= layers[cands[a] as int].end.unwrap() - depth,
{
    lemma_dominance_at_most(layers, cands, a, depth, cands.len(), b);
    lemma_dominance_not_negative(layers, cands, a, depth, cands.len());
}

/// The shares of the first `n` candidates hold the share of each of them.
pub proof fn lemma_combined_len(layers: Seq<Layer>, cands: Seq<usize>, depth: int, n: nat, a: int)
    requires
        0 <= a < n,
    ensures
        combined_spec(layers, cands, depth, n).len() >= share_spec(layers, cands, a, depth).len(),
    decreases n,
{
    if a < n - 1 {
        lemma_combined_len(layers, cands, depth, (n - 1) as nat, a);
    }
}

/// Over a staircase of layers the blend is never empty: at every depth there
/// is a block to draw.
pub proof fn lemma_staircase_blend(layers: Seq<Layer>, depth: int)
    requires
        staircase(layers),
    ensures
        blend_spec(layers, depth).len() > 0,
{
    let cands = candidates_spec(layers, depth, layers.len());
    lemma_candidates(layers, depth, layers.len());
    lemma_staircase_covers(layers, depth, layers.len() - 1);
    let i = choose|i: int| 0 <= i <= layers.len() - 1 && (#[trigger] layers[i]).contains_spec(depth);
    assert(layers[i].contains_spec(depth));
    assert(cands.contains(i as usize));
    assert(cands.len() >= 1);
    if cands.len() == 1 {
        assert(layers[cands[0] as int].palette().len() > 0);
    } else {
        let first = cands[0] as int;
        let second = cands[1] as int;
        assert(first < second);
        lemma_staircase_order(layers, first, second);
        assert(distance_spec(layers[first], layers[second], depth) is Some);
        lemma_dominance_at_most(layers, cands, 0, depth, cands.len(), 1);
        assert(layers[first].palette().len() > 0);
        assert(share_spec(layers, cands, 0, depth).len() == layers[first].palette().len());
        lemma_combined_len(layers, cands, depth, cands.len(), 0);
    }
}

/// The largest of the first `n` weights stands at `top_index`, and no weight
/// before it is as large.
pub proof fn lemma_top_index(raw: Seq<(u16, Fixed)>, n: nat)
    requires
        1 <= n <= raw.len(),
    ensures
        0 <= top_index(raw, n) < n,
        forall|k: int| 0 <= k < n ==> (#[trigger] raw[k]).1 <= raw[top_index(raw, n)].1,
    decreases n,
{
    if n > 1 {
        lemma_top_index(raw, (n - 1) as nat);
    }
}

/// Weights of which none is positive have no positive running sum.
pub proof fn lemma_prefix_not_positive(raw: Seq<(u16, Fixed)>, n: nat)
    requires
        n <= raw.len(),
        forall|k: int| 0 <= k < raw.len() ==> (#[trigger] raw[k]).1 <= 0,
    ensures
        prefix_weight(raw, n) <= 0,
    decreases n,
{
    if n > 0 {
        lemma_prefix_not_positive(raw, (n - 1) as nat);
    }
}

/// Among weights that are not negative, none is above the total, and each
/// quota lies between 0 and 1.
pub proof fn lemma_quota_in_unit(raw: Seq<(u16, Fixed)>, k: int)
    requires
        0 <= k < raw.len(),
        forall|m: int| 0 <= m < raw.len() ==> (#[trigger] raw[m]).1 >= 0,
        total_weight(raw) > 0,
    ensures
        0 <= raw[k].1 <= total_weight(raw),
        0 <= quota_spec(raw[k].1 as int, total_weight(raw)) <= 16777216,
        raw[k].1 == 0 ==> quota_spec(raw[k].1 as int, total_weight(raw)) == 0,
{
    let total = total_weight(raw);
    let w = raw[k].1 as int;
    lemma_prefix_weight_grows(raw, k as nat, k as nat);
    lemma_prefix_weight_grows(raw, (k + 1) as nat, raw.len());
    assert(prefix_weight(raw, (k + 1) as nat) == prefix_weight(raw, k as nat) + w);
    let q = (w * 16777216) / total;
    let r = (w * 16777216) % total;
    vstd::arithmetic::div_mod::lemma_fundamental_div_mod(w * 16777216, total);
    vstd::arithmetic::div_mod::lemma_mod_bound(w * 16777216, total);
    assert(0 <= q <= 16777216) by (nonlinear_arith)
        requires
            w * 16777216 == total * q + r,
            0 <= r < total,
            0 <= w <= total,
    ;
    if w == 0 {
        assert(q == 0) by (nonlinear_arith)
            requires
                0 == total * q + r,
                0 <= r < total,
                q >= 0,
        ;
    }
}

/// The quotas of weights that are not negative have a sum that is not
/// negative.
pub proof fn lemma_quotas_sum_not_negative(raw: Seq<(u16, Fixed)>, n: nat)
    requires
        n <= raw.len(),
        forall|m: int| 0 <= m < raw.len() ==> (#[trigger] raw[m]).1 >= 0,
        total_weight(raw) > 0,
    ensures
        quotas_sum(raw, total_weight(raw), n) >= 0,
    decreases n,
{
    if n > 0 {
        lemma_quotas_sum_not_negative(raw, (n - 1) as nat);
        lemma_quota_in_unit(raw, n - 1);
    }
}

/// What each normalized weight is, where no raw weight is negative and their
/// total is positive: its quota, and for the largest raw weight its quota
/// plus what the quotas fall short of 1. Nothing is cut off.
pub proof fn lemma_normalized_entries(raw: Seq<(u16, Fixed)>)
    requires
        raw.len() <= usize::MAX,
        forall|k: int| 0 <= k < raw.len() ==> (#[trigger] raw[k]).1 >= 0,
        total_weight(raw) > 0,
    ensures
        normalized(raw).len() == raw.len(),
        0 <= top_index(raw, raw.len()) < raw.len(),
        raw[top_index(raw, raw.len())].1 > 0,
        0 <= leftover_spec(raw) < raw.len(),
        leftover_spec(raw) <= 16777216,
        forall|k: int|
            0 <= k < raw.len() ==> {
                &&& (#[trigger] normalized(raw)[k]).0 == raw[k].0
                &&& normalized(raw)[k].1 as int == quota_spec(
                    raw[k].1 as int,
                    total_weight(raw),
                ) + if k == top_index(raw, raw.len()) {
                    leftover_spec(raw)
                } else {
                    0
                }
                &&& normalized(raw)[k].1 >= 0
                &&& raw[k].1 == 0 ==> normalized(raw)[k].1 == 0
            },
{
    let total = total_weight(raw);
    let n = raw.len();
    let top = top_index(raw, n);
    lemma_top_index(raw, n);
    lemma_leftover(raw);
    lemma_quotas_sum_not_negative(raw, n);
    if raw[top].1 <= 0 {
        lemma_prefix_not_positive(raw, n);
    }
    assert forall|k: int| 0 <= k < n implies {
        &&& (#[trigger] normalized(raw)[k]).0 == raw[k].0
        &&& normalized(raw)[k].1 as int == quota_spec(raw[k].1 as int, total) + if k == top {
            leftover_spec(raw)
        } else {
            0
        }
        &&& normalized(raw)[k].1 >= 0
        &&& raw[k].1 == 0 ==> normalized(raw)[k].1 == 0
    } by {
        lemma_quota_in_unit(raw, k);
    }
}

/// The running sums of a normalized palette are those of the quotas, with
/// the leftover added from the largest weight on.
proof fn lemma_normalized_prefix(raw: Seq<(u16, Fixed)>, n: nat)
    requires
        n <= raw.len() <= usize::MAX,
        forall|k: int| 0 <= k < raw.len() ==> (#[trigger] raw[k]).1 >= 0,
        total_weight(raw) > 0,
    ensures
        prefix_weight(normalized(raw), n) == quotas_sum(raw, total_weight(raw), n) + if top_index(
            raw,
            raw.len(),
        ) < n {
            leftover_spec(raw)
        } else {
            0
        },
    decreases n,
{
    lemma_normalized_entries(raw);
    if n > 0 {
        lemma_normalized_prefix(raw, (n - 1) as nat);
        assert(normalized(raw)[n - 1].1 as int == quota_spec(
            raw[n - 1].1 as int,
            total_weight(raw),
        ) + if n - 1 == top_index(raw, raw.len()) {
            leftover_spec(raw)
        } else {
            0
        });
    }
}

/// Palette normalization: where no raw weight is negative and their total is
/// positive, the normalized weights add up to 1 exactly. The blocks keep their
/// order, no weight is negative, a raw weight of zero stays zero, and each
/// weight is `weight / total` rounded down, but for the largest, which is at
/// most one unit of the last place for each entry above that.
pub proof fn lemma_normalized_total(raw: Seq<(u16, Fixed)>)
    requires
        raw.len() <= usize::MAX,
        forall|k: int| 0 <= k < raw.len() ==> (#[trigger] raw[k]).1 >= 0,
        total_weight(raw) > 0,
    ensures
        total_weight(normalized(raw)) == 16777216,
        normalized(raw).len() == raw.len(),
        forall|k: int|
            0 <= k < raw.len() ==> {
                &&& (#[trigger] normalized(raw)[k]).0 == raw[k].0
                &&& normalized(raw)[k].1 >= 0
                &&& raw[k].1 == 0 ==> normalized(raw)[k].1 == 0
                &&& quota_spec(raw[k].1 as int, total_weight(raw)) <= normalized(raw)[k].1
                &&& normalized(raw)[k].1 < quota_spec(raw[k].1 as int, total_weight(raw))
                    + raw.len()
                &&& k != top_index(raw, raw.len()) ==> normalized(raw)[k].1 as int == quota_spec(
                    raw[k].1 as int,
                    total_weight(raw),
                )
            },
{
    lemma_normalized_entries(raw);
    lemma_normalized_prefix(raw, raw.len());
}

/// No weight of any palette is negative.
pub open spec fn palettes_not_negative(layers: Seq<Layer>) -> bool {
    forall|i: int, k: int|
        0 <= i < layers.len() && 0 <= k < layers[i].palette().len() ==> (
        #[trigger] layers[i].palette()[k]).1 >= 0
}

/// Whether the block `id` can be drawn at `depth`: it has an entry of
/// positive weight in the blend.
pub open spec fn live_at(layers: Seq<Layer>, depth: int, id: u16) -> bool {
    exists|k: int|
        0 <= k < blend_spec(layers, depth).len() && (#[trigger] blend_spec(layers, depth)[k]).0
            == id && blend_spec(layers, depth)[k].1 > 0
}

/// Whether `entry` is entry `j` of the palette of candidate `a`, scaled by the
/// dominance of that candidate.
pub open spec fn is_share_entry(layers: Seq<Layer>, cands: Seq<usize>, depth: int, a: int, j: int, entry: (u16, Fixed)) -> bool {
    &&& 0 <= a < cands.len()
    &&& 0 <= j < layers[cands[a] as int].palette().len()
    &&& dominance_spec(layers, cands, a, depth, cands.len()) is Some
    &&& entry == scaled_palette(
        layers[cands[a] as int].palette(),
        dominance_spec(layers, cands, a, depth, cands.len()).unwrap(),
    )[j]
}

/// Whether a candidate with a positive dominance offers the block `id` with a
/// positive weight.
pub open spec fn dominant_offer(layers: Seq<Layer>, cands: Seq<usize>, depth: int, id: u16) -> bool {
    exists|a: int, j: int|
        0 <= a < cands.len() && 0 <= j < layers[cands[a] as int].palette().len()
            && dominance_spec(layers, cands, a, depth, cands.len()) is Some && dominance_spec(
            layers,
            cands,
            a,
            depth,
            cands.len(),
        ).unwrap() > 0 && (#[trigger] layers[cands[a] as int].palette()[j]).0 == id
            && layers[cands[a] as int].palette()[j].1 > 0
}

/// Every entry of the shares is an entry of the palette of a candidate,
/// scaled by the dominance of that candidate.
pub proof fn lemma_combined_entry(layers: Seq<Layer>, cands: Seq<usize>, depth: int, n: nat, k: int)
    requires
        n <= cands.len(),
        0 <= k < combined_spec(layers, cands, depth, n).len(),
    ensures
        exists|a: int, j: int|
            0 <= a < n && #[trigger] is_share_entry(
                layers,
                cands,
                depth,
                a,
                j,
                combined_spec(layers, cands, depth, n)[k],
            ),
    decreases n,
{
    let before = combined_spec(layers, cands, depth, (n - 1) as nat);
    let entry = combined_spec(layers, cands, depth, n)[k];
    if k < before.len() {
        lemma_combined_entry(layers, cands, depth, (n - 1) as nat, k);
        let (a, j) = choose|a: int, j: int|
            0 <= a < n - 1 && #[trigger] is_share_entry(layers, cands, depth, a, j, before[k]);
        assert(is_share_entry(layers, cands, depth, a, j, entry));
    } else {
        let share = share_spec(layers, cands, n - 1, depth);
        let at = k - before.len();
        assert(entry == share[at]);
        assert(is_share_entry(layers, cands, depth, n - 1, at, entry));
    }
}

/// Each scaled entry of each candidate with a dominance stands among the
/// shares.
pub proof fn lemma_share_in_combined(layers: Seq<Layer>, cands: Seq<usize>, depth: int, n: nat, a: int, j: int)
    requires
        n <= cands.len(),
        0 <= a < n,
        0 <= j < share_spec(layers, cands, a, depth).len(),
    ensures
        exists|k: int|
            0 <= k < combined_spec(layers, cands, depth, n).len() && #[trigger] combined_spec(
                layers,
                cands,
                depth,
                n,
            )[k] == share_spec(layers, cands, a, depth)[j],
    decreases n,
{
    let before = combined_spec(layers, cands, depth, (n - 1) as nat);
    let all = combined_spec(layers, cands, depth, n);
    if a < n - 1 {
        lemma_share_in_combined(layers, cands, depth, (n - 1) as nat, a, j);
        let k = choose|k: int|
            0 <= k < before.len() && #[trigger] before[k] == share_spec(layers, cands, a, depth)[j];
        assert(all[k] == before[k]);
    } else {
        assert(all[before.len() + j] == share_spec(layers, cands, a, depth)[j]);
    }
}

/// Where no palette weight is negative, no weight of the blend is negative.
pub proof fn lemma_blend_not_negative(layers: Seq<Layer>, depth: int)
    requires
        layers.len() <= usize::MAX,
        i64::MIN <= depth <= i64::MAX,
        palettes_not_negative(layers),
    ensures
        forall|k: int|
            0 <= k < blend_spec(layers, depth).len() ==> (#[trigger] blend_spec(layers, depth)[k]).1
                >= 0,
{
    let cands = candidates_spec(layers, depth, layers.len());
    let list = blend_spec(layers, depth);
    lemma_candidates(layers, depth, layers.len());
    assert forall|k: int| 0 <= k < list.len() implies (#[trigger] list[k]).1 >= 0 by {
        if cands.len() == 1 {
            assert(layers[cands[0] as int].palette()[k].1 >= 0);
        } else {
            lemma_combined_entry(layers, cands, depth, cands.len(), k);
            let (a, j) = choose|a: int, j: int|
                0 <= a < cands.len() && #[trigger] is_share_entry(
                    layers,
                    cands,
                    depth,
                    a,
                    j,
                    list[k],
                );
            let m = dominance_spec(layers, cands, a, depth, cands.len()).unwrap();
            let w = layers[cands[a] as int].palette()[j].1;
            assert(layers[cands[a] as int].contains_spec(depth));
            lemma_dominance_not_negative(layers, cands, a, depth, cands.len());
            assert(w >= 0);
            lemma_mul_up_sign(w as int, m as int);
        }
    }
}

/// Among several candidates, a block that can be drawn is offered with a
/// positive weight by a candidate of positive dominance: no weight comes
/// from a candidate that has faded out.
pub proof fn lemma_live_is_dominant(layers: Seq<Layer>, depth: int, id: u16)
    requires
        layers.len() <= usize::MAX,
        i64::MIN <= depth <= i64::MAX,
        palettes_not_negative(layers),
        candidates_spec(layers, depth, layers.len()).len() != 1,
        live_at(layers, depth, id),
    ensures
        dominant_offer(layers, candidates_spec(layers, depth, layers.len()), depth, id),
{
    let cands = candidates_spec(layers, depth, layers.len());
    let list = blend_spec(layers, depth);
    lemma_candidates(layers, depth, layers.len());
    let k = choose|k: int| 0 <= k < list.len() && (#[trigger] list[k]).0 == id && list[k].1 > 0;
    lemma_combined_entry(layers, cands, depth, cands.len(), k);
    let (a, j) = choose|a: int, j: int|
        0 <= a < cands.len() && #[trigger] is_share_entry(layers, cands, depth, a, j, list[k]);
    let m = dominance_spec(layers, cands, a, depth, cands.len()).unwrap();
    let w = layers[cands[a] as int].palette()[j].1;
    assert(layers[cands[a] as int].contains_spec(depth));
    lemma_dominance_not_negative(layers, cands, a, depth, cands.len());
    assert(w >= 0);
    lemma_mul_up_sign(w as int, m as int);
    assert(layers[cands[a] as int].palette()[j].0 == id);
}

/// Among several candidates, the blend has a positive total as soon as one
/// candidate of positive dominance has a positive weight: the total is zero
/// only where every dominance or weight is zero.
pub proof fn lemma_dominant_offer_is_live(layers: Seq<Layer>, depth: int, id: u16)
    requires
        layers.len() <= usize::MAX,
        i64::MIN <= depth <= i64::MAX,
        palettes_not_negative(layers),
        candidates_spec(layers, depth, layers.len()).len() != 1,
        dominant_offer(layers, candidates_spec(layers, depth, layers.len()), depth, id),
    ensures
        live_at(layers, depth, id),
        total_weight(blend_spec(layers, depth)) > 0,
{
    let cands = candidates_spec(layers, depth, layers.len());
    let list = blend_spec(layers, depth);
    let (a, j) = choose|a: int, j: int|
        0 <= a < cands.len() && 0 <= j < layers[cands[a] as int].palette().len()
            && dominance_spec(layers, cands, a, depth, cands.len()) is Some && dominance_spec(
            layers,
            cands,
            a,
            depth,
            cands.len(),
        ).unwrap() > 0 && (#[trigger] layers[cands[a] as int].palette()[j]).0 == id
            && layers[cands[a] as int].palette()[j].1 > 0;
    let m = dominance_spec(layers, cands, a, depth, cands.len()).unwrap();
    let w = layers[cands[a] as int].palette()[j].1;
    lemma_mul_up_sign(w as int, m as int);
    lemma_share_in_combined(layers, cands, depth, cands.len(), a, j);
    let k = choose|k: int|
        0 <= k < list.len() && #[trigger] list[k] == share_spec(layers, cands, a, depth)[j];
    assert(list[k].0 == id && list[k].1 > 0);
    lemma_blend_not_negative(layers, depth);
    if total_weight(list) <= 0 {
        lemma_zero_total(list);
    }
}

/// The block that is drawn has a positive weight in the blend, where no
/// palette weight is negative and the blend has a positive total.
pub proof fn lemma_selected_is_live(layers: Seq<Layer>, depth: int, draw: int)
    requires
        layers.len() <= usize::MAX,
        i64::MIN <= depth <= i64::MAX,
        0 <= draw < 16777216,
        palettes_not_negative(layers),
        total_weight(blend_spec(layers, depth)) > 0,
    ensures
        live_at(layers, depth, select_spec(layers, depth, draw)),
{
    let list = blend_spec(layers, depth);
    lemma_blend_not_negative(layers, depth);
    lemma_selected_has_weight(list, draw);
}

/// At a boundary where one candidate has faded out and another has not, the
/// block comes from one that has not: where no palette weight is negative
/// and, among several candidates, one of positive dominance has a positive
/// weight, every draw gives a block that a candidate of positive dominance
/// offers with a positive weight.
pub proof fn lemma_faded_layer_is_not_drawn(layers: Seq<Layer>, depth: int, draw: int, offered: u16)
    requires
        layers.len() <= usize::MAX,
        i64::MIN <= depth <= i64::MAX,
        0 <= draw < 16777216,
        palettes_not_negative(layers),
        candidates_spec(layers, depth, layers.len()).len() != 1,
        dominant_offer(layers, candidates_spec(layers, depth, layers.len()), depth, offered),
    ensures
        dominant_offer(
            layers,
            candidates_spec(layers, depth, layers.len()),
            depth,
            select_spec(layers, depth, draw),
        ),
{
    lemma_dominant_offer_is_live(layers, depth, offered);
    lemma_selected_is_live(layers, depth, draw);
    lemma_live_is_dominant(layers, depth, select_spec(layers, depth, draw));
}

} // verus!
