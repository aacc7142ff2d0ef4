//! Layers of the world and the blend between them: which blocks may stand at
//! a depth, and with what weight.
use vstd::prelude::*;
use crate::fixed::{
    abs_spec, clamp, div_floor, fx_mul_up, fx_mul_up_spec, fx_sub, fx_sub_spec, lemma_div_unique,
    lemma_product_fits, mod_floor, saturate, Fixed,
};
use crate::layer_laws::lemma_normalized_total;
use crate::random::{prefix_weight, sum_weights, total_weight};

verus! {

/// Blocks with their weights: entry `(id, weight)` stands for the block with
/// index `id` in the registry.
pub struct BlockPalette {
    pub blocks: Vec<(u16, Fixed)>,
}

/// A range of depths, both ends included, with the blocks found there. A
/// start of `None` leaves the range open towards minus infinity, an end of
/// `None` towards plus infinity. Ranges of different layers may overlap.
pub struct Layer {
    pub start: Option<Fixed>,
    pub end: Option<Fixed>,
    pub blocks: BlockPalette,
}

/// The quota of a weight: `weight / total` as a fixed-point number, rounded
/// down.
pub open spec fn quota_spec(weight: int, total: int) -> int {
    (weight * 16777216) / total
}

/// What rounding down takes from the quota of a weight, in units of
/// `1 / total` of the last place.
pub open spec fn fraction_spec(weight: int, total: int) -> int {
    (weight * 16777216) % total
}

/// The sum of the quotas of the first `n` weights.
pub open spec fn quotas_sum(raw: Seq<(u16, Fixed)>, total: int, n: nat) -> int
    decreases n,
{
    if n == 0 {
        0
    } else {
        quotas_sum(raw, total, (n - 1) as nat) + quota_spec(raw[n - 1].1 as int, total)
    }
}

/// The sum of what rounding down takes from the first `n` quotas.
pub open spec fn fractions_sum(raw: Seq<(u16, Fixed)>, total: int, n: nat) -> int
    decreases n,
{
    if n == 0 {
        0
    } else {
        fractions_sum(raw, total, (n - 1) as nat) + fraction_spec(raw[n - 1].1 as int, total)
    }
}

/// The index of the largest of the first `n` weights, the first of them where
/// several are equal.
pub open spec fn top_index(raw: Seq<(u16, Fixed)>, n: nat) -> int
    decreases n,
{
    if n <= 1 {
        0
    } else {
        let before = top_index(raw, (n - 1) as nat);
        if raw[n - 1].1 > raw[before].1 {
            n - 1
        } else {
            before
        }
    }
}

/// What the quotas of all weights together fall short of 1.
pub open spec fn leftover_spec(raw: Seq<(u16, Fixed)>) -> int {
    16777216 - quotas_sum(raw, total_weight(raw), raw.len())
}

/// The weights of `raw` divided by their total, where that is positive: each
/// weight becomes its quota, `weight / total` rounded down, and the largest
/// weight also takes what the quotas together fall short of 1, so that
/// weights that are not negative add up to 1 exactly. Else `raw` unchanged.
pub open spec fn normalized(raw: Seq<(u16, Fixed)>) -> Seq<(u16, Fixed)> {
    let total = total_weight(raw);
    if total > 0 {
        Seq::new(
            raw.len(),
            |k: int|
                (
                    raw[k].0,
                    clamp(
                        quota_spec(raw[k].1 as int, total) + if k == top_index(raw, raw.len()) {
                            leftover_spec(raw)
                        } else {
                            0
                        },
                    ) as i64,
                ),
        )
    } else {
        raw
    }
}

/// The weights times 1 are the quotas times the total, plus what rounding
/// down took.
pub proof fn lemma_quotas_and_fractions(raw: Seq<(u16, Fixed)>, total: int, n: nat)
    requires
        n <= raw.len(),
        total > 0,
    ensures
        prefix_weight(raw, n) * 16777216 == total * quotas_sum(raw, total, n) + fractions_sum(
            raw,
            total,
            n,
        ),
        0 <= fractions_sum(raw, total, n) <= n * (total - 1),
    decreases n,
{
    if n == 0 {
        assert(total * 0 == 0) by (nonlinear_arith);
    } else {
        lemma_quotas_and_fractions(raw, total, (n - 1) as nat);
        let w = raw[n - 1].1 as int;
        let q = quota_spec(w, total);
        let r = fraction_spec(w, total);
        vstd::arithmetic::div_mod::lemma_fundamental_div_mod(w * 16777216, total);
        vstd::arithmetic::div_mod::lemma_mod_bound(w * 16777216, total);
        let p = prefix_weight(raw, (n - 1) as nat);
        let qs = quotas_sum(raw, total, (n - 1) as nat);
        let fs = fractions_sum(raw, total, (n - 1) as nat);
        assert((p + w) * 16777216 == total * (qs + q) + (fs + r)) by (nonlinear_arith)
            requires
                p * 16777216 == total * qs + fs,
                w * 16777216 == total * q + r,
        ;
        assert(n * (total - 1) == (n - 1) * (total - 1) + (total - 1)) by (nonlinear_arith);
    }
}

/// The quotas of all weights fall short of 1 by a whole number of units: by
/// the tally of what rounding down took, divided by the total.
pub proof fn lemma_leftover(raw: Seq<(u16, Fixed)>)
    requires
        total_weight(raw) > 0,
    ensures
        fractions_sum(raw, total_weight(raw), raw.len()) == total_weight(raw) * leftover_spec(raw),
        0 <= leftover_spec(raw) < raw.len(),
{
    let total = total_weight(raw);
    let n = raw.len();
    lemma_quotas_and_fractions(raw, total, n);
    let qs = quotas_sum(raw, total, n);
    let fs = fractions_sum(raw, total, n);
    assert(fs == total * (16777216 - qs)) by (nonlinear_arith)
        requires
            total * 16777216 == total * qs + fs,
    ;
    assert(n > 0);
    let short = 16777216 - qs;
    assert(short >= 0) by (nonlinear_arith)
        requires
            fs == total * short,
            0 <= fs,
            total > 0,
    ;
    assert(short < n) by (nonlinear_arith)
        requires
            fs == total * short,
            fs <= n * (total - 1),
            total > 0,
            n > 0,
    ;
}

/// Whether `other` starts below the start of `layer`.
pub open spec fn starts_before(other: Layer, layer: Layer) -> bool {
    match (other.start, layer.start) {
        (None, Some(_)) => true,
        (Some(o), Some(l)) => o < l,
        _ => false,
    }
}

/// Whether `other` ends above the end of `layer`.
pub open spec fn ends_after(other: Layer, layer: Layer) -> bool {
    match (other.end, layer.end) {
        (None, Some(_)) => true,
        (Some(o), Some(l)) => o > l,
        _ => false,
    }
}

/// How far `depth` lies inside `layer` as seen from the competing layer
/// `other`. If `other` starts below `layer`, the distance from the start of
/// `layer`; else if `other` ends above `layer`, the distance to the end of
/// `layer`; else the distance from the middle of `other`, which is `None`
/// where `other` is open on a side and so has no middle.
pub open spec fn distance_spec(layer: Layer, other: Layer, depth: int) -> Option<Fixed> {
    if starts_before(other, layer) {
        Some(fx_sub_spec(depth, layer.start.unwrap() as int) as i64)
    } else if ends_after(other, layer) {
        Some(fx_sub_spec(layer.end.unwrap() as int, depth) as i64)
    } else if other.start is Some && other.end is Some {
        Some(
            clamp(abs_spec(depth - (other.start.unwrap() as int + other.end.unwrap() as int) / 2))
                as i64,
        )
    } else {
        None
    }
}

/// The smaller of two distances, `None` standing for no distance at all.
pub open spec fn closer(best: Option<Fixed>, distance: Option<Fixed>) -> Option<Fixed> {
    match (best, distance) {
        (Some(b), Some(d)) => if d < b {
            Some(d)
        } else {
            Some(b)
        },
        (None, Some(d)) => Some(d),
        (b, None) => b,
    }
}

/// The layers among the first `n` whose range holds `depth`, by index, in
/// their order.
pub open spec fn candidates_spec(layers: Seq<Layer>, depth: int, n: nat) -> Seq<usize>
    decreases n,
{
    if n == 0 {
        Seq::empty()
    } else {
        let rest = candidates_spec(layers, depth, (n - 1) as nat);
        if layers[n - 1].contains_spec(depth) {
            rest.push((n - 1) as usize)
        } else {
            rest
        }
    }
}

/// The dominance of candidate `a` over the first `n` candidates: the least of
/// its distances as seen from each of the others. `None` if none of them
/// gives a distance.
pub open spec fn dominance_spec(layers: Seq<Layer>, cands: Seq<usize>, a: int, depth: int, n: nat) -> Option<Fixed>
    decreases n,
{
    if n == 0 {
        None
    } else {
        let best = dominance_spec(layers, cands, a, depth, (n - 1) as nat);
        if n - 1 == a {
            best
        } else {
            closer(
                best,
                distance_spec(layers[cands[a] as int], layers[cands[n - 1] as int], depth),
            )
        }
    }
}

/// A palette with every weight multiplied by `factor`, the product rounded
/// up: a positive weight times a positive factor stays a positive weight.
pub open spec fn scaled_palette(palette: Seq<(u16, Fixed)>, factor: Fixed) -> Seq<(u16, Fixed)> {
    Seq::new(
        palette.len(),
        |k: int| (palette[k].0, fx_mul_up_spec(palette[k].1 as int, factor as int) as i64),
    )
}

/// What candidate `a` adds to the blend: its palette scaled by its dominance,
/// or nothing if it has none.
pub open spec fn share_spec(layers: Seq<Layer>, cands: Seq<usize>, a: int, depth: int) -> Seq<(u16, Fixed)> {
    match dominance_spec(layers, cands, a, depth, cands.len()) {
        Some(m) => scaled_palette(layers[cands[a] as int].palette(), m),
        None => Seq::empty(),
    }
}

/// The shares of the first `n` candidates, one after the other.
pub open spec fn combined_spec(layers: Seq<Layer>, cands: Seq<usize>, depth: int, n: nat) -> Seq<(u16, Fixed)>
    decreases n,
{
    if n == 0 {
        Seq::empty()
    } else {
        combined_spec(layers, cands, depth, (n - 1) as nat) + share_spec(
            layers,
            cands,
            n - 1,
            depth,
        )
    }
}

/// The weighted blocks to draw from at `depth`. With one candidate layer, its
/// palette. Else the shares of all candidates.
pub open spec fn blend_spec(layers: Seq<Layer>, depth: int) -> Seq<(u16, Fixed)> {
    let cands = candidates_spec(layers, depth, layers.len());
    if cands.len() == 1 {
        layers[cands[0] as int].palette()
    } else {
        combined_spec(layers, cands, depth, cands.len())
    }
}

/// Whether the block `id` stands in `palette`.
pub open spec fn palette_has(palette: Seq<(u16, Fixed)>, id: u16) -> bool {
    exists|k: int| 0 <= k < palette.len() && (#[trigger] palette[k]).0 == id
}

/// A quota is no larger in absolute value than its weight times 1.
pub proof fn lemma_quota_bound(weight: int, total: int)
    requires
        i64::MIN <= weight <= i64::MAX,
        total > 0,
    ensures
        -0x80_0000_0000_0000_0000_0000 <= quota_spec(weight, total) <= 0x80_0000_0000_0000_0000_0000,
{
    let x = weight * 16777216;
    vstd::arithmetic::div_mod::lemma_fundamental_div_mod(x, total);
    vstd::arithmetic::div_mod::lemma_mod_bound(x, total);
    let q = x / total;
    let r = x % total;
    assert(-0x80_0000_0000_0000_0000_0000 <= q <= 0x80_0000_0000_0000_0000_0000) by (nonlinear_arith)
        requires
            x == total * q + r,
            0 <= r < total,
            total >= 1,
            -0x80_0000_0000_0000_0000_0000 <= x <= 0x80_0000_0000_0000_0000_0000,
    ;
}

/// What the quotas of all weights fall short of 1, and the index of the
/// largest weight.
fn leftover_and_top(blocks: &Vec<(u16, Fixed)>, total: i128) -> (plan: (i128, usize))
    requires
        total > 0,
        total as int == total_weight(blocks@),
    ensures
        plan.0 as int == leftover_spec(blocks@),
        plan.1 as int == top_index(blocks@, blocks@.len()),
        0 <= plan.0 < blocks@.len(),
{
    let mut count: i128 = 0;
    let mut rest: i128 = 0;
    let mut top: usize = 0;
    let mut k: usize = 0;
    while k < blocks.len()
        invariant
            k <= blocks@.len(),
            total > 0,
            0 <= rest < total,
            0 <= count <= k,
            count * total + rest == fractions_sum(blocks@, total as int, k as nat),
            top as int == top_index(blocks@, k as nat),
            top < blocks@.len() || k == 0,
        decreases blocks@.len() - k,
    {
        let weight = blocks[k].1;
        proof {
            lemma_product_fits(weight as int, 16777216);
        }
        let fraction = mod_floor((weight as i128) * 16777216, total);
        let ghost before = count * total + rest;
        if rest >= total - fraction {
            rest = rest - (total - fraction);
            proof {
                assert((count + 1) * total + rest == before + fraction) by (nonlinear_arith)
                    requires
                        before == count * total + (rest + (total - fraction)),
                ;
            }
            count = count + 1;
        } else {
            rest = rest + fraction;
        }
        if k > 0 && weight > blocks[top].1 {
            top = k;
        }
        k = k + 1;
    }
    proof {
        lemma_leftover(blocks@);
        let sum = fractions_sum(blocks@, total as int, blocks@.len());
        assert(sum == leftover_spec(blocks@) * total + 0) by (nonlinear_arith)
            requires
                sum == total * leftover_spec(blocks@),
        ;
        lemma_div_unique(sum, total as int, leftover_spec(blocks@), 0);
        lemma_div_unique(sum, total as int, count as int, rest as int);
    }
    (count, top)
}

impl Layer {
    /// The palette of the layer.
    pub open spec fn palette(&self) -> Seq<(u16, Fixed)> {
        self.blocks.blocks@
    }

    /// Whether `depth` lies in the range, ends included.
    pub open spec fn contains_spec(&self, depth: int) -> bool {
        &&& (self.start is None || self.start.unwrap() <= depth)
        &&& (self.end is None || depth <= self.end.unwrap())
    }

    /// A layer over `[start, end]` with the blocks `blocks`, whose weights
    /// are divided by their total if that is positive. Weights that are not
    /// negative then add up to 1 exactly.
    pub fn new(start: Option<Fixed>, end: Option<Fixed>, blocks: Vec<(u16, Fixed)>) -> (layer: Layer)
        ensures
            layer.start == start,
            layer.end == end,
            layer.palette() == normalized(blocks@),
            (forall|k: int| 0 <= k < blocks@.len() ==> (#[trigger] blocks@[k]).1 >= 0)
                && total_weight(blocks@) > 0 ==> total_weight(layer.palette()) == 16777216,
    {
        proof {
            assert(blocks@.len() == blocks.len());
            if (forall|k: int| 0 <= k < blocks@.len() ==> (#[trigger] blocks@[k]).1 >= 0)
                && total_weight(blocks@) > 0 {
                lemma_normalized_total(blocks@);
            }
        }
        let total = sum_weights(&blocks);
        if total > 0 {
            let plan = leftover_and_top(&blocks, total);
            let mut scaled: Vec<(u16, Fixed)> = Vec::new();
            let mut k: usize = 0;
            while k < blocks.len()
                invariant
                    k <= blocks@.len(),
                    scaled@.len() == k,
                    total > 0,
                    total as int == total_weight(blocks@),
                    plan.0 as int == leftover_spec(blocks@),
                    plan.1 as int == top_index(blocks@, blocks@.len()),
                    0 <= plan.0 < blocks@.len(),
                    forall|m: int|
                        0 <= m < k ==> #[trigger] scaled@[m] == normalized(blocks@)[m],
                decreases blocks@.len() - k,
            {
                let entry = blocks[k];
                proof {
                    lemma_product_fits(entry.1 as int, 16777216);
                }
                let quota = div_floor((entry.1 as i128) * 16777216, total);
                let extra: i128 = if k == plan.1 {
                    plan.0
                } else {
                    0
                };
                proof {
                    lemma_quota_bound(entry.1 as int, total as int);
                }
                scaled.push((entry.0, saturate(quota + extra)));
                k = k + 1;
            }
            proof {
                assert(scaled@ =~= normalized(blocks@));
            }
            Layer { start, end, blocks: BlockPalette { blocks: scaled } }
        } else {
            Layer { start, end, blocks: BlockPalette { blocks } }
        }
    }

    /// Whether `depth` lies in the range, ends included.
    pub fn contains(&self, depth: Fixed) -> (inside: bool)
        ensures
            inside == self.contains_spec(depth as int),
    {
        let above = match self.start {
            Some(start) => start <= depth,
            None => true,
        };
        let below = match self.end {
            Some(end) => depth <= end,
            None => true,
        };
        above && below
    }
}

/// The layers whose range holds `depth`, by index, in their order.
pub fn candidate_layers(layers: &Vec<Layer>, depth: Fixed) -> (cands: Vec<usize>)
    ensures
        cands@ == candidates_spec(layers@, depth as int, layers@.len()),
        forall|k: int| 0 <= k < cands@.len() ==> #[trigger] cands@[k] < layers@.len(),
{
    let mut cands: Vec<usize> = Vec::new();
    let mut i: usize = 0;
    while i < layers.len()
        invariant
            i <= layers@.len(),
            cands@ == candidates_spec(layers@, depth as int, i as nat),
            forall|k: int| 0 <= k < cands@.len() ==> #[trigger] cands@[k] < i,
        decreases layers@.len() - i,
    {
        if layers[i].contains(depth) {
            cands.push(i);
        }
        i = i + 1;
    }
    cands
}

/// How far `depth` lies inside `layer` as seen from `other`.
pub fn distance(layer: &Layer, other: &Layer, depth: Fixed) -> (d: Option<Fixed>)
    ensures
        d == distance_spec(*layer, *other, depth as int),
{
    let before = match (other.start, layer.start) {
        (None, Some(_)) => true,
        (Some(o), Some(l)) => o < l,
        _ => false,
    };
    if before {
        match layer.start {
            Some(start) => {
                return Some(fx_sub(depth, start));
            },
            None => {},
        }
    }
    let after = match (other.end, layer.end) {
        (None, Some(_)) => true,
        (Some(o), Some(l)) => o > l,
        _ => false,
    };
    if after {
        match layer.end {
            Some(end) => {
                return Some(fx_sub(end, depth));
            },
            None => {},
        }
    }
    match (other.start, other.end) {
        (Some(start), Some(end)) => {
            let middle: i128 = div_floor(start as i128 + end as i128, 2);
            let away: i128 = depth as i128 - middle;
            let positive: i128 = if away < 0 {
                -away
            } else {
                away
            };
            Some(saturate(positive))
        },
        _ => None,
    }
}

/// The dominance of candidate `a`: the least of its distances as seen from
/// each other candidate.
pub fn dominance(layers: &Vec<Layer>, cands: &Vec<usize>, a: usize, depth: Fixed) -> (best: Option<Fixed>)
    requires
        a < cands@.len(),
        forall|k: int| 0 <= k < cands@.len() ==> #[trigger] cands@[k] < layers@.len(),
    ensures
        best == dominance_spec(layers@, cands@, a as int, depth as int, cands@.len()),
{
    let mut best: Option<Fixed> = None;
    let mut b: usize = 0;
    while b < cands.len()
        invariant
            b <= cands@.len(),
            a < cands@.len(),
            forall|k: int| 0 <= k < cands@.len() ==> #[trigger] cands@[k] < layers@.len(),
            best == dominance_spec(layers@, cands@, a as int, depth as int, b as nat),
        decreases cands@.len() - b,
    {
        if b != a {
            let d = distance(&layers[cands[a]], &layers[cands[b]], depth);
            best = match (best, d) {
                (Some(m), Some(d)) => if d < m {
                    Some(d)
                } else {
                    Some(m)
                },
                (None, Some(d)) => Some(d),
                (m, None) => m,
            };
        }
        b = b + 1;
    }
    best
}

/// Appends to `list` the entries of `palette`, each weight multiplied by
/// `factor` and rounded up.
pub fn push_scaled(list: &mut Vec<(u16, Fixed)>, palette: &Vec<(u16, Fixed)>, factor: Fixed)
    ensures
        final(list)@ == old(list)@ + scaled_palette(palette@, factor),
{
    let ghost before = list@;
    let mut k: usize = 0;
    while k < palette.len()
        invariant
            k <= palette@.len(),
            list@ == before + scaled_palette(palette@, factor).subrange(0, k as int),
        decreases palette@.len() - k,
    {
        let entry = palette[k];
        list.push((entry.0, fx_mul_up(entry.1, factor)));
        proof {
            assert(list@ =~= before + scaled_palette(palette@, factor).subrange(0, k + 1));
        }
        k = k + 1;
    }
    proof {
        assert(scaled_palette(palette@, factor).subrange(0, palette@.len() as int)
            =~= scaled_palette(palette@, factor));
    }
}

/// The weighted blocks to draw from at `depth`.
pub fn blend(layers: &Vec<Layer>, depth: Fixed) -> (list: Vec<(u16, Fixed)>)
    ensures
        list@ == blend_spec(layers@, depth as int),
{
    let cands = candidate_layers(layers, depth);
    let mut list: Vec<(u16, Fixed)> = Vec::new();
    if cands.len() == 1 {
        push_scaled(&mut list, &layers[cands[0]].blocks.blocks, 16777216);
        proof {
            let palette = layers@[cands@[0] as int].palette();
            assert forall|k: int| 0 <= k < palette.len() implies scaled_palette(
                palette,
                16777216,
            )[k] == palette[k] by {
                assert(palette[k].1 as int * 16777216 / 16777216 == palette[k].1 as int);
            }
            assert(list@ =~= palette);
        }
        return list;
    }
    let mut a: usize = 0;
    while a < cands.len()
        invariant
            a <= cands@.len(),
            forall|k: int| 0 <= k < cands@.len() ==> #[trigger] cands@[k] < layers@.len(),
            list@ == combined_spec(layers@, cands@, depth as int, a as nat),
        decreases cands@.len() - a,
    {
        match dominance(layers, &cands, a, depth) {
            Some(m) => {
                push_scaled(&mut list, &layers[cands[a]].blocks.blocks, m);
            },
            None => {
                assert(list@ + Seq::<(u16, Fixed)>::empty() =~= list@);
            },
        }
        a = a + 1;
    }
    list
}

} // verus!
