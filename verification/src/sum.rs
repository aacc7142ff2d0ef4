//! The sum of several noise fields of one kind, each under a seed of its own.
use vstd::prelude::*;
use crate::fixed::{fx_add, fx_add_spec, Fixed};
use crate::noise::{split_seed, Noise, NoiseConfig, NoiseDomain, Split};

verus! {

/// The field that adds up the fields `values`, or the configuration of one.
pub struct SumNoise<TInner> {
    pub values: Vec<TInner>,
}

/// The saturating sum of the first `n` fields of `values` at `(x, y)`, added
/// up in their order.
pub open spec fn sum_prefix<TInner: NoiseDomain>(values: Seq<TInner>, n: nat, x: int, y: int) -> int
    decreases n,
{
    if n == 0 {
        0
    } else {
        fx_add_spec(sum_prefix(values, (n - 1) as nat, x, y), values[n - 1].value_at(x, y))
    }
}

impl<TInner> SumNoise<TInner> {
    /// The sum of `values`.
    pub fn new(values: Vec<TInner>) -> (sum: Self)
        ensures
            sum.values == values,
    {
        SumNoise { values }
    }
}

impl<TInner: NoiseDomain> Noise for SumNoise<TInner> {

}

impl<TInner: NoiseDomain> NoiseDomain for SumNoise<TInner> {
    open spec fn value_at(&self, x: int, y: int) -> int {
        sum_prefix(self.values@, self.values@.len(), x, y)
    }

    fn noise(&self, x: Fixed, y: Fixed) -> (value: Fixed) {
        let mut result: Fixed = 0;
        let mut k: usize = 0;
        while k < self.values.len()
            invariant
                k <= self.values@.len(),
                result as int == sum_prefix(self.values@, k as nat, x as int, y as int),
            decreases self.values@.len() - k,
        {
            let term = self.values[k].noise(x, y);
            result = fx_add(result, term);
            k = k + 1;
        }
        result
    }
}

impl<TInner: NoiseConfig> NoiseConfig for SumNoise<TInner> {
    type TNoise = SumNoise<TInner::TNoise>;

    /// Term `k` is seeded with child `k` of the seed.
    open spec fn seeds_to(&self, seed: u64, noise: &SumNoise<TInner::TNoise>) -> bool {
        &&& noise.values@.len() == self.values@.len()
        &&& forall|k: int|
            0 <= k < self.values@.len() ==> (#[trigger] self.values@[k]).seeds_to(
                split_seed(seed, k as usize),
                &noise.values@[k],
            )
    }

    fn seed(&self, seed: u64) -> (noise: SumNoise<TInner::TNoise>) {
        let mut values: Vec<TInner::TNoise> = Vec::new();
        let mut k: usize = 0;
        while k < self.values.len()
            invariant
                k <= self.values@.len(),
                values@.len() == k,
                forall|m: int|
                    0 <= m < k ==> (#[trigger] self.values@[m]).seeds_to(
                        split_seed(seed, m as usize),
                        &values@[m],
                    ),
            decreases self.values@.len() - k,
        {
            let child = seed.split(k);
            let term = self.values[k].seed(child);
            values.push(term);
            k = k + 1;
        }
        SumNoise { values }
    }
}

} // verus!
