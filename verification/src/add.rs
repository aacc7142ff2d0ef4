//! The sum of two noise fields of different kinds.
use vstd::prelude::*;
use crate::fixed::{fx_add, fx_add_spec, Fixed};
use crate::noise::{split_seed, Noise, NoiseConfig, NoiseDomain, Split};

verus! {

/// The field `first(p) + second(p)`, or the configuration of one.
pub struct AddNoise<TFirst, TSecond> {
    pub first: TFirst,
    pub second: TSecond,
}

impl<TFirst, TSecond> AddNoise<TFirst, TSecond> {
    /// The sum of `first` and `second`.
    pub fn new(first: TFirst, second: TSecond) -> (sum: Self)
        ensures
            sum.first == first,
            sum.second == second,
    {
        AddNoise { first, second }
    }
}

impl<TFirst: NoiseDomain, TSecond: NoiseDomain> Noise for AddNoise<TFirst, TSecond> {

}

impl<TFirst: NoiseDomain, TSecond: NoiseDomain> NoiseDomain for AddNoise<TFirst, TSecond> {
    open spec fn value_at(&self, x: int, y: int) -> int {
        fx_add_spec(self.first.value_at(x, y), self.second.value_at(x, y))
    }

    fn noise(&self, x: Fixed, y: Fixed) -> (value: Fixed) {
        fx_add(self.first.noise(x, y), self.second.noise(x, y))
    }
}

impl<TFirst: NoiseConfig, TSecond: NoiseConfig> NoiseConfig for AddNoise<TFirst, TSecond> {
    type TNoise = AddNoise<TFirst::TNoise, TSecond::TNoise>;

    /// The two sides are seeded with the children 0 and 1 of the seed.
    open spec fn seeds_to(&self, seed: u64, noise: &AddNoise<TFirst::TNoise, TSecond::TNoise>) -> bool {
        &&& self.first.seeds_to(split_seed(seed, 0), &noise.first)
        &&& self.second.seeds_to(split_seed(seed, 1), &noise.second)
    }

    fn seed(&self, seed: u64) -> (noise: AddNoise<TFirst::TNoise, TSecond::TNoise>) {
        let first = self.first.seed(seed.split(0));
        let second = self.second.seed(seed.split(1));
        AddNoise { first, second }
    }
}

} // verus!
