//! Fractal noise: copies of one field, each at a higher frequency and a lower
//! amplitude than the one before, added up.
use vstd::prelude::*;
use crate::fixed::{fx_mul, fx_mul_spec, Fixed};
use crate::noise::{Noise, NoiseConfig, NoiseDomain};
use crate::scale::ScaleNoise;
use crate::sum::SumNoise;

verus! {

/// `N` octaves of one field, or the configuration of them.
pub struct Octaves<TInner, const N: usize> {
    pub contents: SumNoise<ScaleNoise<TInner>>,
}

/// The power `base^n` of a fixed-point number, by repeated saturating
/// multiplication.
pub open spec fn fx_pow_spec(base: int, n: nat) -> int
    decreases n,
{
    if n == 0 {
        16777216
    } else {
        fx_mul_spec(fx_pow_spec(base, (n - 1) as nat), base)
    }
}

impl<TInner: Copy, const N: usize> Octaves<TInner, N> {
    /// `N` copies of `value`: copy `i` scales the point by `lacunarity^i` and
    /// the value by `persistence^i`.
    pub fn new(value: TInner, lacunarity: Fixed, persistence: Fixed) -> (octaves: Self)
        ensures
            octaves.contents.values@.len() == N,
            forall|i: int|
                0 <= i < N ==> {
                    &&& (#[trigger] octaves.contents.values@[i]).contents == value
                    &&& octaves.contents.values@[i].scale_in as int == fx_pow_spec(
                        lacunarity as int,
                        i as nat,
                    )
                    &&& octaves.contents.values@[i].scale_out as int == fx_pow_spec(
                        persistence as int,
                        i as nat,
                    )
                },
    {
        let mut values: Vec<ScaleNoise<TInner>> = Vec::new();
        let mut scale_in: Fixed = 16777216;
        let mut scale_out: Fixed = 16777216;
        let mut i: usize = 0;
        while i < N
            invariant
                i <= N,
                values@.len() == i,
                scale_in as int == fx_pow_spec(lacunarity as int, i as nat),
                scale_out as int == fx_pow_spec(persistence as int, i as nat),
                forall|k: int|
                    0 <= k < i ==> {
                        &&& (#[trigger] values@[k]).contents == value
                        &&& values@[k].scale_in as int == fx_pow_spec(lacunarity as int, k as nat)
                        &&& values@[k].scale_out as int == fx_pow_spec(
                            persistence as int,
                            k as nat,
                        )
                    },
            decreases N - i,
        {
            values.push(ScaleNoise::new(value, scale_in, scale_out));
            scale_in = fx_mul(scale_in, lacunarity);
            scale_out = fx_mul(scale_out, persistence);
            i = i + 1;
        }
        Octaves { contents: SumNoise::new(values) }
    }
}

impl<TInner: NoiseDomain, const N: usize> Noise for Octaves<TInner, N> {

}

impl<TInner: NoiseDomain, const N: usize> NoiseDomain for Octaves<TInner, N> {
    open spec fn value_at(&self, x: int, y: int) -> int {
        self.contents.value_at(x, y)
    }

    fn noise(&self, x: Fixed, y: Fixed) -> (value: Fixed) {
        self.contents.noise(x, y)
    }
}

impl<TInner: NoiseConfig, const N: usize> NoiseConfig for Octaves<TInner, N> {
    type TNoise = Octaves<TInner::TNoise, N>;

    open spec fn seeds_to(&self, seed: u64, noise: &Octaves<TInner::TNoise, N>) -> bool {
        self.contents.seeds_to(seed, &noise.contents)
    }

    fn seed(&self, seed: u64) -> (noise: Octaves<TInner::TNoise, N>) {
        Octaves { contents: self.contents.seed(seed) }
    }
}

} // verus!
