//! Scaling of a noise field: of the point before the inner field is asked, and
//! of the value it gives.
use vstd::prelude::*;
use crate::fixed::{fx_mul, fx_mul_spec, Fixed};
use crate::noise::{Noise, NoiseConfig, NoiseDomain};

verus! {

/// The field `inner(p * scale_in) * scale_out`, or the configuration of one.
pub struct ScaleNoise<TInner> {
    pub contents: TInner,
    pub scale_in: Fixed,
    pub scale_out: Fixed,
}

impl<TInner> ScaleNoise<TInner> {
    /// Wraps `contents`: `scale_in` multiplies each coordinate of the point,
    /// `scale_out` the value.
    pub fn new(contents: TInner, scale_in: Fixed, scale_out: Fixed) -> (scaled: Self)
        ensures
            scaled.contents == contents,
            scaled.scale_in == scale_in,
            scaled.scale_out == scale_out,
    {
        ScaleNoise { contents, scale_in, scale_out }
    }
}

impl<TInner: NoiseDomain> Noise for ScaleNoise<TInner> {

}

impl<TInner: NoiseDomain> NoiseDomain for ScaleNoise<TInner> {
    open spec fn value_at(&self, x: int, y: int) -> int {
        fx_mul_spec(
            self.contents.value_at(
                fx_mul_spec(x, self.scale_in as int),
                fx_mul_spec(y, self.scale_in as int),
            ),
            self.scale_out as int,
        )
    }

    fn noise(&self, x: Fixed, y: Fixed) -> (value: Fixed) {
        let inner = self.contents.noise(fx_mul(x, self.scale_in), fx_mul(y, self.scale_in));
        fx_mul(inner, self.scale_out)
    }
}

impl<TInner: NoiseConfig> NoiseConfig for ScaleNoise<TInner> {
    type TNoise = ScaleNoise<TInner::TNoise>;

    /// The inner configuration is seeded with the same seed; the scales stay.
    open spec fn seeds_to(&self, seed: u64, noise: &ScaleNoise<TInner::TNoise>) -> bool {
        &&& self.contents.seeds_to(seed, &noise.contents)
        &&& noise.scale_in == self.scale_in
        &&& noise.scale_out == self.scale_out
    }

    fn seed(&self, seed: u64) -> (noise: ScaleNoise<TInner::TNoise>) {
        ScaleNoise {
            contents: self.contents.seed(seed),
            scale_in: self.scale_in,
            scale_out: self.scale_out,
        }
    }
}

} // verus!
