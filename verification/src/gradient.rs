//! A linear ramp: the dot product of the point with a fixed direction.
use vstd::prelude::*;
use crate::fixed::{fx_add, fx_add_spec, fx_mul, fx_mul_spec, Fixed};
use crate::noise::{Noise, NoiseConfig, NoiseDomain};

verus! {

/// The field `dot(p, direction)`. It takes no randomness: seeding leaves it
/// as it is.
#[derive(Clone, Copy)]
pub struct Gradient {
    pub direction_x: Fixed,
    pub direction_y: Fixed,
}

impl Gradient {
    /// The ramp along `(direction_x, direction_y)`.
    pub fn new(direction_x: Fixed, direction_y: Fixed) -> (ramp: Self)
        ensures
            ramp.direction_x == direction_x,
            ramp.direction_y == direction_y,
    {
        Gradient { direction_x, direction_y }
    }
}

impl Noise for Gradient {

}

impl NoiseDomain for Gradient {
    open spec fn value_at(&self, x: int, y: int) -> int {
        fx_add_spec(
            fx_mul_spec(x, self.direction_x as int),
            fx_mul_spec(y, self.direction_y as int),
        )
    }

    fn noise(&self, x: Fixed, y: Fixed) -> (value: Fixed) {
        fx_add(fx_mul(x, self.direction_x), fx_mul(y, self.direction_y))
    }
}

impl NoiseConfig for Gradient {
    type TNoise = Gradient;

    open spec fn seeds_to(&self, seed: u64, noise: &Gradient) -> bool {
        *noise == *self
    }

    fn seed(&self, seed: u64) -> (noise: Gradient) {
        *self
    }
}

} // verus!
