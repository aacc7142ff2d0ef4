//! Positional hash noise: a value for every cell of the integer grid, with no
//! relation between neighbours.
use vstd::prelude::*;
use std::collections::hash_map::DefaultHasher;
use std::hash::Hasher;
use vstd::std_specs::hash::DefaultHasherAdditionalSpecFns;
use crate::fixed::{fx_floor, Fixed};
use crate::noise::{le_bytes, u64_bytes, Noise, NoiseConfig, NoiseDomain};

verus! {

/// The configuration of hash noise. It has no parameters.
#[derive(Clone, Copy)]
pub struct HashNoise;

/// Hash noise under a seed.
#[derive(Clone, Copy)]
pub struct SeededHash {
    pub seed: u64,
}

/// The digest of a cell: the standard library's default hasher is fed the
/// eight bytes of the seed, then those of each coordinate of the cell, moved
/// up by 2^63 so that it is not negative.
pub open spec fn cell_hash(seed: u64, cell_x: int, cell_y: int) -> u64 {
    DefaultHasher::spec_finish(
        seq![
            le_bytes(seed as nat, 8),
            le_bytes((cell_x + 0x8000_0000_0000_0000) as nat, 8),
            le_bytes((cell_y + 0x8000_0000_0000_0000) as nat, 8),
        ],
    )
}

/// The draw of the cell that holds `(x, y)`: the top 24 bits of its digest,
/// read as a fixed-point number in `[0, 1)`.
pub open spec fn hash_value(seed: u64, x: int, y: int) -> int {
    (cell_hash(seed, x / 16777216, y / 16777216) as int) / 0x100_0000_0000
}

impl HashNoise {
    /// The configuration of hash noise.
    pub fn new() -> (config: HashNoise) {
        HashNoise
    }
}

impl SeededHash {
    /// The digest of the cell `(cell_x, cell_y)`.
    pub fn digest(&self, cell_x: i64, cell_y: i64) -> (digest: u64)
        ensures
            digest == cell_hash(self.seed, cell_x as int, cell_y as int),
    {
        let mut hasher = DefaultHasher::new();
        let seed_bytes = u64_bytes(self.seed);
        hasher.write(seed_bytes.as_slice());
        let x_bytes = u64_bytes((cell_x as i128 + 0x8000_0000_0000_0000) as u64);
        hasher.write(x_bytes.as_slice());
        let y_bytes = u64_bytes((cell_y as i128 + 0x8000_0000_0000_0000) as u64);
        hasher.write(y_bytes.as_slice());
        proof {
            assert(hasher@ =~= seq![
                le_bytes(self.seed as nat, 8),
                le_bytes((cell_x as int + 0x8000_0000_0000_0000) as nat, 8),
                le_bytes((cell_y as int + 0x8000_0000_0000_0000) as nat, 8),
            ]);
        }
        hasher.finish()
    }
}

impl Noise for SeededHash {

}

impl NoiseDomain for SeededHash {
    open spec fn value_at(&self, x: int, y: int) -> int {
        hash_value(self.seed, x, y)
    }

    fn noise(&self, x: Fixed, y: Fixed) -> (value: Fixed) {
        let digest = self.digest(fx_floor(x), fx_floor(y));
        (digest / 0x100_0000_0000) as i64
    }
}

impl NoiseConfig for HashNoise {
    type TNoise = SeededHash;

    open spec fn seeds_to(&self, seed: u64, noise: &SeededHash) -> bool {
        noise.seed == seed
    }

    fn seed(&self, seed: u64) -> (noise: SeededHash) {
        SeededHash { seed }
    }
}

/// A draw of hash noise lies in `[0, 1)`.
pub proof fn lemma_hash_value_range(seed: u64, x: int, y: int)
    ensures
        0 <= hash_value(seed, x, y) < 16777216,
{
}

} // verus!
