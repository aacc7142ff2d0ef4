//! The interfaces of the noise framework: a configuration is seeded to give a
//! noise field, and a field is evaluated at a point.
use vstd::prelude::*;
use std::collections::hash_map::DefaultHasher;
use std::hash::Hasher;
use vstd::std_specs::hash::DefaultHasherAdditionalSpecFns;
use crate::fixed::Fixed;

verus! {

/// A seeded noise field.
pub trait Noise {

}

/// A noise field over the plane. Points and values are fixed-point numbers.
pub trait NoiseDomain: Noise {
    /// The value of the field at the point `(x, y)`.
    spec fn value_at(&self, x: int, y: int) -> int;

    /// Evaluates the field at `(x, y)`. The value depends on the field and
    /// the point alone.
    fn noise(&self, x: Fixed, y: Fixed) -> (value: Fixed)
        ensures
            value as int == self.value_at(x as int, y as int),
    ;
}

/// An unseeded description of a noise field.
pub trait NoiseConfig {
    /// The field that a seed makes of this configuration.
    type TNoise: NoiseDomain;

    /// Whether `noise` is this configuration under `seed`.
    spec fn seeds_to(&self, seed: u64, noise: &Self::TNoise) -> bool;

    /// Binds the configuration to a seed.
    fn seed(&self, seed: u64) -> (noise: Self::TNoise)
        ensures
            self.seeds_to(seed, &noise),
    ;
}

/// A seed from which child seeds are derived.
pub trait Split: Sized {
    /// The child seed with index `n`.
    spec fn split_spec(&self, n: usize) -> Self;

    /// Derives the child seed with index `n`. The same parent and index give
    /// the same child.
    fn split(&self, n: usize) -> (child: Self)
        ensures
            child == self.split_spec(n),
    ;
}

/// The `n` low bytes of `v`, lowest first.
pub open spec fn le_bytes(v: nat, n: nat) -> Seq<u8>
    decreases n,
{
    if n == 0 {
        Seq::empty()
    } else {
        seq![(v % 256) as u8] + le_bytes(v / 256, (n - 1) as nat)
    }
}

/// The eight bytes of `v`, lowest first.
pub fn u64_bytes(v: u64) -> (bytes: Vec<u8>)
    ensures
        bytes@ == le_bytes(v as nat, 8),
{
    let mut bytes: Vec<u8> = Vec::new();
    let mut rest: u64 = v;
    let mut k: usize = 0;
    while k < 8
        invariant
            k <= 8,
            bytes@.len() == k,
            bytes@ + le_bytes(rest as nat, (8 - k) as nat) == le_bytes(v as nat, 8),
        decreases 8 - k,
    {
        let ghost before = bytes@;
        bytes.push((rest % 256) as u8);
        proof {
            assert(bytes@ + le_bytes((rest / 256) as nat, (8 - k - 1) as nat) =~= before
                + le_bytes(rest as nat, (8 - k) as nat));
        }
        rest = rest / 256;
        k = k + 1;
    }
    proof {
        assert(bytes@ + le_bytes(rest as nat, 0) =~= bytes@);
    }
    bytes
}

/// The child seed of `seed` with index `n`: the standard library's default
/// hasher is fed the eight bytes of the seed, then the eight bytes of the
/// index, and its digest is the child.
pub open spec fn split_seed(seed: u64, n: usize) -> u64 {
    DefaultHasher::spec_finish(seq![le_bytes(seed as nat, 8), le_bytes(n as nat, 8)])
}

impl Split for u64 {
    open spec fn split_spec(&self, n: usize) -> u64 {
        split_seed(*self, n)
    }

    fn split(&self, n: usize) -> (child: u64) {
        let mut hasher = DefaultHasher::new();
        let seed_bytes = u64_bytes(*self);
        hasher.write(seed_bytes.as_slice());
        let index_bytes = u64_bytes(n as u64);
        hasher.write(index_bytes.as_slice());
        proof {
            assert(hasher@ =~= seq![le_bytes(*self as nat, 8), le_bytes(n as nat, 8)]);
        }
        hasher.finish()
    }
}

} // verus!
