//! The permutation table that seeds gradient noise: the numbers `0..=255` in
//! an order drawn from a seeded generator.
use vstd::prelude::*;
use rand::rngs::StdRng;
use rand::{Rng, SeedableRng};

verus! {

/// The seeded generator of the `rand` crate. Nothing is known of its state.
#[verifier::external_type_specification]
#[verifier::external_body]
pub struct ExStdRng(StdRng);

/// Calls `StdRng::seed_from_u64`, which builds a generator from a 64-bit seed.
/// Nothing is claimed of the generator.
#[verifier::external_body]
fn rng_from_seed(seed: u64) -> (rng: StdRng) {
    StdRng::seed_from_u64(seed)
}

/// Calls `Rng::gen_range` with the bounds `0` and `high`. The crate documents
/// that the value lies in `[low, high)` and that the call panics if
/// `low >= high`, so `high` must be positive and the value is below it.
#[verifier::external_body]
fn draw_below(rng: &mut StdRng, high: u8) -> (j: u8)
    requires
        high > 0,
    ensures
        j < high,
{
    rng.gen_range(0, high)
}

/// Calls `Rng::fill` on a buffer of one byte and hands the byte back. Nothing
/// is claimed of it.
#[verifier::external_body]
fn draw_byte(rng: &mut StdRng) -> (j: u8) {
    let mut j = [0u8; 1];
    rng.fill(&mut j);
    j[0]
}

/// A table of 256 bytes. One built by [`PermTable::new`] or
/// [`PermTable::from_draws`] holds every number of `0..=255` once.
pub struct PermTable(pub [u8; 256]);

/// A noise configuration together with the permutation table of one seed.
pub struct PermSeeded<TConfig> {
    pub config: TConfig,
    pub perm_table: PermTable,
}

/// The draws that a shuffle takes: one for each step `1..=255`, the draw of
/// step `k + 1` being at most `k + 1`.
pub open spec fn valid_draws(draws: Seq<u8>) -> bool {
    &&& draws.len() == 255
    &&& forall|k: int| 0 <= k < 255 ==> #[trigger] draws[k] as int <= k + 1
}

/// The table after the steps `1..=n` of the shuffle. It starts as all zeros;
/// step `i` with draw `j` copies entry `j` to entry `i` and writes `i` to
/// entry `j`.
pub open spec fn shuffle_prefix(draws: Seq<u8>, n: nat) -> Seq<u8>
    decreases n,
{
    if n == 0 {
        Seq::new(256, |i: int| 0u8)
    } else {
        let t = shuffle_prefix(draws, (n - 1) as nat);
        let j = draws[n - 1] as int;
        t.update(n as int, t[j]).update(j, n as u8)
    }
}

/// The table that the draws give.
pub open spec fn shuffle(draws: Seq<u8>) -> Seq<u8> {
    shuffle_prefix(draws, 255)
}

/// The number `v` is one of the first `n` entries of `t`.
pub open spec fn occurs_below(t: Seq<u8>, n: int, v: int) -> bool {
    exists|i: int| 0 <= i < n && #[trigger] t[i] as int == v
}

/// The first `n` entries of `t` hold every number below `n` once, and nothing
/// else.
pub open spec fn permutes_prefix(t: Seq<u8>, n: int) -> bool {
    &&& t.len() == 256
    &&& forall|i: int| 0 <= i < n ==> (#[trigger] t[i] as int) < n
    &&& forall|i: int, j: int| 0 <= i < j < n ==> #[trigger] t[i] != #[trigger] t[j]
    &&& forall|v: int| 0 <= v < n ==> #[trigger] occurs_below(t, n, v)
}

/// Every number of `0..=255` occurs in `t`, once.
pub open spec fn is_permutation(t: Seq<u8>) -> bool {
    permutes_prefix(t, 256)
}

/// The gradient that a lattice point takes: the table entry at `base_x` plus
/// the entry at `base_y`, wrapped to a byte, taken modulo 12.
pub open spec fn gradient_index_spec(t: Seq<u8>, base_x: u8, base_y: u8) -> int {
    (t[(base_x as int + t[base_y as int] as int) % 256] as int) % 12
}

/// After `n` steps the first `n + 1` entries are a permutation of `0..=n`, and
/// the rest is still zero.
pub proof fn lemma_shuffle_prefix(draws: Seq<u8>, n: nat)
    requires
        valid_draws(draws),
        n <= 255,
    ensures
        permutes_prefix(shuffle_prefix(draws, n), n as int + 1),
        forall|i: int| n < i < 256 ==> #[trigger] shuffle_prefix(draws, n)[i] == 0u8,
    decreases n,
{
    let s = shuffle_prefix(draws, n);
    if n == 0 {
        assert(s[0] as int == 0);
    } else {
        let t = shuffle_prefix(draws, (n - 1) as nat);
        lemma_shuffle_prefix(draws, (n - 1) as nat);
        let j = draws[n - 1] as int;
        assert(0 <= j <= n);
        assert(s == t.update(n as int, t[j]).update(j, n as u8));
        assert(forall|i: int| 0 <= i <= n ==> (#[trigger] s[i] as int) < n + 1) by {
            assert forall|i: int| 0 <= i <= n implies (#[trigger] s[i] as int) < n + 1 by {
                if i == j {
                } else if i == n {
                    assert(s[i] == t[j]);
                } else {
                    assert(s[i] == t[i]);
                }
            }
        }
        assert forall|a: int, b: int| 0 <= a < b <= n implies #[trigger] s[a] != #[trigger] s[b] by {
            if b == n {
                if a == j {
                    // s[a] is n, s[b] is an old entry below n
                    assert(s[b] == t[j]);
                    assert((t[j] as int) < n);
                } else {
                    assert(s[a] == t[a]);
                    if j == n {
                        assert(s[b] as int == n);
                        assert((t[a] as int) < n);
                    } else {
                        assert(s[b] == t[j]);
                        assert(t[a] != t[j]);
                    }
                }
            } else {
                if a == j {
                    assert(s[b] == t[b]);
                    assert((t[b] as int) < n);
                } else if b == j {
                    assert(s[a] == t[a]);
                    assert((t[a] as int) < n);
                } else {
                    assert(s[a] == t[a]);
                    assert(s[b] == t[b]);
                }
            }
        }
        assert forall|v: int| 0 <= v <= n implies #[trigger] occurs_below(s, n as int + 1, v) by {
            if v == n {
                assert(s[j] as int == n);
            } else {
                assert(occurs_below(t, n as int, v));
                let i0 = choose|i: int| 0 <= i < n && #[trigger] t[i] as int == v;
                if i0 == j {
                    assert(s[n as int] == t[j]);
                    assert(s[n as int] as int == v);
                } else {
                    assert(s[i0] == t[i0]);
                    assert(s[i0] as int == v);
                }
            }
        }
        assert forall|i: int| n < i < 256 implies #[trigger] s[i] == 0u8 by {
            assert(s[i] == t[i]);
        }
    }
}

/// Whatever the draws, the shuffle gives a permutation of `0..=255`.
pub proof fn lemma_shuffle_is_permutation(draws: Seq<u8>)
    requires
        valid_draws(draws),
    ensures
        is_permutation(shuffle(draws)),
{
    lemma_shuffle_prefix(draws, 255);
}

impl PermTable {
    /// The table as a sequence of bytes.
    pub open spec fn view(&self) -> Seq<u8> {
        self.0@
    }

    /// Draws the table of a seed: 254 bounded draws and one free byte from a
    /// generator seeded with `seed`, then the shuffle of those draws. Which
    /// draws the generator gives is not stated; whatever they are, the table
    /// is the shuffle of valid draws, and so a permutation of `0..=255`.
    pub fn new(seed: u64) -> (table: PermTable)
        ensures
            exists|draws: Seq<u8>| valid_draws(draws) && table@ == shuffle(draws),
            is_permutation(table@),
    {
        let mut rng = rng_from_seed(seed);
        let mut draws: Vec<u8> = Vec::new();
        let mut i: u8 = 1;
        while draws.len() < 255
            invariant
                draws.len() <= 255,
                i as int == draws.len() + 1 || (draws.len() == 255 && i == 255),
                forall|k: int| 0 <= k < draws.len() ==> #[trigger] draws[k] as int <= k + 1,
            decreases 255 - draws.len(),
        {
            let j: u8 = if i < 255 {
                draw_below(&mut rng, i + 1)
            } else {
                draw_byte(&mut rng)
            };
            draws.push(j);
            if i < 255 {
                i = i + 1;
            }
        }
        let table = PermTable::from_draws(&draws);
        proof {
            lemma_shuffle_is_permutation(draws@);
        }
        table
    }

    /// The shuffle of the given draws.
    pub fn from_draws(draws: &Vec<u8>) -> (table: PermTable)
        requires
            valid_draws(draws@),
        ensures
            table@ == shuffle(draws@),
    {
        let mut table: [u8; 256] = [0u8; 256];
        assert(table@ =~= shuffle_prefix(draws@, 0));
        let mut i: usize = 1;
        while i <= 255
            invariant
                1 <= i <= 256,
                valid_draws(draws@),
                table@ == shuffle_prefix(draws@, (i - 1) as nat),
            decreases 256 - i,
        {
            let j: usize = draws[i - 1] as usize;
            let moved: u8 = table[j];
            table[i] = moved;
            table[j] = i as u8;
            assert(table@ =~= shuffle_prefix(draws@, i as nat));
            i = i + 1;
        }
        PermTable(table)
    }

    /// The entry at `index`.
    pub fn get(&self, index: u8) -> (entry: u8)
        ensures
            entry == self@[index as int],
    {
        self.0[index as usize]
    }

    /// Which of the twelve gradients the lattice point `(base_x, base_y)`
    /// takes.
    pub fn gradient_index(&self, base_x: u8, base_y: u8) -> (p: u8)
        ensures
            p as int == gradient_index_spec(self@, base_x, base_y),
            p < 12,
    {
        let inner: u8 = self.0[base_y as usize];
        let at: u8 = base_x.wrapping_add(inner);
        self.0[at as usize] % 12
    }
}

} // verus!
