use worldgen::add::AddNoise;
use worldgen::fixed::{fx_add, fx_floor, fx_from_int, fx_mul, fx_sub, HALF, ONE};
use worldgen::gradient::Gradient;
use worldgen::hash::HashNoise;
use worldgen::noise::{u64_bytes, NoiseConfig, NoiseDomain, Split};
use worldgen::octaves::Octaves;
use worldgen::perm_table::{PermSeeded, PermTable};
use worldgen::scale::ScaleNoise;
use worldgen::simplex::{gradient, simplex_2, simplex_factor_2, Simplex, SIMPLEX_BOUND};
use worldgen::sum::SumNoise;

fn identity_draws() -> Vec<u8> {
    (1..=255u8).collect()
}

fn identity_table() -> PermTable {
    PermTable::from_draws(&identity_draws())
}

fn is_permutation(table: &PermTable) -> bool {
    let mut seen = [false; 256];
    for entry in table.0.iter() {
        if seen[*entry as usize] {
            return false;
        }
        seen[*entry as usize] = true;
    }
    true
}

#[test]
fn fixed_point_sums_saturate() {
    assert_eq!(fx_add(ONE, HALF), 25165824);
    assert_eq!(fx_add(i64::MAX, 1), i64::MAX);
    assert_eq!(fx_add(i64::MIN, -1), i64::MIN);
    assert_eq!(fx_sub(ONE, HALF), HALF);
    assert_eq!(fx_sub(i64::MIN, 1), i64::MIN);
    assert_eq!(fx_sub(0, i64::MIN), i64::MAX);
}

#[test]
fn fixed_point_products_round_down() {
    assert_eq!(fx_mul(3 * ONE, HALF), 3 * HALF);
    assert_eq!(fx_mul(1, HALF), 0);
    assert_eq!(fx_mul(-1, HALF), -1);
    assert_eq!(fx_mul(-3 * ONE, 2 * ONE), -6 * ONE);
    assert_eq!(fx_mul(i64::MAX, 2 * ONE), i64::MAX);
    assert_eq!(fx_mul(i64::MIN, 2 * ONE), i64::MIN);
    assert_eq!(fx_mul(i64::MIN, -ONE), i64::MAX);
}

#[test]
fn fixed_point_floor_of_negative_numbers() {
    assert_eq!(fx_from_int(-7), -7 * ONE);
    assert_eq!(fx_from_int(i32::MIN), -36028797018963968);
    assert_eq!(fx_floor(ONE + 1), 1);
    assert_eq!(fx_floor(-1), -1);
    assert_eq!(fx_floor(-ONE), -1);
    assert_eq!(fx_floor(-ONE - 1), -2);
}

#[test]
fn bytes_are_little_endian() {
    assert_eq!(u64_bytes(0x0102030405060708), vec![8, 7, 6, 5, 4, 3, 2, 1]);
    assert_eq!(u64_bytes(0), vec![0; 8]);
    assert_eq!(u64_bytes(u64::MAX), vec![255; 8]);
}

#[test]
fn split_is_stable_across_calls() {
    for seed in [0u64, 1, 1234, u64::MAX] {
        for n in 0..4usize {
            assert_eq!(seed.split(n), seed.split(n));
        }
    }
}

#[test]
fn split_separates_indices_and_seeds() {
    let seed: u64 = 1234;
    assert_ne!(seed.split(0), seed.split(1));
    assert_ne!(seed.split(0), 1235u64.split(0));
    assert_ne!(seed.split(0), seed);
}

#[test]
fn shuffle_of_diagonal_draws_is_the_identity() {
    let table = identity_table();
    for i in 0..256usize {
        assert_eq!(table.0[i], i as u8);
    }
}

#[test]
fn shuffle_of_zero_draws_rotates() {
    let draws = vec![0u8; 255];
    let table = PermTable::from_draws(&draws);
    assert_eq!(table.0[0], 255);
    for i in 1..256usize {
        assert_eq!(table.0[i], (i - 1) as u8);
    }
    assert_eq!(table.get(0), 255);
    assert_eq!(table.get(255), 254);
}

#[test]
fn seeded_table_is_a_permutation() {
    for seed in [0u64, 1, 2, 1234, 987654321, u64::MAX] {
        assert!(is_permutation(&PermTable::new(seed)));
    }
}

#[test]
fn seeded_table_depends_on_the_seed_alone() {
    let first = PermTable::new(1234);
    let second = PermTable::new(1234);
    assert_eq!(first.0, second.0);
    let other = PermTable::new(1235);
    assert_ne!(first.0, other.0);
    assert_eq!(&first.0[..8], &[162, 213, 224, 31, 164, 5, 175, 50]);
}

#[test]
fn gradient_index_hashes_through_the_table() {
    let table = identity_table();
    assert_eq!(table.gradient_index(0, 0), 0);
    assert_eq!(table.gradient_index(5, 9), 2);
    assert_eq!(table.gradient_index(200, 100), (44u8) % 12);
    assert_eq!(table.gradient_index(255, 255), 254 % 12);
    let rotated = PermTable::from_draws(&vec![0u8; 255]);
    assert_eq!(rotated.gradient_index(0, 0), 254 % 12);
    assert_eq!(rotated.gradient_index(3, 0), 1);
}

#[test]
fn gradients_are_the_twelve_edge_directions() {
    let expected: [(i8, i8); 12] = [
        (1, 1),
        (-1, 1),
        (1, -1),
        (-1, -1),
        (1, 0),
        (-1, 0),
        (1, 0),
        (-1, 0),
        (0, 1),
        (0, -1),
        (0, 1),
        (0, -1),
    ];
    for p in 0..12u8 {
        assert_eq!(gradient(p), expected[p as usize]);
    }
}

#[test]
fn corner_out_of_reach_adds_nothing() {
    let table = identity_table();
    assert_eq!(simplex_factor_2(&table, 0, 0, 16777216, 0), 0);
    assert_eq!(simplex_factor_2(&table, 0, 0, 0, -16777216), 0);
    assert_eq!(simplex_factor_2(&table, 0, 0, 11863284, 0), 0);
    assert_eq!(simplex_factor_2(&table, 0, 0, i128::MAX / 4, i128::MIN / 4), 0);
}

#[test]
fn corner_at_its_lattice_point_adds_nothing() {
    let table = identity_table();
    assert_eq!(simplex_factor_2(&table, 0, 0, 0, 0), 0);
    assert_eq!(simplex_factor_2(&table, 17, 3, 0, 0), 0);
}

#[test]
fn corner_value_is_kernel_times_gradient() {
    let table = identity_table();
    // gradient 0 is (1, 1); t = 1/2 - 1/16 - 1/16 = 3/8; t^4 = 81/4096; dot = 1/2
    assert_eq!(simplex_factor_2(&table, 0, 0, 4194304, 4194304), 165888);
    // gradient 1 is (-1, 1): the dot product vanishes
    assert_eq!(simplex_factor_2(&table, 1, 0, 4194304, 4194304), 0);
    // gradient 3 is (-1, -1)
    assert_eq!(simplex_factor_2(&table, 3, 0, 4194304, 4194304), -165888);
}

#[test]
fn simplex_values_on_the_identity_table() {
    let table = identity_table();
    assert_eq!(simplex_2(&table, 0, 0), 0);
    assert_eq!(simplex_2(&table, 8388608, 0), 13931190);
    assert_eq!(simplex_2(&table, 4194304, 5592405), 6523020);
    assert_eq!(simplex_2(&table, -83873735, 117441511), -7572530);
    assert_eq!(simplex_2(&table, 123456789, -987654321), -192080);
    assert_eq!(simplex_2(&table, 50331648, 50331648), 6708450);
}

#[test]
fn simplex_values_on_the_rotated_table() {
    let table = PermTable::from_draws(&vec![0u8; 255]);
    assert_eq!(simplex_2(&table, 8388608, 0), 3520860);
    assert_eq!(simplex_2(&table, 123456789, -987654321), 547260);
}

#[test]
fn seeded_simplex_agrees_with_its_table() {
    let noise = Simplex::new().seed(12345);
    let table = PermTable::new(12345);
    assert_eq!(noise.perm_table.0, table.0);
    for (x, y) in [(8388608i64, 0i64), (123456789, -987654321), (-83873735, 117441511)] {
        assert_eq!(noise.noise(x, y), simplex_2(&table, x, y));
    }
    assert_eq!(noise.noise(8388608, 0), -13479270);
    assert_eq!(noise.noise(123456789, -987654321), 2732380);
    assert_eq!(noise.noise(-83873735, 117441511), -7775320);
}

#[test]
fn simplex_stays_within_one() {
    for seed in [1u64, 12345, 99999] {
        let noise = Simplex::new().seed(seed);
        let mut state: u64 = seed;
        for _ in 0..100000 {
            state = state.wrapping_mul(6364136223846793005).wrapping_add(1442695040888963407);
            let x = ((state >> 20) as i64 % (1 << 34)) - (1 << 33);
            state = state.wrapping_mul(6364136223846793005).wrapping_add(1442695040888963407);
            let y = ((state >> 20) as i64 % (1 << 34)) - (1 << 33);
            let value = noise.noise(x, y);
            assert!(-ONE <= value && value <= ONE, "{} at ({}, {})", value, x, y);
        }
    }
}

#[test]
fn simplex_is_total_at_the_ends_of_the_range() {
    let table = identity_table();
    for x in [i64::MIN, i64::MIN + 1, -1, 0, 1, i64::MAX - 1, i64::MAX] {
        for y in [i64::MIN, -1, 0, 1, i64::MAX] {
            let value = simplex_2(&table, x, y);
            assert!(-SIMPLEX_BOUND <= value && value <= SIMPLEX_BOUND);
        }
    }
}

#[test]
fn simplex_is_continuous_across_cells() {
    let noise = Simplex::new().seed(7);
    let mut previous = noise.noise(-40 * ONE, 3 * ONE + 12345);
    let mut x = -40 * ONE;
    while x < 40 * ONE {
        x += 4096;
        let value = noise.noise(x, 3 * ONE + 12345);
        assert!((value - previous).abs() < 20000, "jump at {}", x);
        previous = value;
    }
}

#[test]
fn gradient_is_the_dot_product() {
    let ramp = Gradient::new(0, ONE);
    assert_eq!(ramp.noise(5 * ONE, -7 * ONE), -7 * ONE);
    let slanted = Gradient::new(2 * ONE, -HALF);
    assert_eq!(slanted.noise(3 * ONE, 4 * ONE), 4 * ONE);
    let seeded = slanted.seed(99);
    assert_eq!(seeded.direction_x, 2 * ONE);
    assert_eq!(seeded.direction_y, -HALF);
}

#[test]
fn scale_multiplies_point_and_value() {
    let scaled = ScaleNoise::new(Gradient::new(ONE, 0), 2 * ONE, 3 * ONE);
    assert_eq!(scaled.noise(ONE, 0), 6 * ONE);
    assert_eq!(scaled.noise(-HALF, 12345), -3 * ONE);
    let shrunk = ScaleNoise::new(Gradient::new(0, ONE), 4096, 192 * ONE);
    assert_eq!(shrunk.noise(0, 4096 * ONE), 192 * ONE);
}

#[test]
fn scale_keeps_its_factors_when_seeded() {
    let config = ScaleNoise::new(Simplex::new(), 2 * ONE, HALF);
    let noise = config.seed(5);
    assert_eq!(noise.scale_in, 2 * ONE);
    assert_eq!(noise.scale_out, HALF);
    assert_eq!(noise.contents.perm_table.0, PermTable::new(5).0);
    let inner = Simplex::new().seed(5);
    assert_eq!(noise.noise(1234567, -7654321), fx_mul(inner.noise(2469134, -15308642), HALF));
}

#[test]
fn sum_adds_its_terms() {
    let sum = SumNoise::new(vec![Gradient::new(ONE, 0), Gradient::new(0, ONE), Gradient::new(ONE, ONE)]);
    assert_eq!(sum.noise(2 * ONE, 5 * ONE), 14 * ONE);
    let empty: SumNoise<Gradient> = SumNoise::new(Vec::new());
    assert_eq!(empty.noise(2 * ONE, 5 * ONE), 0);
}

#[test]
fn sum_seeds_each_term_with_its_child_seed() {
    let config = SumNoise::new(vec![Simplex::new(), Simplex::new(), Simplex::new()]);
    let seed: u64 = 42;
    let noise = config.seed(seed);
    assert_eq!(noise.values.len(), 3);
    for k in 0..3usize {
        assert_eq!(noise.values[k].perm_table.0, PermTable::new(seed.split(k)).0);
    }
    assert_ne!(noise.values[0].perm_table.0, noise.values[1].perm_table.0);
}

#[test]
fn add_seeds_its_sides_with_the_first_two_child_seeds() {
    let config = AddNoise::new(Simplex::new(), Simplex::new());
    let seed: u64 = 42;
    let noise = config.seed(seed);
    assert_eq!(noise.first.perm_table.0, PermTable::new(seed.split(0)).0);
    assert_eq!(noise.second.perm_table.0, PermTable::new(seed.split(1)).0);
    let x = 3 * ONE + 5;
    let y = -2 * ONE + 77;
    assert_eq!(noise.noise(x, y), noise.first.noise(x, y) + noise.second.noise(x, y));
}

#[test]
fn octaves_double_the_frequency_and_halve_the_amplitude() {
    let octaves = Octaves::<Gradient, 5>::new(Gradient::new(ONE, 0), 2 * ONE, HALF);
    assert_eq!(octaves.contents.values.len(), 5);
    for i in 0..5usize {
        assert_eq!(octaves.contents.values[i].scale_in, ONE << i);
        assert_eq!(octaves.contents.values[i].scale_out, ONE >> i);
    }
    // each octave of a ramp gives x * 2^i / 2^i = x
    assert_eq!(octaves.noise(3 * ONE, 0), 15 * ONE);
}

#[test]
fn octaves_of_none_are_silent() {
    let octaves = Octaves::<Gradient, 0>::new(Gradient::new(ONE, 0), 2 * ONE, HALF);
    assert_eq!(octaves.contents.values.len(), 0);
    assert_eq!(octaves.noise(3 * ONE, 0), 0);
}

#[test]
fn octaves_of_simplex_sum_their_scaled_copies() {
    let config = Octaves::<Simplex, 3>::new(Simplex::new(), 2 * ONE, HALF);
    let seed: u64 = 77;
    let noise = config.seed(seed);
    let x = 1234567;
    let y = -7654321;
    let mut expected = 0;
    for i in 0..3usize {
        let copy = PermSeeded { config: Simplex::new(), perm_table: PermTable::new(seed.split(i)) };
        expected = fx_add(expected, fx_mul(copy.noise(x << i, y << i), ONE >> i));
    }
    assert_eq!(noise.noise(x, y), expected);
}

#[test]
fn hash_noise_draws_lie_in_the_unit_interval() {
    let hash = HashNoise::new().seed(1234);
    for x in -50..50i32 {
        for y in -50..50i32 {
            let draw = hash.noise(fx_from_int(x), fx_from_int(y));
            assert!(0 <= draw && draw < ONE);
        }
    }
}

#[test]
fn hash_noise_is_constant_on_a_cell() {
    let hash = HashNoise::new().seed(1234);
    assert_eq!(hash.noise(0, 0), hash.noise(ONE - 1, ONE - 1));
    assert_eq!(hash.noise(-1, -1), hash.noise(-ONE, -ONE));
    assert_ne!(hash.noise(0, 0), hash.noise(-1, 0));
    assert_ne!(hash.noise(0, 0), hash.noise(ONE, 0));
    assert_ne!(hash.noise(ONE, 0), hash.noise(0, ONE));
}

#[test]
fn hash_noise_is_the_top_of_the_digest() {
    let hash = HashNoise::new().seed(1234);
    assert_eq!(hash.seed, 1234);
    assert_eq!(hash.noise(0, 0) as u64, hash.digest(0, 0) >> 40);
    assert_eq!(hash.noise(-ONE, 5 * ONE + 3) as u64, hash.digest(-1, 5) >> 40);
    assert_eq!(hash.digest(0, 0), hash.digest(0, 0));
    assert_ne!(hash.digest(0, 0), HashNoise::new().seed(1235).digest(0, 0));
}
