use worldgen::add::AddNoise;
use worldgen::block::Block;
use worldgen::colour::Colour;
use worldgen::fixed::{HALF, ONE};
use worldgen::game_rules::{register, GameRules};
use worldgen::gradient::Gradient;
use worldgen::hash::HashNoise;
use worldgen::layer::{blend, candidate_layers, distance, dominance, push_scaled, Layer};
use worldgen::octaves::Octaves;
use worldgen::random::{sum_weights, weighted_index, weighted_random};
use worldgen::scale::ScaleNoise;
use worldgen::simplex::Simplex;

fn whole(n: i64) -> i64 {
    n * ONE
}

fn layer(start: Option<i64>, end: Option<i64>, blocks: Vec<(u16, i64)>) -> Layer {
    Layer::new(start.map(whole), end.map(whole), blocks)
}

fn rules_of(layers: Vec<Layer>, blocks: usize) -> GameRules {
    let mut list = Vec::new();
    for i in 0..blocks {
        register(&mut list, Block::fg(Colour::grey(100 + i as u8), 0, 0));
    }
    GameRules {
        blocks: list,
        layers,
        depth: AddNoise::new(
            ScaleNoise::new(Octaves::<Simplex, 10>::new(Simplex::new(), 2 * ONE, HALF), 4096, 192 * ONE),
            Gradient::new(0, ONE),
        ),
        data: HashNoise::new(),
    }
}

#[test]
fn weights_are_summed_exactly() {
    assert_eq!(sum_weights(&vec![('a', ONE), ('b', 3 * ONE), ('c', -ONE)]), 3 * ONE as i128);
    assert_eq!(
        sum_weights(&vec![(0u8, i64::MAX), (1u8, i64::MAX), (2u8, i64::MAX)]),
        3 * i64::MAX as i128
    );
    let empty: Vec<(u8, i64)> = Vec::new();
    assert_eq!(sum_weights(&empty), 0);
}

#[test]
fn draw_is_compared_with_the_running_sum() {
    let list = vec![('a', ONE), ('b', 3 * ONE)];
    assert_eq!(weighted_random(list.clone(), 0), 'a');
    assert_eq!(weighted_random(list.clone(), ONE / 4 - 1), 'a');
    assert_eq!(weighted_random(list.clone(), ONE / 4), 'b');
    assert_eq!(weighted_random(list.clone(), ONE - 1), 'b');
    assert_eq!(weighted_index(&list, ONE / 4 - 1), 0);
    assert_eq!(weighted_index(&list, ONE / 4), 1);
}

#[test]
fn zero_draw_takes_the_first_positive_weight() {
    let list = vec![('x', 0), ('y', 5), ('z', 1)];
    assert_eq!(weighted_random(list, 0), 'y');
    let list = vec![('x', 0), ('y', 0), ('z', 1)];
    assert_eq!(weighted_random(list, 0), 'z');
    let list = vec![('x', 7), ('y', 0)];
    assert_eq!(weighted_random(list, 0), 'x');
}

#[test]
fn top_draw_takes_the_entry_that_reaches_the_total() {
    let list = vec![('a', ONE), ('b', ONE), ('c', 0)];
    assert_eq!(weighted_random(list, ONE - 1), 'b');
    let list = vec![('a', 1), ('b', 1), ('c', 1)];
    assert_eq!(weighted_random(list, ONE - 1), 'c');
    let list = vec![('a', 3 * ONE)];
    assert_eq!(weighted_random(list, ONE - 1), 'a');
}

#[test]
fn total_that_is_not_positive_takes_the_first_entry() {
    for draw in [0, 1, HALF, ONE - 1] {
        assert_eq!(weighted_random(vec![('a', 0), ('b', 0)], draw), 'a');
        assert_eq!(weighted_random(vec![('a', -5), ('b', 5)], draw), 'a');
        assert_eq!(weighted_random(vec![('a', 3), ('b', -9)], draw), 'a');
        assert_eq!(weighted_random(vec![('a', 0)], draw), 'a');
    }
}

#[test]
fn weights_need_not_be_normalized() {
    let list = vec![(1u16, 10 * ONE), (2u16, 40 * ONE), (3u16, 10 * ONE)];
    assert_eq!(weighted_random(list.clone(), ONE / 6 - 1), 1);
    assert_eq!(weighted_random(list.clone(), ONE / 6 + 1), 2);
    assert_eq!(weighted_random(list.clone(), (5 * ONE) / 6 - 1), 2);
    assert_eq!(weighted_random(list.clone(), (5 * ONE) / 6 + 1), 3);
}

#[test]
fn huge_weights_do_not_overflow() {
    let list = vec![(1u16, i64::MAX), (2u16, i64::MAX), (3u16, i64::MAX), (4u16, i64::MAX)];
    assert_eq!(weighted_random(list.clone(), 0), 1);
    assert_eq!(weighted_random(list.clone(), ONE / 4 - 1), 1);
    assert_eq!(weighted_random(list.clone(), ONE / 4), 2);
    assert_eq!(weighted_random(list.clone(), ONE - 1), 4);
}

#[test]
fn layer_weights_are_divided_by_their_total() {
    let made = Layer::new(None, Some(0), vec![(7, ONE), (9, 3 * ONE)]);
    assert_eq!(made.start, None);
    assert_eq!(made.end, Some(0));
    assert_eq!(made.blocks.blocks, vec![(7, ONE / 4), (9, 3 * (ONE / 4))]);
    let made = Layer::new(Some(5), None, vec![(1, 999), (2, 1)]);
    assert_eq!(made.blocks.blocks, vec![(1, 16760439), (2, 16777)]);
}

#[test]
fn normalized_weights_add_up_to_one() {
    let made = Layer::new(None, None, vec![(1, ONE), (2, ONE), (3, ONE)]);
    assert_eq!(made.blocks.blocks, vec![(1, 5592406), (2, 5592405), (3, 5592405)]);
    let total: i64 = made.blocks.blocks.iter().map(|e| e.1).sum();
    assert_eq!(total, ONE);
    assert!((total as f64 / ONE as f64 - 1.0).abs() <= 1e-9);
    let made = Layer::new(None, None, vec![(1, 16760439), (2, 16777)]);
    assert_eq!(made.blocks.blocks, vec![(1, 16760439), (2, 16777)]);
    let mut state: i64 = 7;
    for n in 1..40usize {
        let mut raw = Vec::new();
        for id in 0..n {
            state = (state * 1103515245 + 12345) % 2147483648;
            raw.push((id as u16, state % 1000));
        }
        raw[n / 2].1 += 1;
        let made = Layer::new(None, None, raw.clone());
        assert_eq!(made.blocks.blocks.iter().map(|e| e.1).sum::<i64>(), ONE);
        for (entry, given) in made.blocks.blocks.iter().zip(raw.iter()) {
            assert_eq!(entry.0, given.0);
            assert!(entry.1 >= 0);
            assert_eq!(entry.1 == 0, given.1 == 0);
        }
    }
}

#[test]
fn leftover_of_rounding_goes_to_the_largest_weight() {
    let made = Layer::new(None, None, vec![(1, 1), (2, 5), (3, 1)]);
    assert_eq!(made.blocks.blocks, vec![(1, 2396745), (2, 11983726), (3, 2396745)]);
    let made = Layer::new(None, None, vec![(1, 0), (2, 3), (3, 3), (4, 1)]);
    assert_eq!(made.blocks.blocks, vec![(1, 0), (2, 7190236), (3, 7190235), (4, 2396745)]);
    let made = Layer::new(None, None, vec![(9, i64::MAX), (8, i64::MAX), (7, i64::MAX)]);
    assert_eq!(made.blocks.blocks, vec![(9, 5592406), (8, 5592405), (7, 5592405)]);
}

#[test]
fn weights_without_a_positive_total_are_kept() {
    let made = Layer::new(None, None, vec![(1, 0), (2, 0)]);
    assert_eq!(made.blocks.blocks, vec![(1, 0), (2, 0)]);
    let made = Layer::new(None, None, vec![(1, -4), (2, 3)]);
    assert_eq!(made.blocks.blocks, vec![(1, -4), (2, 3)]);
    let made = Layer::new(None, None, Vec::new());
    assert_eq!(made.blocks.blocks, Vec::new());
}

#[test]
fn layer_range_includes_both_ends() {
    let made = layer(Some(0), Some(200), vec![(1, ONE)]);
    assert!(made.contains(0));
    assert!(made.contains(whole(200)));
    assert!(made.contains(whole(100)));
    assert!(!made.contains(-1));
    assert!(!made.contains(whole(200) + 1));
    let below = layer(None, Some(0), vec![(1, ONE)]);
    assert!(below.contains(i64::MIN));
    assert!(below.contains(0));
    assert!(!below.contains(1));
    let above = layer(Some(1900), None, vec![(1, ONE)]);
    assert!(above.contains(i64::MAX));
    assert!(!above.contains(whole(1900) - 1));
}

#[test]
fn candidates_are_the_layers_that_hold_the_depth() {
    let layers = vec![
        layer(None, Some(0), vec![(0, ONE)]),
        layer(Some(0), Some(200), vec![(1, ONE)]),
        layer(Some(50), Some(1100), vec![(2, ONE)]),
    ];
    assert_eq!(candidate_layers(&layers, whole(-1)), vec![0]);
    assert_eq!(candidate_layers(&layers, 0), vec![0, 1]);
    assert_eq!(candidate_layers(&layers, whole(49)), vec![1]);
    assert_eq!(candidate_layers(&layers, whole(50)), vec![1, 2]);
    assert_eq!(candidate_layers(&layers, whole(200)), vec![1, 2]);
    assert_eq!(candidate_layers(&layers, whole(201)), vec![2]);
    assert_eq!(candidate_layers(&layers, whole(1101)), Vec::<usize>::new());
}

#[test]
fn distance_from_the_start_where_the_other_starts_below() {
    let inner = layer(Some(0), Some(200), vec![(1, ONE)]);
    let outer = layer(None, Some(0), vec![(0, ONE)]);
    assert_eq!(distance(&inner, &outer, whole(30)), Some(whole(30)));
    assert_eq!(distance(&inner, &outer, 0), Some(0));
    let lower = layer(Some(-10), Some(500), vec![(0, ONE)]);
    assert_eq!(distance(&inner, &lower, whole(30)), Some(whole(30)));
}

#[test]
fn distance_to_the_end_where_the_other_ends_above() {
    let inner = layer(None, Some(0), vec![(0, ONE)]);
    let outer = layer(Some(0), Some(200), vec![(1, ONE)]);
    assert_eq!(distance(&inner, &outer, whole(-30)), Some(whole(30)));
    assert_eq!(distance(&inner, &outer, 0), Some(0));
    let open = layer(Some(100), None, vec![(1, ONE)]);
    let closed = layer(Some(50), Some(300), vec![(1, ONE)]);
    assert_eq!(distance(&closed, &open, whole(120)), Some(whole(180)));
}

#[test]
fn distance_from_the_middle_of_an_enclosed_layer() {
    let outer = layer(Some(0), Some(100), vec![(0, ONE)]);
    let inner = layer(Some(10), Some(50), vec![(1, ONE)]);
    assert_eq!(distance(&outer, &inner, whole(20)), Some(whole(10)));
    assert_eq!(distance(&outer, &inner, whole(45)), Some(whole(15)));
    assert_eq!(distance(&outer, &outer, whole(50)), Some(0));
    let odd = Layer::new(Some(0), Some(1), vec![(1, ONE)]);
    assert_eq!(distance(&odd, &odd, 5), Some(5));
    let negative = Layer::new(Some(-3), Some(0), vec![(1, ONE)]);
    assert_eq!(distance(&negative, &negative, 0), Some(2));
}

#[test]
fn open_layer_gives_no_distance_from_its_middle() {
    let all = layer(None, None, vec![(0, ONE)]);
    let half = layer(Some(0), None, vec![(1, ONE)]);
    assert_eq!(distance(&all, &all, whole(5)), None);
    assert_eq!(distance(&all, &half, whole(5)), None);
    assert_eq!(distance(&half, &all, whole(5)), Some(whole(5)));
}

#[test]
fn distances_saturate() {
    let low = Layer::new(Some(i64::MIN), Some(i64::MIN + 5), vec![(0, ONE)]);
    let lower = Layer::new(None, Some(i64::MIN), vec![(0, ONE)]);
    assert_eq!(distance(&low, &lower, i64::MAX), Some(i64::MAX));
    let same = Layer::new(Some(i64::MIN), Some(i64::MIN + 2), vec![(0, ONE)]);
    assert_eq!(distance(&same, &same, i64::MAX), Some(i64::MAX));
}

#[test]
fn dominance_is_the_least_distance() {
    let layers = vec![
        layer(Some(0), Some(100), vec![(1, ONE)]),
        layer(Some(50), Some(150), vec![(2, ONE)]),
        layer(Some(80), Some(200), vec![(3, ONE)]),
    ];
    let cands = candidate_layers(&layers, whole(90));
    assert_eq!(cands, vec![0, 1, 2]);
    assert_eq!(dominance(&layers, &cands, 0, whole(90)), Some(whole(10)));
    assert_eq!(dominance(&layers, &cands, 1, whole(90)), Some(whole(40)));
    assert_eq!(dominance(&layers, &cands, 2, whole(90)), Some(whole(10)));
    let alone = vec![0usize];
    assert_eq!(dominance(&layers, &alone, 0, whole(90)), None);
}

#[test]
fn scaled_palette_is_appended() {
    let mut list = vec![(9u16, 1i64)];
    push_scaled(&mut list, &vec![(1, ONE), (2, HALF), (3, -ONE)], whole(3));
    assert_eq!(list, vec![(9, 1), (1, whole(3)), (2, 3 * HALF), (3, whole(-3))]);
    push_scaled(&mut list, &Vec::new(), whole(3));
    assert_eq!(list.len(), 4);
}

#[test]
fn single_candidate_offers_its_palette() {
    let layers = vec![
        layer(None, Some(0), vec![(0, 3), (1, 1)]),
        layer(Some(0), Some(200), vec![(2, ONE)]),
    ];
    assert_eq!(blend(&layers, whole(-5)), vec![(0, 3 * (ONE / 4)), (1, ONE / 4)]);
    assert_eq!(blend(&layers, whole(5)), vec![(2, ONE)]);
    assert_eq!(blend(&layers, whole(201)), Vec::new());
}

#[test]
fn overlapping_candidates_are_weighted_by_dominance() {
    let layers = vec![
        layer(Some(0), Some(100), vec![(1, ONE)]),
        layer(Some(50), Some(150), vec![(2, 1), (4, 1)]),
        layer(Some(80), Some(200), vec![(3, ONE)]),
    ];
    assert_eq!(
        blend(&layers, whole(90)),
        vec![(1, whole(10)), (2, whole(20)), (4, whole(20)), (3, whole(10))]
    );
    assert_eq!(blend(&layers, whole(60)), vec![(1, whole(40)), (2, whole(5)), (4, whole(5))]);
}

#[test]
fn candidate_without_a_distance_is_dropped() {
    let layers = vec![layer(None, None, vec![(0, ONE)]), layer(Some(0), None, vec![(1, ONE)])];
    assert_eq!(blend(&layers, whole(5)), vec![(1, whole(5))]);
    let layers = vec![layer(None, None, vec![(0, ONE)]), layer(None, None, vec![(1, ONE)])];
    assert_eq!(blend(&layers, whole(5)), Vec::new());
    let layers = vec![layer(None, None, vec![(0, ONE)]), layer(Some(0), Some(10), vec![(1, ONE)])];
    assert_eq!(blend(&layers, whole(5)), vec![(0, 0), (1, whole(5))]);
}

#[test]
fn weight_fades_to_nothing_at_the_boundary() {
    let layers = vec![
        layer(None, Some(100), vec![(0, ONE)]),
        layer(Some(0), None, vec![(1, ONE)]),
    ];
    let mut previous = whole(1);
    for step in [ONE, HALF, 4096, 16, 1, 0] {
        let list = blend(&layers, step);
        assert_eq!(list[0], (0, whole(100) - step));
        assert_eq!(list[1], (1, step));
        assert!(list[1].1 <= previous);
        previous = list[1].1;
    }
    assert_eq!(blend(&layers, -1), vec![(0, ONE)]);
    for step in [ONE, HALF, 16, 1, 0] {
        let list = blend(&layers, whole(100) - step);
        assert_eq!(list[0], (0, step));
        assert_eq!(list[1], (1, whole(100) - step));
    }
    assert_eq!(blend(&layers, whole(100) + 1), vec![(1, ONE)]);
}

#[test]
fn smallest_positive_product_stays_positive() {
    let mut list = Vec::new();
    push_scaled(&mut list, &vec![(1, 1), (2, HALF), (3, 0), (4, ONE + 1)], 1);
    assert_eq!(list, vec![(1, 1), (2, 1), (3, 0), (4, 2)]);
    let mut list = Vec::new();
    push_scaled(&mut list, &vec![(1, 1), (2, HALF)], 0);
    assert_eq!(list, vec![(1, 0), (2, 0)]);
    let mut list = Vec::new();
    push_scaled(&mut list, &vec![(1, i64::MAX), (2, -1), (3, -ONE - 1)], 2 * ONE);
    assert_eq!(list, vec![(1, i64::MAX), (2, -2), (3, -2 * ONE - 2)]);
}

#[test]
fn faded_layer_gives_no_block_at_its_end() {
    let layers = vec![
        Layer::new(None, Some(whole(10)), vec![(1, ONE)]),
        Layer::new(Some(whole(10) - 1), None, vec![(2, HALF), (3, HALF)]),
    ];
    assert_eq!(blend(&layers, whole(10)), vec![(1, 0), (2, 1), (3, 1)]);
    let rules = rules_of(layers, 4);
    let mut seen = [false; 4];
    for draw in [0, 1, HALF - 1, HALF, HALF + 1, ONE - 1] {
        let id = rules.select_block(whole(10), draw);
        assert!(id == 2 || id == 3, "block {} at draw {}", id, draw);
        seen[id as usize] = true;
    }
    assert!(seen[2] && seen[3]);
    for draw in [0, HALF, ONE - 1] {
        assert_eq!(rules.select_block(whole(10) - 1, draw), 1);
    }
}

#[test]
fn faded_layer_gives_no_block_at_its_start() {
    let rules = rules_of(
        vec![
            layer(None, Some(50), vec![(1, 1), (2, 1000)]),
            layer(Some(20), None, vec![(3, ONE)]),
        ],
        4,
    );
    for draw in [0, 1, HALF, ONE - 1] {
        let id = rules.select_block(whole(20), draw);
        assert!(id == 1 || id == 2);
    }
    let mut state: i64 = 3;
    for _ in 0..500 {
        state = (state * 1103515245 + 12345) % ONE;
        let id = rules.select_block(whole(50), state);
        assert_eq!(id, 3);
    }
}

#[test]
fn total_that_is_not_positive_ignores_the_draw() {
    for draw in [i64::MIN, -1, ONE, ONE + 1, i64::MAX] {
        assert_eq!(weighted_random(vec![('a', 0), ('b', 0)], draw), 'a');
        assert_eq!(weighted_random(vec![('a', -5), ('b', 5)], draw), 'a');
        assert_eq!(weighted_index(&vec![('a', -5), ('b', 4)], draw), 0);
    }
}

#[test]
fn high_draw_takes_the_last_positive_weight() {
    let list = vec![('a', HALF), ('b', 0), ('c', 2), ('d', 0), ('e', 0)];
    assert_eq!(weighted_random(list.clone(), ONE - 1), 'c');
    assert_eq!(weighted_index(&list, ONE - 1), 2);
    // the scaled draw, 3 * 2^24 + 4, is not below the running sum of `a`
    let list = vec![('a', 3 * ONE), ('b', 0), ('c', 8), ('d', 0)];
    assert_eq!(weighted_random(list, ONE - 1), 'c');
    let list = vec![('a', 0), ('b', HALF), ('c', HALF), ('d', 0)];
    assert_eq!(weighted_random(list, ONE - 1), 'c');
}

#[test]
fn block_of_a_single_layer_comes_from_its_palette() {
    let rules = rules_of(
        vec![
            layer(None, Some(0), vec![(0, 999), (1, 1)]),
            layer(Some(0), Some(200), vec![(2, 99), (3, 1)]),
            layer(Some(200), None, vec![(4, ONE)]),
        ],
        5,
    );
    let mut state: i64 = 1;
    for _ in 0..2000 {
        state = (state * 1103515245 + 12345) % ONE;
        let id = rules.select_block(whole(-7), state);
        assert!(id == 0 || id == 1);
        let id = rules.select_block(whole(7), state);
        assert!(id == 2 || id == 3);
        let id = rules.select_block(whole(207), state);
        assert_eq!(id, 4);
    }
}

#[test]
fn block_on_a_shared_boundary_is_the_first_offered() {
    let rules = rules_of(
        vec![layer(None, Some(0), vec![(0, 999), (1, 1)]), layer(Some(0), None, vec![(2, ONE)])],
        3,
    );
    for draw in [0, 1, HALF, ONE - 1] {
        assert_eq!(rules.select_block(0, draw), 0);
    }
}

#[test]
fn block_in_an_overlap_follows_the_draw() {
    let rules = rules_of(
        vec![
            layer(Some(0), Some(100), vec![(1, ONE)]),
            layer(Some(50), Some(150), vec![(2, ONE)]),
            layer(Some(80), Some(200), vec![(3, ONE)]),
        ],
        4,
    );
    // weights 10, 40, 10 at depth 90
    assert_eq!(rules.select_block(whole(90), 0), 1);
    assert_eq!(rules.select_block(whole(90), ONE / 6 - 1), 1);
    assert_eq!(rules.select_block(whole(90), ONE / 6 + 1), 2);
    assert_eq!(rules.select_block(whole(90), (5 * ONE) / 6 - 1), 2);
    assert_eq!(rules.select_block(whole(90), (5 * ONE) / 6 + 1), 3);
    assert_eq!(rules.select_block(whole(90), ONE - 1), 3);
}

#[test]
fn registered_values_get_rising_indices() {
    let mut list: Vec<char> = Vec::new();
    assert_eq!(register(&mut list, 'a'), 0);
    assert_eq!(register(&mut list, 'b'), 1);
    assert_eq!(register(&mut list, 'c'), 2);
    assert_eq!(list, vec!['a', 'b', 'c']);
}
