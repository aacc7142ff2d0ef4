//! The registry of a game: its blocks, its layers and the two noise fields
//! that place them, and the generation of chunks from them.
use vstd::prelude::*;
use crate::add::AddNoise;
use crate::block::{can_shade, Block};
use crate::colour::Colour;
use crate::fixed::{fx_from_int, Fixed};
use crate::gradient::Gradient;
use crate::hash::{HashNoise, SeededHash};
use crate::layer::{
    blend, blend_spec, candidates_spec, leftover_spec, normalized, palette_has, quotas_sum, Layer,
};
use crate::layer_laws::{
    dominant_offer, lemma_blend_origin, lemma_live_is_dominant, lemma_selected_is_live,
    lemma_staircase_blend, live_at, offered_at, palettes_not_negative, staircase, steps_up,
};
use crate::noise::{NoiseConfig, NoiseDomain};
use crate::octaves::{fx_pow_spec, Octaves};
use crate::perm_table::PermSeeded;
use crate::random::{
    lemma_weighted_index_in_range, prefix_weight, total_weight, weighted_index_spec,
    weighted_random,
};
use crate::scale::ScaleNoise;
use crate::simplex::Simplex;
use crate::world::{is_generated, Chunk};

verus! {

/// The configuration of the depth field: ten octaves of simplex noise, scaled,
/// plus a ramp.
pub type DepthConfig = AddNoise<ScaleNoise<Octaves<Simplex, 10>>, Gradient>;

/// The depth field of a world.
pub type DepthNoise = AddNoise<ScaleNoise<Octaves<PermSeeded<Simplex>, 10>>, Gradient>;

/// The registry: blocks by index, layers in their order, and the
/// configurations of the depth field and of the data field.
pub struct GameRules {
    pub blocks: Vec<Block>,
    pub layers: Vec<Layer>,
    pub depth: DepthConfig,
    pub data: HashNoise,
}

/// The two fields of one world: the registry's configurations under the
/// world's seed.
pub struct WorldGenParams {
    pub depth: DepthNoise,
    pub data: SeededHash,
}

/// Appends `value` to `list` and gives the index at which it stands.
pub fn register<T>(list: &mut Vec<T>, value: T) -> (index: u16)
    requires
        old(list)@.len() <= u16::MAX,
    ensures
        index as int == old(list)@.len(),
        final(list)@ == old(list)@.push(value),
{
    let index = list.len() as u16;
    list.push(value);
    index
}

/// The blocks of the standard registry, by index: space, star, sand, stone,
/// rock, cold magma, warm magma, hot magma and alien.
pub open spec fn standard_blocks() -> Seq<Block> {
    seq![
        Block {
            colour: Colour { a: 255, r: 0, g: 0, b: 0 },
            brightness_variation: 10,
            colour_variation: 0,
            solid: false,
        },
        Block {
            colour: Colour { a: 255, r: 53, g: 53, b: 53 },
            brightness_variation: 100,
            colour_variation: 100,
            solid: false,
        },
        Block {
            colour: Colour { a: 255, r: 192, g: 124, b: 22 },
            brightness_variation: 20,
            colour_variation: 5,
            solid: true,
        },
        Block {
            colour: Colour { a: 255, r: 94, g: 43, b: 9 },
            brightness_variation: 40,
            colour_variation: 10,
            solid: true,
        },
        Block {
            colour: Colour { a: 255, r: 56, g: 39, b: 22 },
            brightness_variation: 20,
            colour_variation: 5,
            solid: true,
        },
        Block {
            colour: Colour { a: 255, r: 192, g: 73, b: 5 },
            brightness_variation: 25,
            colour_variation: 0,
            solid: true,
        },
        Block {
            colour: Colour { a: 255, r: 226, g: 124, b: 5 },
            brightness_variation: 25,
            colour_variation: 0,
            solid: true,
        },
        Block {
            colour: Colour { a: 255, r: 226, g: 175, b: 22 },
            brightness_variation: 25,
            colour_variation: 0,
            solid: true,
        },
        Block {
            colour: Colour { a: 255, r: 96, g: 11, b: 28 },
            brightness_variation: 40,
            colour_variation: 40,
            solid: true,
        },
    ]
}

/// The ranges of the standard layers: up to 0, then 0 to 200, 50 to 1100,
/// 500 to 1700, 900 to 2100, 1300 to 2500, and from 1900 on.
pub open spec fn standard_ranges() -> Seq<(Option<Fixed>, Option<Fixed>)> {
    seq![
        (None, Some(0i64)),
        (Some(0i64), Some(3355443200i64)),
        (Some(838860800i64), Some(18454937600i64)),
        (Some(8388608000i64), Some(28521267200i64)),
        (Some(15099494400i64), Some(35232153600i64)),
        (Some(21810380800i64), Some(41943040000i64)),
        (Some(31876710400i64), None),
    ]
}

/// The palettes of the standard layers: space with one star in a thousand;
/// sand with one stone in a hundred; then rock, cold, warm and hot magma and
/// alien, each alone.
pub open spec fn standard_palettes() -> Seq<Seq<(u16, Fixed)>> {
    seq![
        seq![(0u16, 16760439i64), (1u16, 16777i64)],
        seq![(2u16, 16609444i64), (3u16, 167772i64)],
        seq![(4u16, 16777216i64)],
        seq![(5u16, 16777216i64)],
        seq![(6u16, 16777216i64)],
        seq![(7u16, 16777216i64)],
        seq![(8u16, 16777216i64)],
    ]
}

/// With a total of 1, the quotas are the weights themselves.
proof fn lemma_unit_quotas(raw: Seq<(u16, Fixed)>, n: nat)
    requires
        n <= raw.len(),
    ensures
        quotas_sum(raw, 16777216, n) == prefix_weight(raw, n),
    decreases n,
{
    if n > 0 {
        lemma_unit_quotas(raw, (n - 1) as nat);
        assert((raw[n - 1].1 as int * 16777216) / 16777216 == raw[n - 1].1 as int);
    }
}

/// A palette whose weights add up to 1 is left as it is.
pub proof fn lemma_normalized_unit(raw: Seq<(u16, Fixed)>)
    requires
        total_weight(raw) == 16777216,
    ensures
        normalized(raw) == raw,
{
    lemma_unit_quotas(raw, raw.len());
    assert(leftover_spec(raw) == 0);
    assert forall|k: int| 0 <= k < raw.len() implies normalized(raw)[k] == raw[k] by {
        assert((raw[k].1 as int * 16777216) / 16777216 == raw[k].1 as int);
    }
    assert(normalized(raw) =~= raw);
}

/// Each standard palette has weights that add up to 1.
proof fn lemma_standard_palettes_are_units()
    ensures
        forall|i: int| 0 <= i < 7 ==> normalized(#[trigger] standard_palettes()[i])
            == standard_palettes()[i],
{
    assert forall|i: int| 0 <= i < 7 implies normalized(#[trigger] standard_palettes()[i])
        == standard_palettes()[i] by {
        let raw = standard_palettes()[i];
        reveal_with_fuel(prefix_weight, 3);
        assert(total_weight(raw) == 16777216);
        lemma_normalized_unit(raw);
    }
}

/// The block index that the draw `draw` selects at `depth`.
pub open spec fn select_spec(layers: Seq<Layer>, depth: int, draw: int) -> u16 {
    let list = blend_spec(layers, depth);
    list[weighted_index_spec(list, draw) as int].0
}

impl GameRules {
    /// The block index of the cell `(x, y)` of the world with the fields
    /// `world`: the depth field and the data field are evaluated at the
    /// cell, and the data draw selects among the blocks of the depth.
    pub open spec fn block_at(&self, world: &WorldGenParams, x: int, y: int) -> u16 {
        select_spec(
            self.layers@,
            world.depth.value_at(x * 16777216, y * 16777216),
            world.data.value_at(x * 16777216, y * 16777216),
        )
    }

    /// Every palette entry names a block of the registry, and at every depth
    /// there is something to draw from.
    pub open spec fn wf(&self) -> bool {
        &&& forall|i: int, k: int|
            0 <= i < self.layers@.len() && 0 <= k < self.layers@[i].palette().len() ==> (
            #[trigger] self.layers@[i].palette()[k]).0 < self.blocks@.len()
        &&& forall|depth: int|
            i64::MIN <= depth <= i64::MAX ==> (#[trigger] blend_spec(self.layers@, depth)).len()
                > 0
    }

    /// The standard registry: nine blocks, seven layers that climb from space
    /// to the alien depths, a depth field of ten octaves of simplex noise
    /// (each octave at twice the frequency and half the amplitude of the one
    /// before, the sum at 1/4096 of the frequency and 192 times the
    /// amplitude) plus the depth-ward ramp `y`, and hash noise as data field.
    pub fn load() -> (rules: GameRules)
        ensures
            rules.wf(),
            staircase(rules.layers@),
            palettes_not_negative(rules.layers@),
            rules.blocks@ == standard_blocks(),
            forall|i: int| 0 <= i < 9 ==> can_shade(#[trigger] rules.blocks@[i]),
            rules.layers@.len() == 7,
            forall|i: int|
                0 <= i < 7 ==> {
                    &&& (#[trigger] rules.layers@[i]).start == standard_ranges()[i].0
                    &&& rules.layers@[i].end == standard_ranges()[i].1
                    &&& rules.layers@[i].palette() == standard_palettes()[i]
                },
            rules.depth.first.scale_in == 4096,
            rules.depth.first.scale_out == 3221225472,
            rules.depth.first.contents.contents.values@.len() == 10,
            forall|i: int|
                0 <= i < 10 ==> {
                    &&& (#[trigger] rules.depth.first.contents.contents.values@[i]).scale_in as int
                        == fx_pow_spec(33554432, i as nat)
                    &&& rules.depth.first.contents.contents.values@[i].scale_out as int
                        == fx_pow_spec(8388608, i as nat)
                },
            rules.depth.second == (Gradient { direction_x: 0, direction_y: 16777216 }),
    {
        let mut blocks: Vec<Block> = Vec::new();
        let space = register(&mut blocks, Block::bg(Colour::rgb(0x05, 0x05, 0x05), 10, 0));
        let star = register(&mut blocks, Block::bg(Colour::rgb(0x99, 0x99, 0x99), 100, 100));
        let sand = register(&mut blocks, Block::fg(Colour::rgb(0xCC, 0x88, 0x22), 20, 5));
        let stone = register(&mut blocks, Block::fg(Colour::rgb(0x77, 0x44, 0x22), 40, 10));
        let rock = register(&mut blocks, Block::fg(Colour::rgb(0x44, 0x33, 0x22), 20, 5));
        let cold_magma = register(&mut blocks, Block::fg(Colour::rgb(0xCC, 0x55, 0x11), 25, 0));
        let warm_magma = register(&mut blocks, Block::fg(Colour::rgb(0xEE, 0x88, 0x11), 25, 0));
        let hot_magma = register(&mut blocks, Block::fg(Colour::rgb(0xEE, 0xBB, 0x22), 25, 0));
        let alien = register(&mut blocks, Block::fg(Colour::rgb(0x88, 0x33, 0x44), 40, 40));
        proof {
            assert(blocks@ =~= standard_blocks());
        }
        let mut layers: Vec<Layer> = Vec::new();
        let space_palette = vec![(space, 16760439i64), (star, 16777i64)];
        let sand_palette = vec![(sand, 16609444i64), (stone, 167772i64)];
        let rock_palette = vec![(rock, 16777216i64)];
        let cold_palette = vec![(cold_magma, 16777216i64)];
        let warm_palette = vec![(warm_magma, 16777216i64)];
        let hot_palette = vec![(hot_magma, 16777216i64)];
        let alien_palette = vec![(alien, 16777216i64)];
        proof {
            assert(space_palette@ =~= standard_palettes()[0]);
            assert(sand_palette@ =~= standard_palettes()[1]);
            assert(rock_palette@ =~= standard_palettes()[2]);
            assert(cold_palette@ =~= standard_palettes()[3]);
            assert(warm_palette@ =~= standard_palettes()[4]);
            assert(hot_palette@ =~= standard_palettes()[5]);
            assert(alien_palette@ =~= standard_palettes()[6]);
            lemma_standard_palettes_are_units();
        }
        register(&mut layers, Layer::new(None, Some(0), space_palette));
        register(&mut layers, Layer::new(Some(0), Some(3355443200), sand_palette));
        register(&mut layers, Layer::new(Some(838860800), Some(18454937600), rock_palette));
        register(&mut layers, Layer::new(Some(8388608000), Some(28521267200), cold_palette));
        register(&mut layers, Layer::new(Some(15099494400), Some(35232153600), warm_palette));
        register(&mut layers, Layer::new(Some(21810380800), Some(41943040000), hot_palette));
        register(&mut layers, Layer::new(Some(31876710400), None, alien_palette));
        let depth = AddNoise::new(
            ScaleNoise::new(
                Octaves::<Simplex, 10>::new(Simplex::new(), 33554432, 8388608),
                4096,
                3221225472,
            ),
            Gradient::new(0, 16777216),
        );
        let rules = GameRules { blocks, layers, depth, data: HashNoise::new() };
        proof {
            assert(steps_up(rules.layers@, 0));
            assert(steps_up(rules.layers@, 1));
            assert(steps_up(rules.layers@, 2));
            assert(steps_up(rules.layers@, 3));
            assert(steps_up(rules.layers@, 4));
            assert(steps_up(rules.layers@, 5));
            assert(staircase(rules.layers@));
            assert forall|d: int| i64::MIN <= d <= i64::MAX implies (#[trigger] blend_spec(
                rules.layers@,
                d,
            )).len() > 0 by {
                lemma_staircase_blend(rules.layers@, d);
            }
        }
        rules
    }

    /// In a well-formed registry, a block offered at some depth is a block of
    /// the registry.
    pub proof fn lemma_offered_is_registered(&self, depth: int, id: u16)
        requires
            self.wf(),
            offered_at(self.layers@, depth, id),
        ensures
            id < self.blocks@.len(),
    {
        let i = choose|i: int|
            0 <= i < self.layers@.len() && (#[trigger] self.layers@[i]).contains_spec(depth)
                && palette_has(self.layers@[i].palette(), id);
        let k = choose|k: int|
            0 <= k < self.layers@[i].palette().len() && (#[trigger] self.layers@[i].palette()[k]).0
                == id;
        assert(self.layers@[i].palette()[k].0 < self.blocks@.len());
    }

    /// In a well-formed registry, the block index of every cell is a block of
    /// the registry.
    pub proof fn lemma_block_at_registered(&self, world: &WorldGenParams, x: int, y: int)
        requires
            self.wf(),
        ensures
            (self.block_at(world, x, y) as int) < self.blocks@.len(),
    {
        let depth = world.depth.value_at(x * 16777216, y * 16777216);
        let draw = world.data.value_at(x * 16777216, y * 16777216);
        let list = blend_spec(self.layers@, depth);
        assert(i64::MIN <= depth <= i64::MAX);
        assert(0 <= draw < 16777216);
        assert(self.layers@.len() == self.layers.len());
        lemma_weighted_index_in_range(list, draw);
        lemma_blend_origin(self.layers@, depth, weighted_index_spec(list, draw) as int);
        self.lemma_offered_is_registered(depth, self.block_at(world, x, y));
    }

    /// The block with index `id`.
    pub fn block(&self, id: u16) -> (block: &Block)
        requires
            id < self.blocks@.len(),
        ensures
            *block == self.blocks@[id as int],
    {
        &self.blocks[id as usize]
    }

    /// The block index for a cell of depth `depth` and data draw `draw`:
    /// the blend of the layers at that depth, and the weighted selection
    /// from it. Where the blend has a positive total, the block has a
    /// positive weight in it: a layer that has faded out at the depth gives
    /// no block while another has not.
    pub fn select_block(&self, depth: Fixed, draw: Fixed) -> (id: u16)
        requires
            blend_spec(self.layers@, depth as int).len() > 0,
            0 <= draw < 16777216,
        ensures
            id == select_spec(self.layers@, depth as int, draw as int),
            offered_at(self.layers@, depth as int, id),
            palettes_not_negative(self.layers@) && total_weight(
                blend_spec(self.layers@, depth as int),
            ) > 0 ==> live_at(self.layers@, depth as int, id),
            palettes_not_negative(self.layers@) && total_weight(
                blend_spec(self.layers@, depth as int),
            ) > 0 && candidates_spec(self.layers@, depth as int, self.layers@.len()).len() != 1
                ==> dominant_offer(
                self.layers@,
                candidates_spec(self.layers@, depth as int, self.layers@.len()),
                depth as int,
                id,
            ),
    {
        let list = blend(&self.layers, depth);
        proof {
            assert(self.layers@.len() == self.layers.len());
            if palettes_not_negative(self.layers@) && total_weight(list@) > 0 {
                lemma_selected_is_live(self.layers@, depth as int, draw as int);
                if candidates_spec(self.layers@, depth as int, self.layers@.len()).len() != 1 {
                    lemma_live_is_dominant(
                        self.layers@,
                        depth as int,
                        select_spec(self.layers@, depth as int, draw as int),
                    );
                }
            }
            lemma_weighted_index_in_range(list@, draw as int);
            lemma_blend_origin(
                self.layers@,
                depth as int,
                weighted_index_spec(list@, draw as int) as int,
            );
        }
        weighted_random(list, draw)
    }

    /// Generates the chunk with the chunk coordinate `(chunk_x, chunk_y)`:
    /// the cell in column `x` and row `y` of the chunk is the cell
    /// `(chunk_x * 64 + x, chunk_y * 64 + y)` of the world. The chunk depends
    /// on the registry, the fields and the coordinate alone.
    pub fn generate_chunk(&self, world: &WorldGenParams, chunk_x: i32, chunk_y: i32) -> (chunk: Chunk)
        requires
            self.wf(),
            -0x200_0000 <= chunk_x < 0x200_0000,
            -0x200_0000 <= chunk_y < 0x200_0000,
        ensures
            is_generated(self, world, chunk, chunk_x as int, chunk_y as int),
            forall|x: int, y: int|
                0 <= x < 64 && 0 <= y < 64 ==> (#[trigger] chunk.cell(x, y)) < self.blocks@.len(),
    {
        let mut contents: [[u16; 64]; 64] = [[0u16; 64]; 64];
        let mut y: usize = 0;
        while y < 64
            invariant
                y <= 64,
                self.wf(),
                -0x200_0000 <= chunk_x < 0x200_0000,
                -0x200_0000 <= chunk_y < 0x200_0000,
                forall|cx: int, cy: int|
                    0 <= cx < 64 && 0 <= cy < y ==> #[trigger] contents@[cy]@[cx] == self.block_at(
                        world,
                        chunk_x * 64 + cx,
                        chunk_y * 64 + cy,
                    ),
                forall|cx: int, cy: int|
                    0 <= cx < 64 && 0 <= cy < y ==> (#[trigger] contents@[cy]@[cx])
                        < self.blocks@.len(),
            decreases 64 - y,
        {
            let mut row: [u16; 64] = [0u16; 64];
            let mut x: usize = 0;
            while x < 64
                invariant
                    x <= 64,
                    y < 64,
                    self.wf(),
                    -0x200_0000 <= chunk_x < 0x200_0000,
                    -0x200_0000 <= chunk_y < 0x200_0000,
                    forall|cx: int|
                        0 <= cx < x ==> #[trigger] row@[cx] == self.block_at(
                            world,
                            chunk_x * 64 + cx,
                            chunk_y * 64 + y,
                        ),
                    forall|cx: int| 0 <= cx < x ==> (#[trigger] row@[cx]) < self.blocks@.len(),
                decreases 64 - x,
            {
                let pos_x: i32 = chunk_x * 64 + x as i32;
                let pos_y: i32 = chunk_y * 64 + y as i32;
                let depth = world.depth.noise(fx_from_int(pos_x), fx_from_int(pos_y));
                let draw = world.data.noise(fx_from_int(pos_x), fx_from_int(pos_y));
                let id = self.select_block(depth, draw);
                proof {
                    self.lemma_offered_is_registered(depth as int, id);
                }
                row[x] = id;
                x = x + 1;
            }
            contents[y] = row;
            y = y + 1;
        }
        Chunk::new(contents)
    }
}

impl WorldGenParams {
    /// The fields of the world with seed `seed`: both configurations of the
    /// registry, seeded with it.
    pub fn new(rules: &GameRules, seed: u64) -> (params: WorldGenParams)
        ensures
            rules.depth.seeds_to(seed, &params.depth),
            rules.data.seeds_to(seed, &params.data),
    {
        WorldGenParams { depth: rules.depth.seed(seed), data: rules.data.seed(seed) }
    }
}

} // verus!
