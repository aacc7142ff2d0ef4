//! The world: an unbounded grid of blocks, generated chunk by chunk on first
//! visit and kept from then on.
use vstd::prelude::*;
use std::collections::HashMap;
use crate::block::Block;
use crate::coords::{floor_div, floor_mod, lemma_floor_round_trip};
use crate::game_rules::{GameRules, WorldGenParams};
use crate::noise::NoiseConfig;

verus! {

broadcast use vstd::std_specs::hash::group_hash_axioms;

/// Side length of a chunk, in cells.
pub const CHUNK_SIZE: i32 = 64;

/// A square of `CHUNK_SIZE` by `CHUNK_SIZE` block indices, stored row by row.
pub struct Chunk {
    pub contents: [[u16; 64]; 64],
}

impl Chunk {
    /// The block index of the cell in column `x` and row `y`.
    pub open spec fn cell(&self, x: int, y: int) -> u16 {
        self.contents@[y]@[x]
    }

    /// The chunk with the given rows.
    pub fn new(contents: [[u16; 64]; 64]) -> (chunk: Chunk)
        ensures
            chunk.contents == contents,
    {
        Chunk { contents }
    }

    /// The block index of the cell in column `x` and row `y`.
    pub fn get(&self, x: i32, y: i32) -> (id: u16)
        requires
            0 <= x < 64,
            0 <= y < 64,
        ensures
            id == self.cell(x as int, y as int),
    {
        self.contents[y as usize][x as usize]
    }
}

/// A world: a registry, the fields of one seed, and the chunks generated so
/// far, each under the key of its chunk coordinate.
pub struct World<'a> {
    pub rules: &'a GameRules,
    pub settings: WorldGenParams,
    pub chunks: HashMap<u64, Chunk>,
}

/// The key of the chunk coordinate `(chunk_x, chunk_y)`: both coordinates,
/// moved up by 2^31, side by side in 64 bits.
pub open spec fn chunk_key_spec(chunk_x: int, chunk_y: int) -> int {
    (chunk_x + 0x8000_0000) * 0x1_0000_0000 + (chunk_y + 0x8000_0000)
}

/// The key of the chunk coordinate `(chunk_x, chunk_y)`.
pub fn chunk_key(chunk_x: i32, chunk_y: i32) -> (key: u64)
    ensures
        key as int == chunk_key_spec(chunk_x as int, chunk_y as int),
{
    ((chunk_x as i64 + 0x8000_0000) as u64) * 0x1_0000_0000 + ((chunk_y as i64 + 0x8000_0000) as u64)
}

/// Different chunk coordinates have different keys.
pub proof fn lemma_chunk_key_injective(ax: int, ay: int, bx: int, by: int)
    requires
        i32::MIN <= ax <= i32::MAX,
        i32::MIN <= ay <= i32::MAX,
        i32::MIN <= bx <= i32::MAX,
        i32::MIN <= by <= i32::MAX,
        chunk_key_spec(ax, ay) == chunk_key_spec(bx, by),
    ensures
        ax == bx,
        ay == by,
{
}

/// Whether `chunk` is the chunk that generation gives at the chunk coordinate
/// `(chunk_x, chunk_y)`.
pub open spec fn is_generated(rules: &GameRules, settings: &WorldGenParams, chunk: Chunk, chunk_x: int, chunk_y: int) -> bool {
    forall|x: int, y: int|
        0 <= x < 64 && 0 <= y < 64 ==> #[trigger] chunk.cell(x, y) == rules.block_at(
            settings,
            chunk_x * 64 + x,
            chunk_y * 64 + y,
        )
}

/// Generation is deterministic: two chunks generated from the same registry
/// and fields at the same chunk coordinate agree in every cell.
pub proof fn lemma_generated_chunks_agree(rules: &GameRules, settings: &WorldGenParams, first: Chunk, second: Chunk, chunk_x: int, chunk_y: int)
    requires
        is_generated(rules, settings, first, chunk_x, chunk_y),
        is_generated(rules, settings, second, chunk_x, chunk_y),
    ensures
        forall|x: int, y: int|
            0 <= x < 64 && 0 <= y < 64 ==> #[trigger] first.cell(x, y) == second.cell(x, y),
{
    assert forall|x: int, y: int| 0 <= x < 64 && 0 <= y < 64 implies #[trigger] first.cell(x, y)
        == second.cell(x, y) by {
        assert(first.cell(x, y) == rules.block_at(settings, chunk_x * 64 + x, chunk_y * 64 + y));
        assert(second.cell(x, y) == rules.block_at(settings, chunk_x * 64 + x, chunk_y * 64 + y));
    }
}

/// Whether every chunk of `chunks` is the one that generation gives at its
/// coordinate.
pub open spec fn all_generated(rules: &GameRules, settings: &WorldGenParams, chunks: Map<u64, Chunk>) -> bool {
    forall|chunk_x: int, chunk_y: int|
        i32::MIN <= chunk_x <= i32::MAX && i32::MIN <= chunk_y <= i32::MAX && chunks.contains_key(
            #[trigger] chunk_key_spec(chunk_x, chunk_y) as u64,
        ) ==> is_generated(
            rules,
            settings,
            chunks[chunk_key_spec(chunk_x, chunk_y) as u64],
            chunk_x,
            chunk_y,
        )
}

/// Keeping one more generated chunk, under the key of its coordinate, leaves
/// every kept chunk the generated one.
pub proof fn lemma_insert_generated(rules: &GameRules, settings: &WorldGenParams, chunks: Map<u64, Chunk>, chunk: Chunk, chunk_x: int, chunk_y: int)
    requires
        all_generated(rules, settings, chunks),
        i32::MIN <= chunk_x <= i32::MAX,
        i32::MIN <= chunk_y <= i32::MAX,
        is_generated(rules, settings, chunk, chunk_x, chunk_y),
    ensures
        all_generated(
            rules,
            settings,
            chunks.insert(chunk_key_spec(chunk_x, chunk_y) as u64, chunk),
        ),
{
    let key = chunk_key_spec(chunk_x, chunk_y) as u64;
    let after = chunks.insert(key, chunk);
    assert forall|cx: int, cy: int|
        i32::MIN <= cx <= i32::MAX && i32::MIN <= cy <= i32::MAX && after.contains_key(
            #[trigger] chunk_key_spec(cx, cy) as u64,
        ) implies is_generated(rules, settings, after[chunk_key_spec(cx, cy) as u64], cx, cy) by {
        if chunk_key_spec(cx, cy) as u64 == key {
            lemma_chunk_key_injective(cx, cy, chunk_x, chunk_y);
        } else {
            assert(chunks.contains_key(chunk_key_spec(cx, cy) as u64));
        }
    }
}

impl<'a> World<'a> {
    /// The registry is well-formed, and every chunk that is kept is the one
    /// that generation gives at its coordinate.
    pub open spec fn wf(&self) -> bool {
        &&& self.rules.wf()
        &&& all_generated(self.rules, &self.settings, self.chunks@)
    }

    /// The block index of the cell `(x, y)`.
    pub open spec fn block_id_at(&self, x: int, y: int) -> u16 {
        self.rules.block_at(&self.settings, x, y)
    }

    /// A world of the registry `rules` under the seed `seed`, with no chunk
    /// generated yet.
    pub fn new(rules: &'a GameRules, seed: u64) -> (world: World<'a>)
        requires
            rules.wf(),
        ensures
            world.wf(),
            world.rules == rules,
            world.chunks@ == Map::<u64, Chunk>::empty(),
            rules.depth.seeds_to(seed, &world.settings.depth),
            rules.data.seeds_to(seed, &world.settings.data),
    {
        World { rules, settings: WorldGenParams::new(rules, seed), chunks: HashMap::new() }
    }

    /// How many chunks have been generated.
    pub fn chunk_count(&self) -> (count: usize)
        ensures
            count == self.chunks@.len(),
    {
        self.chunks.len()
    }

    /// The block of the cell `(x, y)`.
    ///
    /// The chunk of the cell has the coordinates of the cell divided by the
    /// chunk size and rounded down. If that chunk is kept, the block is read
    /// from it and nothing changes; else the chunk is generated and kept.
    /// No chunk that is kept is ever changed or dropped.
    pub fn get(&mut self, x: i32, y: i32) -> (block: Block)
        requires
            old(self).wf(),
        ensures
            final(self).wf(),
            final(self).rules == old(self).rules,
            final(self).settings == old(self).settings,
            (old(self).block_id_at(x as int, y as int) as int) < old(self).rules.blocks@.len(),
            block == old(self).rules.blocks@[old(self).block_id_at(x as int, y as int) as int],
            old(self).chunks@.contains_key(chunk_key_spec(x as int / 64, y as int / 64) as u64)
                ==> final(self).chunks@ == old(self).chunks@,
            final(self).chunks@.dom() == old(self).chunks@.dom().insert(
                chunk_key_spec(x as int / 64, y as int / 64) as u64,
            ),
            forall|key: u64|
                old(self).chunks@.contains_key(key) ==> #[trigger] final(self).chunks@[key] == old(
                    self,
                ).chunks@[key],
    {
        let chunk_x = floor_div(x, CHUNK_SIZE);
        let chunk_y = floor_div(y, CHUNK_SIZE);
        let local_x = floor_mod(x, CHUNK_SIZE);
        let local_y = floor_mod(y, CHUNK_SIZE);
        proof {
            lemma_floor_round_trip(x as int, 64);
            lemma_floor_round_trip(y as int, 64);
            self.rules.lemma_block_at_registered(&self.settings, x as int, y as int);
        }
        let key = chunk_key(chunk_x, chunk_y);
        let id = match self.chunks.get(&key) {
            Some(chunk) => {
                proof {
                    assert(is_generated(
                        self.rules,
                        &self.settings,
                        *chunk,
                        chunk_x as int,
                        chunk_y as int,
                    ));
                    assert(chunk.cell(local_x as int, local_y as int) == self.block_id_at(
                        x as int,
                        y as int,
                    ));
                    assert(self.chunks@.dom().insert(key) =~= self.chunks@.dom());
                }
                chunk.get(local_x, local_y)
            },
            None => {
                let chunk = self.rules.generate_chunk(&self.settings, chunk_x, chunk_y);
                let id = chunk.get(local_x, local_y);
                proof {
                    assert(chunk.cell(local_x as int, local_y as int) == self.block_id_at(
                        x as int,
                        y as int,
                    ));
                    lemma_insert_generated(
                        self.rules,
                        &self.settings,
                        self.chunks@,
                        chunk,
                        chunk_x as int,
                        chunk_y as int,
                    );
                }
                self.chunks.insert(key, chunk);
                id
            },
        };
        *self.rules.block(id)
    }
}

} // verus!
