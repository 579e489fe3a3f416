//! Generation of a whole chunk: the four passes, in their order.

use crate::block::Block;
use crate::caves::carved;
use crate::chunk::{Chunk, Coord, CHUNK_SIZE, MAX_HEIGHT};
use crate::source::{Levels, NoiseField, NoiseSource};
use crate::terrain::{in_footprint, terrain};
use crate::trees::{
    above_floor, forest_grows_trees_only, forest_stays_above_floor, forested, is_tree_part,
};
use crate::typing::retyped;
use noise::Simplex;
use vstd::prelude::*;

verus! {

/// The blocks of the chunk at grid position `(gx, gy)` of the world that
/// `levels` describes: the terrain, carved, retyped and forested.
pub open spec fn generated(levels: Levels, gx: int, gy: int) -> Map<Coord, Block> {
    forested(
        retyped(carved(terrain(levels, gx, gy), levels, gx, gy), levels, gx, gy),
        levels,
        gx,
        gy,
    )
}

/// Generation is determined by the seed, the reader and the grid position:
/// two sources with the same seed and the same reader describe the same
/// chunk at every position.
pub proof fn generation_is_determined<R: Fn(&Simplex, NoiseField, i64, i64, i64) -> u32>(
    a: &NoiseSource<R>,
    b: &NoiseSource<R>,
    gx: int,
    gy: int,
)
    requires
        a.seeded(),
        b.seeded(),
        a.seed_of() == b.seed_of(),
        a.reader() == b.reader(),
    ensures
        generated(a.levels(), gx, gy) == generated(b.levels(), gx, gy),
{
    NoiseSource::same_seed_same_levels(a, b);
}

/// No generated block lies below the floor of the world.
pub proof fn generated_blocks_lie_above_the_floor(levels: Levels, gx: int, gy: int)
    ensures
        above_floor(generated(levels, gx, gy)),
{
    let typed = retyped(carved(terrain(levels, gx, gy), levels, gx, gy), levels, gx, gy);
    assert(above_floor(typed));
    forest_stays_above_floor(typed, levels, gx, gy, CHUNK_SIZE * CHUNK_SIZE);
}

/// Every generated block that is not a part of a tree lies in the band of
/// the terrain: in the footprint, at or above the floor and below
/// `MAX_HEIGHT`.
pub proof fn generated_blocks_lie_in_the_band_or_belong_to_trees(
    levels: Levels,
    gx: int,
    gy: int,
)
    ensures
        forall|c: Coord| #[trigger]
            generated(levels, gx, gy).contains_key(c) ==> is_tree_part(
                generated(levels, gx, gy)[c],
            ) || (in_footprint(c.0, c.1) && 0 <= c.2 < MAX_HEIGHT),
{
    let typed = retyped(carved(terrain(levels, gx, gy), levels, gx, gy), levels, gx, gy);
    forest_grows_trees_only(typed, levels, gx, gy, CHUNK_SIZE * CHUNK_SIZE);
}

impl Chunk {
    /// Generates the chunk at grid position `(x, y)`: runs the terrain pass,
    /// the cave pass, the typing pass and the vegetation pass, once each and
    /// in this order, on a chunk that starts empty.
    pub fn generate<R: Fn(&Simplex, NoiseField, i64, i64, i64) -> u32>(
        noise: &NoiseSource<R>,
        x: i32,
        y: i32,
    ) -> (chunk: Chunk)
        ensures
            chunk@ == generated(noise.levels(), x as int, y as int),
            above_floor(chunk@),
            forall|c: Coord| #[trigger]
                chunk@.contains_key(c) ==> is_tree_part(chunk@[c]) || (in_footprint(c.0, c.1) && 0
                    <= c.2 < MAX_HEIGHT),
            chunk.grid_x() == x,
            chunk.grid_y() == y,
    {
        proof {
            generated_blocks_lie_above_the_floor(noise.levels(), x as int, y as int);
            generated_blocks_lie_in_the_band_or_belong_to_trees(
                noise.levels(),
                x as int,
                y as int,
            );
        }
        let mut chunk = Chunk::new(x, y);
        chunk.generate_terrain(noise);
        chunk.generate_caves(noise);
        chunk.generate_block_types(noise);
        chunk.generate_trees(noise);
        chunk
    }
}

} // verus!
