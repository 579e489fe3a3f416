//! The block-typing pass: the top layers of every column are skinned with
//! the block of the column's biome, and ore is set into the stone below.

use crate::biome::{biome_of, get_biome_by_params, Biome};
use crate::block::{Block, BlockFactory, BlockType};
use crate::caves::{cave_height, cave_reach};
use crate::chunk::{as_coord, Chunk, Coord, MAX_HEIGHT};
use crate::source::{Levels, NoiseField, NoiseSource};
use crate::terrain::{height_level, world, world_coordinate};
use noise::Simplex;
use vstd::prelude::*;

verus! {

/// The number of layers under a column's top that are skinned.
pub const SKIN_DEPTH: i32 = 5;

/// A block of the top layers is skinned where its grain is below this:
/// ninety-five hundredths.
pub const SKIN_THRESHOLD: u32 = 11_400;

/// A block under the top layers turns to coal where its grain is below
/// this: two tenths.
pub const ORE_THRESHOLD: u32 = 2_400;

/// The height of the topmost block of the column `(x, y)` at or below
/// `from` and above the floor, or zero where there is none.
pub open spec fn column_top(m: Map<Coord, Block>, x: int, y: int, from: int) -> int
    decreases from,
{
    if from <= 0 {
        0
    } else if m.contains_key((x, y, from)) {
        from
    } else {
        column_top(m, x, y, from - 1)
    }
}

/// The height that counts as the top of the column `(x, y)`: its topmost
/// block, looked for from the column's cave reach downwards.
pub open spec fn max_height(
    m: Map<Coord, Block>,
    levels: Levels,
    gx: int,
    gy: int,
    x: int,
    y: int,
) -> int {
    column_top(m, x, y, cave_reach(height_level(levels, gx, gy, x, y)))
}

/// The biome of the column `(x, y)` of the chunk at `(gx, gy)`.
pub open spec fn biome_at(levels: Levels, gx: int, gy: int, x: int, y: int) -> Biome {
    biome_of(
        levels(NoiseField::Temperature, world(gx, x), world(gy, y), 0),
        levels(NoiseField::Humidity, world(gx, x), world(gy, y), 0),
    )
}

/// The grain of the block at `c`.
pub open spec fn grain_at(levels: Levels, gx: int, gy: int, c: Coord) -> int {
    levels(NoiseField::Block, world(gx, c.0), world(gy, c.1), c.2)
}

/// The kind of block that skins a column of the given biome; `covered` says
/// whether another block sits right on top of the one that is skinned.
pub open spec fn surface_kind(biome: Biome, covered: bool) -> BlockType {
    match biome {
        Biome::Grass => if covered {
            BlockType::Dirt
        } else {
            BlockType::Grass
        },
        Biome::Desert => BlockType::Sand,
        Biome::Snow => BlockType::Snow,
    }
}

/// Whether the block at `c` lies in the top layers of its column.
pub open spec fn in_top_layers(
    m: Map<Coord, Block>,
    levels: Levels,
    gx: int,
    gy: int,
    c: Coord,
) -> bool {
    c.2 > max_height(m, levels, gx, gy, c.0, c.1) - SKIN_DEPTH
}

/// The block that the typing pass leaves at `c`, where `m` has a block.
pub open spec fn retyped_block(
    m: Map<Coord, Block>,
    levels: Levels,
    gx: int,
    gy: int,
    c: Coord,
) -> Block {
    if in_top_layers(m, levels, gx, gy, c) {
        if grain_at(levels, gx, gy, c) < SKIN_THRESHOLD {
            Block::of(
                surface_kind(
                    biome_at(levels, gx, gy, c.0, c.1),
                    m.contains_key((c.0, c.1, c.2 + 1)),
                ),
            )
        } else {
            m[c]
        }
    } else if c.2 > 0 && grain_at(levels, gx, gy, c) < ORE_THRESHOLD {
        Block::of(BlockType::Coal)
    } else {
        m[c]
    }
}

/// The chunk at `(gx, gy)` after the typing pass: the same coordinates hold
/// blocks, each retyped.
pub open spec fn retyped(m: Map<Coord, Block>, levels: Levels, gx: int, gy: int) -> Map<
    Coord,
    Block,
> {
    Map::new(|c: Coord| m.contains_key(c), |c: Coord| retyped_block(m, levels, gx, gy, c))
}

/// The top of a column depends only on where blocks are, not on what they
/// are.
pub proof fn column_top_reads_places(
    a: Map<Coord, Block>,
    b: Map<Coord, Block>,
    x: int,
    y: int,
    from: int,
)
    requires
        a.dom() == b.dom(),
    ensures
        column_top(a, x, y, from) == column_top(b, x, y, from),
    decreases from,
{
    if from > 0 {
        assert(a.contains_key((x, y, from)) == b.dom().contains((x, y, from)));
        if !a.contains_key((x, y, from)) {
            column_top_reads_places(a, b, x, y, from - 1);
        }
    }
}

/// The top of a column is a block of the column, unless it is zero, and no
/// block lies between it and the height from which it was looked for.
pub proof fn column_top_is_topmost(m: Map<Coord, Block>, x: int, y: int, from: int)
    ensures
        0 <= column_top(m, x, y, from),
        from >= 0 ==> column_top(m, x, y, from) <= from,
        column_top(m, x, y, from) > 0 ==> m.contains_key((x, y, column_top(m, x, y, from))),
        forall|z: int| column_top(m, x, y, from) < z <= from ==> !m.contains_key((x, y, z)),
    decreases from,
{
    if from > 0 && !m.contains_key((x, y, from)) {
        column_top_is_topmost(m, x, y, from - 1);
    }
}

/// The block that skins a column of the given biome.
pub fn surface_block(biome: Biome, covered: bool) -> (block: Block)
    ensures
        block == Block::of(surface_kind(biome, covered)),
{
    match biome {
        Biome::Grass => {
            if covered {
                BlockFactory::create_dirt()
            } else {
                BlockFactory::create_grass()
            }
        },
        Biome::Desert => BlockFactory::create_sand(),
        Biome::Snow => BlockFactory::create_snow(),
    }
}

impl Chunk {
    /// The height that counts as the top of the column `(x, y)`: that of its
    /// topmost block at or below the column's cave reach and above the floor,
    /// found by a search from the cave reach downwards; zero where the search
    /// finds no block.
    pub fn get_max_height<R: Fn(&Simplex, NoiseField, i64, i64, i64) -> u32>(
        &self,
        noise: &NoiseSource<R>,
        x: i32,
        y: i32,
    ) -> (top: i32)
        ensures
            top == max_height(
                self@,
                noise.levels(),
                self.grid_x(),
                self.grid_y(),
                x as int,
                y as int,
            ),
            0 <= top < MAX_HEIGHT,
            top > 0 ==> self@.contains_key((x as int, y as int, top as int)),
            forall|z: int|
                top < z <= cave_reach(
                    height_level(noise.levels(), self.grid_x(), self.grid_y(), x as int, y as int),
                ) ==> !self@.contains_key((x as int, y as int, z)),
    {
        let wx = world_coordinate(self.x(), x);
        let wy = world_coordinate(self.y(), y);
        let reach = cave_height(noise.level(NoiseField::Height, wx, wy, 0));
        let mut z = reach;
        while z > 0
            invariant
                0 <= z <= reach < MAX_HEIGHT,
                reach == cave_reach(
                    height_level(noise.levels(), self.grid_x(), self.grid_y(), x as int, y as int),
                ),
                column_top(self@, x as int, y as int, reach as int) == column_top(
                    self@,
                    x as int,
                    y as int,
                    z as int,
                ),
                forall|h: int| z < h <= reach ==> !self@.contains_key((x as int, y as int, h)),
            decreases z,
        {
            if self.has_block(x, y, z) {
                return z;
            }
            z = z - 1;
        }
        0
    }

    /// Retypes every block of the chunk. A block in the top `SKIN_DEPTH`
    /// layers of its column whose grain is under the skin threshold becomes
    /// the surface block of the column's biome; a block further down and
    /// above the floor whose grain is under the ore threshold becomes coal;
    /// every other block stays. No block appears or goes, and the order in
    /// which the blocks are visited makes no difference.
    pub fn generate_block_types<R: Fn(&Simplex, NoiseField, i64, i64, i64) -> u32>(
        &mut self,
        noise: &NoiseSource<R>,
    )
        ensures
            final(self)@ == retyped(
                old(self)@,
                noise.levels(),
                old(self).grid_x(),
                old(self).grid_y(),
            ),
            final(self)@.dom() == old(self)@.dom(),
            final(self).grid_x() == old(self).grid_x(),
            final(self).grid_y() == old(self).grid_y(),
    {
        let ghost before = self@;
        let ghost levels = noise.levels();
        let ghost gx = self.grid_x();
        let ghost gy = self.grid_y();
        let all = self.coordinates();
        for n in 0..all.len()
            invariant
                levels == noise.levels(),
                gx == self.grid_x(),
                gy == self.grid_y(),
                all@.no_duplicates(),
                forall|i: int|
                    0 <= i < all.len() ==> before.contains_key(#[trigger] as_coord(all[i])),
                self@.dom() =~= before.dom(),
                forall|i: int|
                    0 <= i < n ==> self@[#[trigger] as_coord(all[i])] == retyped_block(
                        before,
                        levels,
                        gx,
                        gy,
                        as_coord(all[i]),
                    ),
                forall|i: int|
                    n <= i < all.len() ==> self@[#[trigger] as_coord(all[i])] == before[as_coord(
                        all[i],
                    )],
        {
            let (x, y, z) = all[n];
            let ghost c = (x as int, y as int, z as int);
            let ghost here = self@;
            assert(c == as_coord(all[n as int]));
            let wx = world_coordinate(self.x(), x);
            let wy = world_coordinate(self.y(), y);
            let temperature = noise.level(NoiseField::Temperature, wx, wy, 0);
            let humidity = noise.level(NoiseField::Humidity, wx, wy, 0);
            let grain = noise.level(NoiseField::Block, wx, wy, z as i64);
            let biome = get_biome_by_params(temperature, humidity);
            let top = self.get_max_height(noise, x, y);
            proof {
                column_top_reads_places(
                    here,
                    before,
                    x as int,
                    y as int,
                    cave_reach(height_level(levels, gx, gy, x as int, y as int)),
                );
            }
            if z > top - SKIN_DEPTH {
                if grain < SKIN_THRESHOLD {
                    let covered = z < i32::MAX && self.has_block(x, y, z + 1);
                    proof {
                        self.blocks_lie_in_world();
                        assert(covered == before.dom().contains((c.0, c.1, c.2 + 1)));
                    }
                    self.set_block(x, y, z, surface_block(biome, covered));
                }
            } else if z > 0 && grain < ORE_THRESHOLD {
                self.set_block(x, y, z, BlockFactory::create_coal());
            }
            proof {
                assert(self@[c] == retyped_block(before, levels, gx, gy, c));
                assert forall|i: int| 0 <= i < all.len() && i != n implies as_coord(all[i])
                    != c by {
                    assert(all[i] != all[n as int]);
                }
            }
        }
        proof {
            assert forall|c: Coord| before.contains_key(c) implies self@[c] == retyped_block(
                before,
                levels,
                gx,
                gy,
                c,
            ) by {
                let i = choose|i: int| 0 <= i < all.len() && as_coord(#[trigger] all[i]) == c;
                assert(as_coord(all[i]) == c);
            }
            assert(self@ =~= retyped(before, levels, gx, gy));
        }
    }
}

} // verus!
