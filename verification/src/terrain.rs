//! The terrain pass: a solid column of stone under every point of the
//! footprint, as high as the height field says.

use crate::block::{Block, BlockFactory, BlockType};
use crate::chunk::{Chunk, Coord, CHUNK_SIZE, MAX_HEIGHT};
use crate::shape::walked_before;
use crate::source::{Levels, NoiseField, NoiseSource, LEVEL_ONE};
use noise::Simplex;
use vstd::prelude::*;

verus! {

/// The height of the lowest terrain: every column has at least this many
/// blocks.
pub const MIN_HEIGHT: i32 = 1;

/// The height that a level of `LEVEL_ONE` would stand for: `MAX_HEIGHT`,
/// amplified by six fifths.
pub const HEIGHT_SPAN: u32 = 60;

/// The world coordinate of the local coordinate `local` in the chunk at grid
/// position `grid`.
pub open spec fn world(grid: int, local: int) -> int {
    grid * CHUNK_SIZE + local
}

/// Whether the column `(x, y)` belongs to a chunk's footprint.
pub open spec fn in_footprint(x: int, y: int) -> bool {
    0 <= x < CHUNK_SIZE && 0 <= y < CHUNK_SIZE
}

/// The number of terrain blocks in a column whose height level is `level`:
/// the level's share of `HEIGHT_SPAN`, rounded down and held between
/// `MIN_HEIGHT` and `MAX_HEIGHT`.
pub open spec fn surface_height(level: int) -> int {
    let raw = level * HEIGHT_SPAN / (LEVEL_ONE as int);
    if raw < MIN_HEIGHT {
        MIN_HEIGHT as int
    } else if raw > MAX_HEIGHT {
        MAX_HEIGHT as int
    } else {
        raw
    }
}

/// The height level of the column `(x, y)` of the chunk at `(gx, gy)`.
pub open spec fn height_level(levels: Levels, gx: int, gy: int, x: int, y: int) -> int {
    levels(NoiseField::Height, world(gx, x), world(gy, y), 0)
}

/// Whether the terrain pass puts a block at `c`.
pub open spec fn is_terrain(levels: Levels, gx: int, gy: int, c: Coord) -> bool {
    &&& in_footprint(c.0, c.1)
    &&& 0 <= c.2 < surface_height(height_level(levels, gx, gy, c.0, c.1))
}

/// The terrain of the chunk at `(gx, gy)`: stone wherever the pass puts a
/// block.
pub open spec fn terrain(levels: Levels, gx: int, gy: int) -> Map<Coord, Block> {
    Map::new(|c: Coord| is_terrain(levels, gx, gy, c), |c: Coord| Block::of(BlockType::Stone))
}

/// The part of the terrain that is in place when the walk, column by column
/// and each column from the bottom up, reaches `(x, y, z)`.
spec fn terrain_until(levels: Levels, gx: int, gy: int, x: int, y: int, z: int) -> Map<
    Coord,
    Block,
> {
    Map::new(
        |c: Coord| is_terrain(levels, gx, gy, c) && walked_before(c, x, y, z),
        |c: Coord| Block::of(BlockType::Stone),
    )
}

/// The world coordinate of the local coordinate `local` in the chunk at grid
/// position `grid`.
pub fn world_coordinate(grid: i32, local: i32) -> (w: i64)
    ensures
        w == world(grid as int, local as int),
{
    let size: i64 = CHUNK_SIZE as i64;
    assert(size == 16);
    grid as i64 * size + local as i64
}

/// The number of terrain blocks in a column whose height level is `level`.
pub fn terrain_height(level: u32) -> (height: i32)
    ensures
        height == surface_height(level as int),
        MIN_HEIGHT <= height <= MAX_HEIGHT,
{
    let raw: u64 = level as u64 * HEIGHT_SPAN as u64 / LEVEL_ONE as u64;
    if raw < MIN_HEIGHT as u64 {
        MIN_HEIGHT
    } else if raw > MAX_HEIGHT as u64 {
        MAX_HEIGHT
    } else {
        raw as i32
    }
}

/// After the terrain pass on an empty chunk, every column of the footprint
/// is stone from the bottom up to its surface height and air from there on,
/// and there is nothing outside the footprint, below the floor, or at
/// `MAX_HEIGHT` and above.
pub proof fn terrain_is_solid_below_surface(levels: Levels, gx: int, gy: int)
    ensures
        forall|x: int, y: int, z: int|
            in_footprint(x, y) && 0 <= z < surface_height(height_level(levels, gx, gy, x, y))
                ==> #[trigger] terrain(levels, gx, gy).contains_key((x, y, z)) && terrain(
                levels,
                gx,
                gy,
            )[(x, y, z)] == Block::of(BlockType::Stone),
        forall|x: int, y: int, z: int|
            in_footprint(x, y) && z >= surface_height(height_level(levels, gx, gy, x, y))
                ==> !#[trigger] terrain(levels, gx, gy).contains_key((x, y, z)),
        forall|x: int, y: int, z: int|
            !in_footprint(x, y) || z < 0 || z >= MAX_HEIGHT ==> !#[trigger] terrain(
                levels,
                gx,
                gy,
            ).contains_key((x, y, z)),
{
}

impl Chunk {
    /// Fills every column of the footprint with stone, from the bottom up to
    /// the column's surface height. What the chunk held elsewhere stays.
    pub fn generate_terrain<R: Fn(&Simplex, NoiseField, i64, i64, i64) -> u32>(
        &mut self,
        noise: &NoiseSource<R>,
    )
        ensures
            final(self)@ == old(self)@.union_prefer_right(
                terrain(noise.levels(), old(self).grid_x(), old(self).grid_y()),
            ),
            old(self)@ == Map::<Coord, Block>::empty() ==> final(self)@ == terrain(
                noise.levels(),
                old(self).grid_x(),
                old(self).grid_y(),
            ),
            forall|x: int, y: int, z: int|
                in_footprint(x, y) && 0 <= z < surface_height(
                    height_level(noise.levels(), old(self).grid_x(), old(self).grid_y(), x, y),
                ) ==> #[trigger] final(self)@.contains_key((x, y, z)) && final(self)@[(x, y, z)]
                    == Block::of(BlockType::Stone),
            forall|x: int, y: int, z: int|
                in_footprint(x, y) && z >= surface_height(
                    height_level(noise.levels(), old(self).grid_x(), old(self).grid_y(), x, y),
                ) && !old(self)@.contains_key((x, y, z)) ==> !#[trigger] final(self)@.contains_key(
                    (x, y, z),
                ),
            final(self).grid_x() == old(self).grid_x(),
            final(self).grid_y() == old(self).grid_y(),
    {
        let ghost before = self@;
        let ghost levels = noise.levels();
        let ghost gx = self.grid_x();
        let ghost gy = self.grid_y();
        for i in 0..CHUNK_SIZE
            invariant
                levels == noise.levels(),
                gx == self.grid_x(),
                gy == self.grid_y(),
                self@ =~= before.union_prefer_right(terrain_until(levels, gx, gy, i as int, 0, 0)),
        {
            for j in 0..CHUNK_SIZE
                invariant
                    0 <= i < CHUNK_SIZE,
                    levels == noise.levels(),
                    gx == self.grid_x(),
                    gy == self.grid_y(),
                    self@ =~= before.union_prefer_right(
                        terrain_until(levels, gx, gy, i as int, j as int, 0),
                    ),
            {
                let level = noise.level(
                    NoiseField::Height,
                    world_coordinate(self.x(), i),
                    world_coordinate(self.y(), j),
                    0,
                );
                let height = terrain_height(level);
                for k in 0..height
                    invariant
                        0 <= i < CHUNK_SIZE,
                        0 <= j < CHUNK_SIZE,
                        height == surface_height(height_level(levels, gx, gy, i as int, j as int)),
                        gx == self.grid_x(),
                        gy == self.grid_y(),
                        self@ =~= before.union_prefer_right(
                            terrain_until(levels, gx, gy, i as int, j as int, k as int),
                        ),
                {
                    self.set_block(i, j, k, BlockFactory::create_stone());
                }
            }
        }
        assert(terrain_until(levels, gx, gy, CHUNK_SIZE as int, 0, 0) =~= terrain(levels, gx, gy));
        assert(before == Map::<Coord, Block>::empty() ==> self@ =~= terrain(levels, gx, gy));
    }
}

} // verus!
