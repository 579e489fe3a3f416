//! The cave pass: wherever the cave field is thin enough, a cavity centred
//! on that point is taken out of the chunk.

use crate::block::Block;
use crate::chunk::{fits, in_world, Chunk, Coord, CHUNK_SIZE, MAX_HEIGHT};
use crate::shape::{
    isqrt, layers_below, offset, offsets_before, rows_before, square, square_is_not_negative,
    square_within, walked_before,
};
use crate::source::{Levels, NoiseField, NoiseSource, LEVEL_ONE};
use crate::terrain::{height_level, in_footprint, world, world_coordinate};
use noise::Simplex;
use vstd::prelude::*;

verus! {

/// The radius of a carved cavity: how far it reaches above and below its
/// centre, and how wide it is there.
pub const CAVE_MULTIPLIER: i32 = 3;

/// A cavity starts where the cave level is below this: two tenths.
pub const CAVE_THRESHOLD: u32 = 2_400;

/// Whether a cavity reaches the offset `d` from its centre. The cavity
/// reaches `CAVE_MULTIPLIER` layers up and as many down; in each layer it is
/// a disc around the centre's column, as wide as the layer is far from the
/// centre. So it is the same above and below its centre, and at the centre's
/// own height it is the centre alone.
pub open spec fn in_cross_section(d: Coord) -> bool {
    &&& -CAVE_MULTIPLIER <= d.2 <= CAVE_MULTIPLIER
    &&& square(d.0) + square(d.1) <= square(d.2)
}

/// Whether digging at `center` takes out the block at `c`: the cavity reaches
/// `c`, and `c` lies above the floor of the world.
pub open spec fn digs(center: Coord, c: Coord) -> bool {
    c.2 > 0 && in_cross_section(offset(c, center))
}

/// What is left of `m` after digging at `center`.
pub open spec fn dug(m: Map<Coord, Block>, center: Coord) -> Map<Coord, Block> {
    m.remove_keys(Set::new(|c: Coord| digs(center, c)))
}

/// The height up to which caves may start in a column whose height level is
/// `level`: the level's share of `MAX_HEIGHT`, rounded down.
pub open spec fn cave_reach(level: int) -> int {
    level * MAX_HEIGHT / (LEVEL_ONE as int)
}

/// Whether the cave pass digs at `p`: `p` is in the footprint, above the
/// floor and below the column's cave reach, and the cave level there is under
/// the threshold.
pub open spec fn carves_at(levels: Levels, gx: int, gy: int, p: Coord) -> bool {
    &&& in_footprint(p.0, p.1)
    &&& 0 < p.2 < cave_reach(height_level(levels, gx, gy, p.0, p.1))
    &&& levels(NoiseField::Cave, world(gx, p.0), world(gy, p.1), p.2) < CAVE_THRESHOLD
}

/// Whether the cave pass takes out the block at `c`.
pub open spec fn is_carved(levels: Levels, gx: int, gy: int, c: Coord) -> bool {
    exists|p: Coord| carves_at(levels, gx, gy, p) && #[trigger] digs(p, c)
}

/// What is left of `m` after the cave pass on the chunk at `(gx, gy)`.
pub open spec fn carved(m: Map<Coord, Block>, levels: Levels, gx: int, gy: int) -> Map<
    Coord,
    Block,
> {
    m.remove_keys(Set::new(|c: Coord| is_carved(levels, gx, gy, c)))
}

/// What is left of `m` when digging at `center` has taken out those blocks
/// whose offsets satisfy `done`.
spec fn dug_where(m: Map<Coord, Block>, center: Coord, done: spec_fn(Coord) -> bool) -> Map<
    Coord,
    Block,
> {
    m.remove_keys(Set::new(|c: Coord| digs(center, c) && done(offset(c, center))))
}

/// What is left of `m` when the cave pass has walked the footprint as far as
/// `(x, y, z)`.
spec fn carved_until(
    m: Map<Coord, Block>,
    levels: Levels,
    gx: int,
    gy: int,
    x: int,
    y: int,
    z: int,
) -> Map<Coord, Block> {
    m.remove_keys(
        Set::new(
            |c: Coord|
                exists|p: Coord|
                    carves_at(levels, gx, gy, p) && walked_before(p, x, y, z) && #[trigger] digs(
                        p,
                        c,
                    ),
        ),
    )
}

/// The cave pass never makes a block, and never takes one from the floor of
/// the world or from below it.
pub proof fn carving_spares_the_floor(m: Map<Coord, Block>, levels: Levels, gx: int, gy: int)
    ensures
        carved(m, levels, gx, gy).submap_of(m),
        forall|c: Coord|
            c.2 <= 0 && m.contains_key(c) ==> #[trigger] carved(m, levels, gx, gy).contains_key(c),
{
}

/// The height up to which caves may start in a column whose height level is
/// `level`.
pub fn cave_height(level: u32) -> (height: i32)
    ensures
        height == cave_reach(level as int),
        0 <= height,
        level < LEVEL_ONE ==> height < MAX_HEIGHT,
{
    let span: u64 = MAX_HEIGHT as u64;
    let one: u64 = LEVEL_ONE as u64;
    assert(span == 50 && one == 12_000);
    let raw: u64 = level as u64 * span / one;
    raw as i32
}

impl Chunk {
    /// Digs a cavity centred on `(x, y, z)`: takes out every block that the
    /// cavity reaches, above the centre and below it, except at the floor of
    /// the world and below.
    pub fn dig_cross_section(&mut self, x: i32, y: i32, z: i32)
        ensures
            final(self)@ == dug(old(self)@, (x as int, y as int, z as int)),
            final(self)@.submap_of(old(self)@),
            forall|c: Coord|
                c.2 <= 0 && old(self)@.contains_key(c) ==> #[trigger] final(self)@.contains_key(c),
            final(self).grid_x() == old(self).grid_x(),
            final(self).grid_y() == old(self).grid_y(),
    {
        let ghost before = self@;
        let ghost center = (x as int, y as int, z as int);
        proof {
            self.blocks_lie_in_world();
            assert forall|a: int| #[trigger] square(a) >= 0 by {
                square_is_not_negative(a);
            }
        }
        let mut iz: i32 = -CAVE_MULTIPLIER;
        while iz <= CAVE_MULTIPLIER
            invariant
                -CAVE_MULTIPLIER <= iz <= CAVE_MULTIPLIER + 1,
                center == (x as int, y as int, z as int),
                forall|c: Coord| #[trigger] before.contains_key(c) ==> in_world(c),
                forall|a: int| #[trigger] square(a) >= 0,
                self.grid_x() == old(self).grid_x(),
                self.grid_y() == old(self).grid_y(),
                self@ =~= dug_where(before, center, layers_below(iz as int)),
            decreases CAVE_MULTIPLIER + 1 - iz,
        {
            let r: i32 = if iz < 0 {
                -iz
            } else {
                iz
            };
            proof {
                assert(r * r == iz * iz && r * r < (r + 1) * (r + 1)) by (nonlinear_arith)
                    requires
                        0 <= r,
                        r == iz || r == -iz,
                ;
                assert(square(r as int) == square(iz as int));
                assert forall|a: int| #[trigger]
                    square(a) <= square(iz as int) <==> -r <= a <= r by {
                    square_within(a, square(r as int), r as int);
                }
                assert(self@ =~= dug_where(before, center, rows_before(iz as int, -r as int)));
            }
            let mut iy: i32 = -r;
            while iy <= r
                invariant
                    -CAVE_MULTIPLIER <= iz <= CAVE_MULTIPLIER,
                    0 <= r <= CAVE_MULTIPLIER,
                    square(r as int) == square(iz as int),
                    -r <= iy <= r + 1,
                    center == (x as int, y as int, z as int),
                    forall|c: Coord| #[trigger] before.contains_key(c) ==> in_world(c),
                    forall|a: int| #[trigger] square(a) >= 0,
                    forall|a: int| #[trigger] square(a) <= square(iz as int) <==> -r <= a <= r,
                    self.grid_x() == old(self).grid_x(),
                    self.grid_y() == old(self).grid_y(),
                    self@ =~= dug_where(before, center, rows_before(iz as int, iy as int)),
                decreases r + 1 - iy,
            {
                assert(0 <= iy * iy <= r * r <= 9) by (nonlinear_arith)
                    requires
                        0 <= r <= 3,
                        -r <= iy <= r,
                ;
                let width: i64 = (r * r - iy * iy) as i64;
                let root: i64 = isqrt(width);
                assert(root <= 3) by (nonlinear_arith)
                    requires
                        0 <= root,
                        root * root <= 9,
                ;
                let dx: i32 = root as i32;
                proof {
                    assert(width == square(iz as int) - square(iy as int));
                    assert forall|a: int| #[trigger] square(a) <= width <==> -dx <= a <= dx by {
                        square_within(a, width as int, dx as int);
                    }
                    assert(self@ =~= dug_where(
                        before,
                        center,
                        offsets_before(iz as int, iy as int, -dx as int),
                    ));
                }
                let mut ix: i32 = -dx;
                while ix <= dx
                    invariant
                        -CAVE_MULTIPLIER <= iz <= CAVE_MULTIPLIER,
                        0 <= dx <= 3,
                        -dx <= ix <= dx + 1,
                        center == (x as int, y as int, z as int),
                        width == square(iz as int) - square(iy as int),
                        forall|c: Coord| #[trigger] before.contains_key(c) ==> in_world(c),
                        forall|a: int| #[trigger] square(a) <= width <==> -dx <= a <= dx,
                        self.grid_x() == old(self).grid_x(),
                        self.grid_y() == old(self).grid_y(),
                        self@ =~= dug_where(
                            before,
                            center,
                            offsets_before(iz as int, iy as int, ix as int),
                        ),
                    decreases dx + 1 - ix,
                {
                    let i: i64 = x as i64 + ix as i64;
                    let j: i64 = y as i64 + iy as i64;
                    let k: i64 = z as i64 + iz as i64;
                    if k > 0 && fits(i) && fits(j) && fits(k) {
                        self.remove_block(i as i32, j as i32, k as i32);
                    }
                    proof {
                        let c0 = (i as int, j as int, k as int);
                        assert(offset(c0, center) == (ix as int, iy as int, iz as int));
                        assert(square(ix as int) <= width);
                        assert(self@ =~= dug_where(
                            before,
                            center,
                            offsets_before(iz as int, iy as int, ix as int + 1),
                        ));
                    }
                    ix = ix + 1;
                }
                proof {
                    assert(self@ =~= dug_where(
                        before,
                        center,
                        rows_before(iz as int, iy as int + 1),
                    ));
                }
                iy = iy + 1;
            }
            proof {
                assert(self@ =~= dug_where(before, center, layers_below(iz as int + 1)));
            }
            iz = iz + 1;
        }
        proof {
            assert(self@ =~= dug(before, center));
        }
    }

    /// Carves the caves: digs a cavity at every point of the footprint that
    /// lies above the floor and below its column's cave reach and whose cave
    /// level is under the threshold. A block is gone afterwards if one of the
    /// cavities reaches it; in which order they are dug makes no difference.
    pub fn generate_caves<R: Fn(&Simplex, NoiseField, i64, i64, i64) -> u32>(
        &mut self,
        noise: &NoiseSource<R>,
    )
        ensures
            final(self)@ == carved(
                old(self)@,
                noise.levels(),
                old(self).grid_x(),
                old(self).grid_y(),
            ),
            final(self)@.submap_of(old(self)@),
            forall|c: Coord|
                c.2 <= 0 && old(self)@.contains_key(c) ==> #[trigger] final(self)@.contains_key(c),
            final(self).grid_x() == old(self).grid_x(),
            final(self).grid_y() == old(self).grid_y(),
    {
        let ghost before = self@;
        let ghost levels = noise.levels();
        let ghost gx = self.grid_x();
        let ghost gy = self.grid_y();
        for i in 0..CHUNK_SIZE
            invariant
                levels == noise.levels(),
                gx == self.grid_x(),
                gy == self.grid_y(),
                self@ =~= carved_until(before, levels, gx, gy, i as int, 0, 0),
        {
            for j in 0..CHUNK_SIZE
                invariant
                    0 <= i < CHUNK_SIZE,
                    levels == noise.levels(),
                    gx == self.grid_x(),
                    gy == self.grid_y(),
                    self@ =~= carved_until(before, levels, gx, gy, i as int, j as int, 0),
            {
                let wx = world_coordinate(self.x(), i);
                let wy = world_coordinate(self.y(), j);
                let reach = cave_height(noise.level(NoiseField::Height, wx, wy, 0));
                for k in 0..reach
                    invariant
                        0 <= i < CHUNK_SIZE,
                        0 <= j < CHUNK_SIZE,
                        wx == world(gx, i as int),
                        wy == world(gy, j as int),
                        reach == cave_reach(height_level(levels, gx, gy, i as int, j as int)),
                        levels == noise.levels(),
                        gx == self.grid_x(),
                        gy == self.grid_y(),
                        self@ =~= carved_until(
                            before,
                            levels,
                            gx,
                            gy,
                            i as int,
                            j as int,
                            k as int,
                        ),
                {
                    let ghost here = self@;
                    let ghost p0 = (i as int, j as int, k as int);
                    let cave = noise.level(NoiseField::Cave, wx, wy, k as i64);
                    if k > 0 && cave < CAVE_THRESHOLD {
                        self.dig_cross_section(i, j, k);
                    }
                    proof {
                        assert(self@ =~= if carves_at(levels, gx, gy, p0) {
                            dug(here, p0)
                        } else {
                            here
                        });
                        assert forall|p: Coord|
                            walked_before(p, i as int, j as int, k as int + 1) <==> walked_before(
                                p,
                                i as int,
                                j as int,
                                k as int,
                            ) || p == p0 by {}
                        assert(self@ =~= carved_until(
                            before,
                            levels,
                            gx,
                            gy,
                            i as int,
                            j as int,
                            k as int + 1,
                        ));
                    }
                }
                proof {
                    assert(self@ =~= carved_until(
                        before,
                        levels,
                        gx,
                        gy,
                        i as int,
                        j as int + 1,
                        0,
                    ));
                }
            }
            proof {
                assert(self@ =~= carved_until(before, levels, gx, gy, i as int + 1, 0, 0));
            }
        }
        proof {
            assert(self@ =~= carved(before, levels, gx, gy));
        }
    }
}

} // verus!
