//! The vegetation pass: trees grow where the trunk field says so: a short
//! trunk, then a stem that keeps growing and branching while the branch
//! field stays low, and leaves around every branch and around the top.

use crate::block::{Block, BlockFactory, BlockType};
use crate::chunk::{fits, in_world, Chunk, Coord, CHUNK_SIZE};
use crate::shape::{
    isqrt, layers_below, offset, offsets_before, rows_before, square, square_is_not_negative,
    square_within,
};
use crate::source::{Levels, NoiseField, NoiseSource};
use crate::terrain::{world, world_coordinate};
use crate::typing::max_height;
use noise::Simplex;
use vstd::prelude::*;

verus! {

/// A leaf grows where the leaf level is below this: eighty-five hundredths.
pub const LEAF_THRESHOLD: u32 = 10_200;

/// Whether a leaf cluster of the given radius reaches the offset `d` from its
/// centre: the cluster is a double cone, widest at the centre's height and
/// `radius` high to either side.
pub open spec fn in_cluster(d: Coord, radius: int) -> bool {
    &&& -radius <= d.2 <= radius
    &&& square(d.0) + square(d.1) <= square(radius - vstd::math::abs(d.2))
}

/// The leaf level at `c`.
pub open spec fn leaf_level(levels: Levels, gx: int, gy: int, c: Coord) -> int {
    levels(NoiseField::TreeLeaf, world(gx, c.0), world(gy, c.1), c.2)
}

/// Whether the cluster of the given radius around `center` has a leaf for
/// the place `c`: the cluster reaches `c`, and the leaf level there is under
/// the threshold.
pub open spec fn has_leaf(
    levels: Levels,
    gx: int,
    gy: int,
    center: Coord,
    radius: int,
    c: Coord,
) -> bool {
    &&& in_world(c)
    &&& in_cluster(offset(c, center), radius)
    &&& leaf_level(levels, gx, gy, c) < LEAF_THRESHOLD
}

/// The chunk `m` with a leaf cluster around `center`: every block of `m`
/// stays as it is, and each leaf of the cluster fills what was air.
pub open spec fn with_leaves(
    m: Map<Coord, Block>,
    levels: Levels,
    gx: int,
    gy: int,
    center: Coord,
    radius: int,
) -> Map<Coord, Block> {
    Map::new(
        |c: Coord| m.contains_key(c) || has_leaf(levels, gx, gy, center, radius, c),
        |c: Coord|
            if m.contains_key(c) {
                m[c]
            } else {
                Block::of(BlockType::TreeLeaf)
            },
    )
}

/// The chunk `m` with those leaves of the cluster whose offsets satisfy
/// `done`.
spec fn leaved_where(
    m: Map<Coord, Block>,
    levels: Levels,
    gx: int,
    gy: int,
    center: Coord,
    radius: int,
    done: spec_fn(Coord) -> bool,
) -> Map<Coord, Block> {
    Map::new(
        |c: Coord|
            m.contains_key(c) || (has_leaf(levels, gx, gy, center, radius, c) && done(
                offset(c, center),
            )),
        |c: Coord|
            if m.contains_key(c) {
                m[c]
            } else {
                Block::of(BlockType::TreeLeaf)
            },
    )
}

/// Leaves never take the place of a block: whatever the chunk held before a
/// cluster is placed, it holds afterwards, and what is new is leaf and was
/// air.
pub proof fn leaves_fill_air_only(
    m: Map<Coord, Block>,
    levels: Levels,
    gx: int,
    gy: int,
    center: Coord,
    radius: int,
)
    ensures
        m.submap_of(with_leaves(m, levels, gx, gy, center, radius)),
        forall|c: Coord| #[trigger]
            with_leaves(m, levels, gx, gy, center, radius).contains_key(c) && !m.contains_key(c)
                ==> with_leaves(m, levels, gx, gy, center, radius)[c] == Block::of(
                BlockType::TreeLeaf,
            ),
{
}

/// The height of a tree's trunk, in blocks.
pub const TRUNK_HEIGHT: i32 = 4;

/// The radius of the leaf cluster around a branch.
pub const BRANCH_RADIUS: i32 = 1;

/// The radius of the leaf cluster around the top of a tree.
pub const CANOPY_RADIUS: i32 = 2;

/// A tree keeps growing, and a branch spawns, where the branch level is
/// below this: four tenths.
pub const BRANCH_THRESHOLD: u32 = 4_800;

/// A tree stands where the trunk level is at least this: one half.
pub const TRUNK_LOW: u32 = 6_000;

/// A tree stands where the trunk level is below this: 0.50425.
pub const TRUNK_HIGH: u32 = 6_051;

/// The height at which every tree stops growing: the top of the world.
pub const GROWTH_LIMIT: i32 = 0x7fff_ffff;

/// The branch level at `c`.
pub open spec fn branch_level(levels: Levels, gx: int, gy: int, c: Coord) -> int {
    levels(NoiseField::TreeBranch, world(gx, c.0), world(gy, c.1), c.2)
}

/// The chunk `m` with a branch at `c`: a log there, in place of what was
/// there, and a leaf cluster around it.
pub open spec fn with_branch(
    m: Map<Coord, Block>,
    levels: Levels,
    gx: int,
    gy: int,
    c: Coord,
) -> Map<Coord, Block> {
    with_leaves(
        m.insert(c, Block::of(BlockType::TreeLog)),
        levels,
        gx,
        gy,
        c,
        BRANCH_RADIUS as int,
    )
}

/// The chunk `m` after the neighbour `c` of a stem was tried: it has a
/// branch there if `c` is a place of the world and the branch level at `c`
/// is under the threshold.
pub open spec fn with_side_branch(
    m: Map<Coord, Block>,
    levels: Levels,
    gx: int,
    gy: int,
    c: Coord,
) -> Map<Coord, Block> {
    if in_world(c) && branch_level(levels, gx, gy, c) < BRANCH_THRESHOLD {
        with_branch(m, levels, gx, gy, c)
    } else {
        m
    }
}

/// The chunk `m` after one step of growth at `c`: a log there, and then the
/// four neighbours of that place tried in turn, each by the branch level at
/// its own place: first the two along `x`, then the two along `y`, each time
/// the lower coordinate first.
pub open spec fn with_stem(m: Map<Coord, Block>, levels: Levels, gx: int, gy: int, c: Coord) -> Map<
    Coord,
    Block,
> {
    let stem = m.insert(c, Block::of(BlockType::TreeLog));
    let first = with_side_branch(stem, levels, gx, gy, (c.0 - 1, c.1, c.2));
    let second = with_side_branch(first, levels, gx, gy, (c.0 + 1, c.1, c.2));
    let third = with_side_branch(second, levels, gx, gy, (c.0, c.1 - 1, c.2));
    with_side_branch(third, levels, gx, gy, (c.0, c.1 + 1, c.2))
}

/// Whether a tree that has grown up to `c`, not including it, grows on.
pub open spec fn grows_on(levels: Levels, gx: int, gy: int, c: Coord) -> bool {
    c.2 < GROWTH_LIMIT && branch_level(levels, gx, gy, c) < BRANCH_THRESHOLD
}

/// The chunk `m` when the tree whose stem has reached `c`, not including
/// it, is fully grown: the stem grows a step at a time while it grows on,
/// and then gets its canopy around its topmost block.
pub open spec fn grown(m: Map<Coord, Block>, levels: Levels, gx: int, gy: int, c: Coord) -> Map<
    Coord,
    Block,
>
    decreases GROWTH_LIMIT - c.2,
{
    if grows_on(levels, gx, gy, c) {
        grown(with_stem(m, levels, gx, gy, c), levels, gx, gy, (c.0, c.1, c.2 + 1))
    } else {
        with_leaves(m, levels, gx, gy, (c.0, c.1, c.2 - 1), CANOPY_RADIUS as int)
    }
}

/// The chunk `m` with `n` logs stacked from `c` upwards, in place of what
/// was there.
pub open spec fn with_logs(m: Map<Coord, Block>, c: Coord, n: int) -> Map<Coord, Block>
    decreases n,
{
    if n <= 0 {
        m
    } else {
        with_logs(m, c, n - 1).insert((c.0, c.1, c.2 + n - 1), Block::of(BlockType::TreeLog))
    }
}

/// The chunk `m` with a trunk whose lowest block is at `c`.
pub open spec fn with_trunk(m: Map<Coord, Block>, c: Coord) -> Map<Coord, Block> {
    with_logs(m, c, TRUNK_HEIGHT as int)
}

/// The chunk `m` with a tree on the column `(x, y)`: its trunk stands on the
/// column's top, and the tree grows from the trunk's top.
pub open spec fn with_tree(
    m: Map<Coord, Block>,
    levels: Levels,
    gx: int,
    gy: int,
    x: int,
    y: int,
) -> Map<Coord, Block> {
    let base = max_height(m, levels, gx, gy, x, y) + 1;
    grown(with_trunk(m, (x, y, base)), levels, gx, gy, (x, y, base + TRUNK_HEIGHT))
}

/// Whether a tree stands on the column `(x, y)` of the chunk at `(gx, gy)`.
pub open spec fn sprouts(levels: Levels, gx: int, gy: int, x: int, y: int) -> bool {
    TRUNK_LOW <= levels(NoiseField::TreeTrunk, world(gx, x), world(gy, y), 0) < TRUNK_HIGH
}

/// The chunk `m` when the first `n` columns of the footprint have got their
/// trees; the columns are counted along `y` first.
pub open spec fn forested_until(
    m: Map<Coord, Block>,
    levels: Levels,
    gx: int,
    gy: int,
    n: int,
) -> Map<Coord, Block>
    decreases n,
{
    if n <= 0 {
        m
    } else {
        let rest = forested_until(m, levels, gx, gy, n - 1);
        let x = (n - 1) / (CHUNK_SIZE as int);
        let y = (n - 1) % (CHUNK_SIZE as int);
        if sprouts(levels, gx, gy, x, y) {
            with_tree(rest, levels, gx, gy, x, y)
        } else {
            rest
        }
    }
}

/// The chunk `m` after the vegetation pass.
pub open spec fn forested(m: Map<Coord, Block>, levels: Levels, gx: int, gy: int) -> Map<
    Coord,
    Block,
> {
    forested_until(m, levels, gx, gy, CHUNK_SIZE * CHUNK_SIZE)
}

/// Whether `b` is a part of a tree: a log or a leaf.
pub open spec fn is_tree_part(b: Block) -> bool {
    b == Block::of(BlockType::TreeLog) || b == Block::of(BlockType::TreeLeaf)
}

/// Whether `after` differs from `before` by parts of trees only: every
/// block of `after` is a block of `before` or a part of a tree.
pub open spec fn grew_trees_only(before: Map<Coord, Block>, after: Map<Coord, Block>) -> bool {
    forall|c: Coord| #[trigger]
        after.contains_key(c) ==> is_tree_part(after[c]) || (before.contains_key(c) && after[c]
            == before[c])
}

/// One step of growth at `c` puts nothing but logs and leaves, and puts
/// nothing new lower than one layer below `c`.
proof fn stem_grows_trees_nearby(m: Map<Coord, Block>, levels: Levels, gx: int, gy: int, c: Coord)
    ensures
        grew_trees_only(m, with_stem(m, levels, gx, gy, c)),
        forall|d: Coord| #[trigger]
            with_stem(m, levels, gx, gy, c).contains_key(d) ==> m.contains_key(d) || d.2 >= c.2
                - 1,
{
    let stem = m.insert(c, Block::of(BlockType::TreeLog));
    let first = with_side_branch(stem, levels, gx, gy, (c.0 - 1, c.1, c.2));
    let second = with_side_branch(first, levels, gx, gy, (c.0 + 1, c.1, c.2));
    let third = with_side_branch(second, levels, gx, gy, (c.0, c.1 - 1, c.2));
    let near = |n: Map<Coord, Block>|
        grew_trees_only(m, n) && forall|d: Coord| #[trigger]
            n.contains_key(d) ==> m.contains_key(d) || d.2 >= c.2 - 1;
    assert(near(stem));
    assert(near(first));
    assert(near(second));
    assert(near(third));
}

/// A growing tree puts nothing but logs and leaves.
proof fn grown_grows_trees_only(
    before: Map<Coord, Block>,
    m: Map<Coord, Block>,
    levels: Levels,
    gx: int,
    gy: int,
    c: Coord,
)
    requires
        grew_trees_only(before, m),
    ensures
        grew_trees_only(before, grown(m, levels, gx, gy, c)),
    decreases GROWTH_LIMIT - c.2,
{
    if grows_on(levels, gx, gy, c) {
        stem_grows_trees_nearby(m, levels, gx, gy, c);
        let next = with_stem(m, levels, gx, gy, c);
        assert(grew_trees_only(before, next));
        grown_grows_trees_only(before, next, levels, gx, gy, (c.0, c.1, c.2 + 1));
    }
}

/// Stacked logs are nothing but logs.
proof fn logs_grow_trees_only(m: Map<Coord, Block>, c: Coord, n: int)
    ensures
        grew_trees_only(m, with_logs(m, c, n)),
    decreases n,
{
    if n > 0 {
        logs_grow_trees_only(m, c, n - 1);
    }
}

/// A tree puts nothing but logs and leaves: every other block of the chunk
/// was there before the tree and is what it was.
pub proof fn tree_grows_trees_only(
    m: Map<Coord, Block>,
    levels: Levels,
    gx: int,
    gy: int,
    x: int,
    y: int,
)
    ensures
        grew_trees_only(m, with_tree(m, levels, gx, gy, x, y)),
{
    let base = max_height(m, levels, gx, gy, x, y) + 1;
    logs_grow_trees_only(m, (x, y, base), TRUNK_HEIGHT as int);
    grown_grows_trees_only(
        m,
        with_trunk(m, (x, y, base)),
        levels,
        gx,
        gy,
        (x, y, base + TRUNK_HEIGHT),
    );
}

/// The vegetation pass puts nothing but logs and leaves: every other block
/// of the chunk was there before the pass and is what it was.
pub proof fn forest_grows_trees_only(
    m: Map<Coord, Block>,
    levels: Levels,
    gx: int,
    gy: int,
    n: int,
)
    ensures
        grew_trees_only(m, forested_until(m, levels, gx, gy, n)),
    decreases n,
{
    if n > 0 {
        forest_grows_trees_only(m, levels, gx, gy, n - 1);
        let rest = forested_until(m, levels, gx, gy, n - 1);
        let x = (n - 1) / (CHUNK_SIZE as int);
        let y = (n - 1) % (CHUNK_SIZE as int);
        if sprouts(levels, gx, gy, x, y) {
            tree_grows_trees_only(rest, levels, gx, gy, x, y);
        }
    }
}

/// Whether no block of `m` lies below the floor of the world.
pub open spec fn above_floor(m: Map<Coord, Block>) -> bool {
    forall|c: Coord| #[trigger] m.contains_key(c) ==> c.2 >= 0
}

/// A tree whose stem has reached a height of three or more puts nothing
/// below the floor.
proof fn grown_stays_above_floor(m: Map<Coord, Block>, levels: Levels, gx: int, gy: int, c: Coord)
    requires
        above_floor(m),
        c.2 >= 3,
    ensures
        above_floor(grown(m, levels, gx, gy, c)),
    decreases GROWTH_LIMIT - c.2,
{
    if grows_on(levels, gx, gy, c) {
        stem_grows_trees_nearby(m, levels, gx, gy, c);
        let next = with_stem(m, levels, gx, gy, c);
        assert(above_floor(next));
        grown_stays_above_floor(next, levels, gx, gy, (c.0, c.1, c.2 + 1));
    }
}

/// Logs stacked from above the floor put nothing below the floor.
proof fn logs_stay_above_floor(m: Map<Coord, Block>, c: Coord, n: int)
    requires
        above_floor(m),
        c.2 >= 0,
    ensures
        above_floor(with_logs(m, c, n)),
    decreases n,
{
    if n > 0 {
        logs_stay_above_floor(m, c, n - 1);
    }
}

/// A tree puts nothing below the floor of the world.
pub proof fn tree_stays_above_floor(
    m: Map<Coord, Block>,
    levels: Levels,
    gx: int,
    gy: int,
    x: int,
    y: int,
)
    requires
        above_floor(m),
    ensures
        above_floor(with_tree(m, levels, gx, gy, x, y)),
{
    let reach = crate::caves::cave_reach(crate::terrain::height_level(levels, gx, gy, x, y));
    crate::typing::column_top_is_topmost(m, x, y, reach);
    let base = max_height(m, levels, gx, gy, x, y) + 1;
    logs_stay_above_floor(m, (x, y, base), TRUNK_HEIGHT as int);
    grown_stays_above_floor(
        with_trunk(m, (x, y, base)),
        levels,
        gx,
        gy,
        (x, y, base + TRUNK_HEIGHT),
    );
}

/// The vegetation pass puts nothing below the floor of the world.
pub proof fn forest_stays_above_floor(
    m: Map<Coord, Block>,
    levels: Levels,
    gx: int,
    gy: int,
    n: int,
)
    requires
        above_floor(m),
    ensures
        above_floor(forested_until(m, levels, gx, gy, n)),
    decreases n,
{
    if n > 0 {
        forest_stays_above_floor(m, levels, gx, gy, n - 1);
        let rest = forested_until(m, levels, gx, gy, n - 1);
        let x = (n - 1) / (CHUNK_SIZE as int);
        let y = (n - 1) % (CHUNK_SIZE as int);
        if sprouts(levels, gx, gy, x, y) {
            tree_stays_above_floor(rest, levels, gx, gy, x, y);
        }
    }
}

impl Chunk {
    /// Places a leaf cluster of the given radius around the centre: at every
    /// place of the world that the cluster reaches and that holds no block, a
    /// leaf is set if the leaf level there is under the threshold. No block
    /// is overwritten.
    pub fn generate_leaves<R: Fn(&Simplex, NoiseField, i64, i64, i64) -> u32>(
        &mut self,
        noise: &NoiseSource<R>,
        center_x: i32,
        center_y: i32,
        center_z: i32,
        radius: i32,
    )
        ensures
            final(self)@ == with_leaves(
                old(self)@,
                noise.levels(),
                old(self).grid_x(),
                old(self).grid_y(),
                (center_x as int, center_y as int, center_z as int),
                radius as int,
            ),
            old(self)@.submap_of(final(self)@),
            forall|c: Coord| #[trigger]
                final(self)@.contains_key(c) && !old(self)@.contains_key(c) ==> final(self)@[c]
                    == Block::of(BlockType::TreeLeaf),
            final(self).grid_x() == old(self).grid_x(),
            final(self).grid_y() == old(self).grid_y(),
    {
        let ghost before = self@;
        let ghost levels = noise.levels();
        let ghost gx = self.grid_x();
        let ghost gy = self.grid_y();
        let ghost center = (center_x as int, center_y as int, center_z as int);
        let reach: i64 = radius as i64;
        proof {
            assert forall|a: int| #[trigger] square(a) >= 0 by {
                square_is_not_negative(a);
            }
        }
        let mut iz: i64 = -reach;
        while iz <= reach
            invariant
                reach == radius,
                -reach <= iz <= reach + 1 || (reach < 0 && iz == -reach),
                center == (center_x as int, center_y as int, center_z as int),
                levels == noise.levels(),
                gx == self.grid_x(),
                gy == self.grid_y(),
                forall|a: int| #[trigger] square(a) >= 0,
                self@ =~= leaved_where(
                    before,
                    levels,
                    gx,
                    gy,
                    center,
                    radius as int,
                    layers_below(iz as int),
                ),
            decreases reach + 1 - iz,
        {
            let r: i64 = if iz < 0 {
                reach + iz
            } else {
                reach - iz
            };
            assert(r == radius - vstd::math::abs(iz as int));
            assert(0 <= r * r <= 0x7fff_ffff * 0x7fff_ffff && r * r < (r + 1) * (r + 1))
                by (nonlinear_arith)
                requires
                    0 <= r <= 0x7fff_ffff,
            ;
            let rr: i64 = r * r;
            proof {
                assert forall|a: int| #[trigger]
                    square(a) <= square(r as int) <==> -r <= a <= r by {
                    square_within(a, square(r as int), r as int);
                }
                assert(self@ =~= leaved_where(
                    before,
                    levels,
                    gx,
                    gy,
                    center,
                    radius as int,
                    rows_before(iz as int, -r as int),
                ));
            }
            let mut iy: i64 = -r;
            while iy <= r
                invariant
                    reach == radius,
                    -reach <= iz <= reach,
                    0 <= r <= 0x7fff_ffff,
                    r == radius - vstd::math::abs(iz as int),
                    rr == square(r as int),
                    rr <= 0x3fff_ffff_0000_0001,
                    -r <= iy <= r + 1,
                    center == (center_x as int, center_y as int, center_z as int),
                    levels == noise.levels(),
                    gx == self.grid_x(),
                    gy == self.grid_y(),
                    forall|a: int| #[trigger] square(a) >= 0,
                    forall|a: int| #[trigger] square(a) <= square(r as int) <==> -r <= a <= r,
                    self@ =~= leaved_where(
                        before,
                        levels,
                        gx,
                        gy,
                        center,
                        radius as int,
                        rows_before(iz as int, iy as int),
                    ),
                decreases r + 1 - iy,
            {
                assert(0 <= iy * iy <= r * r) by (nonlinear_arith)
                    requires
                        0 <= r,
                        -r <= iy <= r,
                ;
                let width: i64 = rr - iy * iy;
                let dx: i64 = isqrt(width);
                proof {
                    assert(width == square(r as int) - square(iy as int));
                    assert forall|a: int| #[trigger] square(a) <= width <==> -dx <= a <= dx by {
                        square_within(a, width as int, dx as int);
                    }
                    assert(self@ =~= leaved_where(
                        before,
                        levels,
                        gx,
                        gy,
                        center,
                        radius as int,
                        offsets_before(iz as int, iy as int, -dx as int),
                    ));
                }
                let mut ix: i64 = -dx;
                while ix <= dx
                    invariant
                        reach == radius,
                        -reach <= iz <= reach,
                        0 <= r <= 0x7fff_ffff,
                        r == radius - vstd::math::abs(iz as int),
                        -r <= iy <= r,
                        0 <= dx <= 0x8000_0000,
                        -dx <= ix <= dx + 1,
                        width == square(r as int) - square(iy as int),
                        center == (center_x as int, center_y as int, center_z as int),
                        levels == noise.levels(),
                        gx == self.grid_x(),
                        gy == self.grid_y(),
                        forall|a: int| #[trigger] square(a) <= width <==> -dx <= a <= dx,
                        self@ =~= leaved_where(
                            before,
                            levels,
                            gx,
                            gy,
                            center,
                            radius as int,
                            offsets_before(iz as int, iy as int, ix as int),
                        ),
                    decreases dx + 1 - ix,
                {
                    let i: i64 = center_x as i64 + ix;
                    let j: i64 = center_y as i64 + iy;
                    let k: i64 = center_z as i64 + iz;
                    proof {
                        self.blocks_lie_in_world();
                        assert(offset((i as int, j as int, k as int), center) == (
                            ix as int,
                            iy as int,
                            iz as int,
                        ));
                        assert(square(ix as int) <= width);
                    }
                    if fits(i) && fits(j) && fits(k) && !self.has_block(
                        i as i32,
                        j as i32,
                        k as i32,
                    ) {
                        let level = noise.level(
                            NoiseField::TreeLeaf,
                            world_coordinate(self.x(), i as i32),
                            world_coordinate(self.y(), j as i32),
                            k,
                        );
                        if level < LEAF_THRESHOLD {
                            self.set_block(
                                i as i32,
                                j as i32,
                                k as i32,
                                BlockFactory::create_tree_leaf(),
                            );
                        }
                    }
                    proof {
                        assert(self@ =~= leaved_where(
                            before,
                            levels,
                            gx,
                            gy,
                            center,
                            radius as int,
                            offsets_before(iz as int, iy as int, ix as int + 1),
                        ));
                    }
                    ix = ix + 1;
                }
                proof {
                    assert(self@ =~= leaved_where(
                        before,
                        levels,
                        gx,
                        gy,
                        center,
                        radius as int,
                        rows_before(iz as int, iy as int + 1),
                    ));
                }
                iy = iy + 1;
            }
            proof {
                assert(self@ =~= leaved_where(
                    before,
                    levels,
                    gx,
                    gy,
                    center,
                    radius as int,
                    layers_below(iz as int + 1),
                ));
            }
            iz = iz + 1;
        }
        proof {
            assert(self@ =~= with_leaves(before, levels, gx, gy, center, radius as int));
        }
    }

    /// Grows a branch at `(x, y, z)`: a log there, in place of what was
    /// there, and a leaf cluster around it.
    pub fn generate_branch<R: Fn(&Simplex, NoiseField, i64, i64, i64) -> u32>(
        &mut self,
        noise: &NoiseSource<R>,
        x: i32,
        y: i32,
        z: i32,
    )
        ensures
            final(self)@ == with_branch(
                old(self)@,
                noise.levels(),
                old(self).grid_x(),
                old(self).grid_y(),
                (x as int, y as int, z as int),
            ),
            final(self).grid_x() == old(self).grid_x(),
            final(self).grid_y() == old(self).grid_y(),
    {
        self.set_block(x, y, z, BlockFactory::create_tree_log());
        self.generate_leaves(noise, x, y, z, BRANCH_RADIUS);
    }

    /// Tries the neighbour `(x, y, z)` of a stem: grows a branch there if
    /// it is a place of the world and the branch level there is under the
    /// threshold.
    fn try_side_branch<R: Fn(&Simplex, NoiseField, i64, i64, i64) -> u32>(
        &mut self,
        noise: &NoiseSource<R>,
        x: i64,
        y: i64,
        z: i32,
    )
        ensures
            final(self)@ == with_side_branch(
                old(self)@,
                noise.levels(),
                old(self).grid_x(),
                old(self).grid_y(),
                (x as int, y as int, z as int),
            ),
            final(self).grid_x() == old(self).grid_x(),
            final(self).grid_y() == old(self).grid_y(),
    {
        if fits(x) && fits(y) {
            let level = noise.level(
                NoiseField::TreeBranch,
                world_coordinate(self.x(), x as i32),
                world_coordinate(self.y(), y as i32),
                z as i64,
            );
            if level < BRANCH_THRESHOLD {
                self.generate_branch(noise, x as i32, y as i32, z);
            }
        }
    }

    /// Grows a tree on the column `(x, y)`. The trunk, `TRUNK_HEIGHT` logs,
    /// stands on the column's top. From the trunk's top the stem grows a
    /// block at a time for as long as the branch level at the next place is
    /// under the threshold, trying a branch at each of the four neighbours
    /// of every new block; it stops at the top of the world at the latest.
    /// The canopy, a leaf cluster, goes around the topmost block.
    pub fn generate_tree<R: Fn(&Simplex, NoiseField, i64, i64, i64) -> u32>(
        &mut self,
        noise: &NoiseSource<R>,
        x: i32,
        y: i32,
    )
        ensures
            final(self)@ == with_tree(
                old(self)@,
                noise.levels(),
                old(self).grid_x(),
                old(self).grid_y(),
                x as int,
                y as int,
            ),
            final(self).grid_x() == old(self).grid_x(),
            final(self).grid_y() == old(self).grid_y(),
    {
        let ghost before = self@;
        let ghost levels = noise.levels();
        let ghost gx = self.grid_x();
        let ghost gy = self.grid_y();
        let base = self.get_max_height(noise, x, y) + 1;
        let mut height = base;
        for n in 0..TRUNK_HEIGHT
            invariant
                height == base + n,
                0 < base <= 50,
                gx == self.grid_x(),
                gy == self.grid_y(),
                self@ == with_logs(before, (x as int, y as int, base as int), n as int),
        {
            self.set_block(x, y, height, BlockFactory::create_tree_log());
            height = height + 1;
        }
        let ghost whole = with_tree(before, levels, gx, gy, x as int, y as int);
        let wx = world_coordinate(self.x(), x);
        let wy = world_coordinate(self.y(), y);
        let mut growing = height < GROWTH_LIMIT && noise.level(
            NoiseField::TreeBranch,
            wx,
            wy,
            height as i64,
        ) < BRANCH_THRESHOLD;
        while growing
            invariant
                0 < height <= GROWTH_LIMIT,
                wx == world(gx, x as int),
                wy == world(gy, y as int),
                levels == noise.levels(),
                gx == self.grid_x(),
                gy == self.grid_y(),
                growing == grows_on(levels, gx, gy, (x as int, y as int, height as int)),
                grown(self@, levels, gx, gy, (x as int, y as int, height as int)) == whole,
            decreases GROWTH_LIMIT - height,
        {
            self.set_block(x, y, height, BlockFactory::create_tree_log());
            let (px, py): (i64, i64) = (x as i64, y as i64);
            self.try_side_branch(noise, px - 1, py, height);
            self.try_side_branch(noise, px + 1, py, height);
            self.try_side_branch(noise, px, py - 1, height);
            self.try_side_branch(noise, px, py + 1, height);
            height = height + 1;
            growing = height < GROWTH_LIMIT && noise.level(
                NoiseField::TreeBranch,
                wx,
                wy,
                height as i64,
            ) < BRANCH_THRESHOLD;
        }
        self.generate_leaves(noise, x, y, height - 1, CANOPY_RADIUS);
    }

    /// Grows the trees: walks the footprint column by column, along `y`
    /// first, and grows a tree on every column whose trunk level lies
    /// between `TRUNK_LOW` and `TRUNK_HIGH`.
    pub fn generate_trees<R: Fn(&Simplex, NoiseField, i64, i64, i64) -> u32>(
        &mut self,
        noise: &NoiseSource<R>,
    )
        ensures
            final(self)@ == forested(
                old(self)@,
                noise.levels(),
                old(self).grid_x(),
                old(self).grid_y(),
            ),
            final(self).grid_x() == old(self).grid_x(),
            final(self).grid_y() == old(self).grid_y(),
    {
        let ghost before = self@;
        let ghost levels = noise.levels();
        let ghost gx = self.grid_x();
        let ghost gy = self.grid_y();
        for i in 0..CHUNK_SIZE
            invariant
                levels == noise.levels(),
                gx == self.grid_x(),
                gy == self.grid_y(),
                self@ == forested_until(before, levels, gx, gy, i * CHUNK_SIZE),
        {
            for j in 0..CHUNK_SIZE
                invariant
                    0 <= i < CHUNK_SIZE,
                    levels == noise.levels(),
                    gx == self.grid_x(),
                    gy == self.grid_y(),
                    self@ == forested_until(before, levels, gx, gy, i * CHUNK_SIZE + j),
            {
                let level = noise.level(
                    NoiseField::TreeTrunk,
                    world_coordinate(self.x(), i),
                    world_coordinate(self.y(), j),
                    0,
                );
                proof {
                    let n = i * CHUNK_SIZE + j + 1;
                    assert((n - 1) / (CHUNK_SIZE as int) == i && (n - 1) % (CHUNK_SIZE as int)
                        == j);
                }
                if TRUNK_LOW <= level && level < TRUNK_HIGH {
                    self.generate_tree(noise, i, j);
                }
            }
        }
    }
}

} // verus!
