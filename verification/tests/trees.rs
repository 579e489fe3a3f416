use mycraft::block::{BlockFactory, BlockType};
use mycraft::chunk::Chunk;
use mycraft::source::{NoiseField, NoiseSource, LEVEL_ONE};
use mycraft::trees::{
    BRANCH_RADIUS, BRANCH_THRESHOLD, CANOPY_RADIUS, LEAF_THRESHOLD, TRUNK_HEIGHT, TRUNK_HIGH,
    TRUNK_LOW,
};
use noise::Simplex;

fn kind(chunk: &Chunk, x: i32, y: i32, z: i32) -> BlockType {
    *chunk.get_block(x, y, z).expect("a block").get_block_type()
}

fn in_cluster(dx: i32, dy: i32, dz: i32, radius: i32) -> bool {
    let r = radius - dz.abs();
    r >= 0 && dx * dx + dy * dy <= r * r
}

fn leafy(_: &Simplex, field: NoiseField, _: i64, _: i64, _: i64) -> u32 {
    match field {
        NoiseField::TreeLeaf => 0,
        _ => LEVEL_ONE - 1,
    }
}

#[test]
fn tree_constants() {
    assert_eq!(TRUNK_HEIGHT, 4);
    assert_eq!(BRANCH_RADIUS, 1);
    assert_eq!(CANOPY_RADIUS, 2);
    assert_eq!(LEAF_THRESHOLD, LEVEL_ONE / 100 * 85);
    assert_eq!(BRANCH_THRESHOLD, LEVEL_ONE / 10 * 4);
    assert_eq!(TRUNK_LOW, LEVEL_ONE / 2);
    assert_eq!(TRUNK_HIGH as u64, LEVEL_ONE as u64 * 50_425 / 100_000);
}

#[test]
fn a_cluster_of_radius_one_has_seven_leaves() {
    let noise = NoiseSource::new(1, leafy);
    let mut chunk = Chunk::new(0, 0);
    chunk.generate_leaves(&noise, 4, 5, 6, 1);
    let mut all = chunk.coordinates();
    all.sort();
    assert_eq!(
        all,
        vec![(3, 5, 6), (4, 4, 6), (4, 5, 5), (4, 5, 6), (4, 5, 7), (4, 6, 6), (5, 5, 6)]
    );
    for (x, y, z) in all {
        assert_eq!(kind(&chunk, x, y, z), BlockType::TreeLeaf);
    }
}

#[test]
fn a_cluster_of_radius_two_has_twenty_five_leaves() {
    let noise = NoiseSource::new(1, leafy);
    let mut chunk = Chunk::new(0, 0);
    chunk.generate_leaves(&noise, 0, 0, 0, 2);
    let all = chunk.coordinates();
    assert_eq!(all.len(), 1 + 5 + 13 + 5 + 1);
    for x in -3..4 {
        for y in -3..4 {
            for z in -3..4 {
                assert_eq!(chunk.has_block(x, y, z), in_cluster(x, y, z, 2), "at {x} {y} {z}");
            }
        }
    }
}

#[test]
fn a_cluster_of_radius_zero_is_one_leaf_and_a_negative_radius_gives_none() {
    let noise = NoiseSource::new(1, leafy);
    let mut chunk = Chunk::new(0, 0);
    chunk.generate_leaves(&noise, 1, 1, 1, -1);
    chunk.generate_leaves(&noise, 1, 1, 1, i32::MIN);
    assert!(chunk.coordinates().is_empty());
    chunk.generate_leaves(&noise, 1, 1, 1, 0);
    assert_eq!(chunk.coordinates(), vec![(1, 1, 1)]);
}

#[test]
fn leaves_never_replace_a_block() {
    let noise = NoiseSource::new(1, leafy);
    let mut chunk = Chunk::new(0, 0);
    chunk.set_block(0, 0, 0, BlockFactory::create_tree_log());
    chunk.set_block(1, 0, 0, BlockFactory::create_stone());
    chunk.set_block(0, 0, 2, BlockFactory::create_sand());
    chunk.set_block(9, 9, 9, BlockFactory::create_coal());
    let before: Vec<_> = chunk
        .coordinates()
        .into_iter()
        .map(|(x, y, z)| ((x, y, z), *chunk.get_block(x, y, z).unwrap()))
        .collect();
    chunk.generate_leaves(&noise, 0, 0, 0, 2);
    for ((x, y, z), block) in &before {
        assert_eq!(chunk.get_block(*x, *y, *z), Some(block));
    }
    assert_eq!(chunk.coordinates().len(), 25 - 3 + 4);
    for (x, y, z) in chunk.coordinates() {
        if !before.iter().any(|(place, _)| *place == (x, y, z)) {
            assert_eq!(kind(&chunk, x, y, z), BlockType::TreeLeaf);
        }
    }
}

fn sparse_leaves(_: &Simplex, field: NoiseField, x: i64, y: i64, z: i64) -> u32 {
    match field {
        NoiseField::TreeLeaf => {
            if (x + y + z) % 2 == 0 {
                LEAF_THRESHOLD - 1
            } else {
                LEAF_THRESHOLD
            }
        }
        _ => LEVEL_ONE - 1,
    }
}

#[test]
fn leaves_grow_where_the_leaf_level_is_low() {
    let noise = NoiseSource::new(1, sparse_leaves);
    let mut chunk = Chunk::new(1, 1);
    chunk.generate_leaves(&noise, 8, 8, 8, 2);
    for x in 5..12 {
        for y in 5..12 {
            for z in 5..12 {
                // world coordinates are 16 higher in x and in y
                let expected = in_cluster(x - 8, y - 8, z - 8, 2) && (x + y + z) % 2 == 0;
                assert_eq!(chunk.has_block(x, y, z), expected, "at {x} {y} {z}");
            }
        }
    }
}

#[test]
fn leaves_at_the_edge_of_the_world() {
    let noise = NoiseSource::new(1, leafy);
    let mut chunk = Chunk::new(0, 0);
    chunk.generate_leaves(&noise, i32::MAX, i32::MIN, i32::MAX, 1);
    let mut all = chunk.coordinates();
    all.sort();
    assert_eq!(
        all,
        vec![
            (i32::MAX - 1, i32::MIN, i32::MAX),
            (i32::MAX, i32::MIN, i32::MAX - 1),
            (i32::MAX, i32::MIN, i32::MAX),
            (i32::MAX, i32::MIN + 1, i32::MAX),
        ]
    );
}

#[test]
fn a_branch_is_a_log_in_leaves() {
    let noise = NoiseSource::new(1, leafy);
    let mut chunk = Chunk::new(0, 0);
    chunk.set_block(2, 3, 9, BlockFactory::create_tree_leaf());
    chunk.set_block(2, 3, 10, BlockFactory::create_stone());
    chunk.generate_branch(&noise, 2, 3, 9);
    assert_eq!(kind(&chunk, 2, 3, 9), BlockType::TreeLog);
    assert_eq!(kind(&chunk, 2, 3, 10), BlockType::Stone);
    assert_eq!(kind(&chunk, 2, 3, 8), BlockType::TreeLeaf);
    assert_eq!(kind(&chunk, 1, 3, 9), BlockType::TreeLeaf);
    assert_eq!(kind(&chunk, 3, 3, 9), BlockType::TreeLeaf);
    assert_eq!(kind(&chunk, 2, 2, 9), BlockType::TreeLeaf);
    assert_eq!(kind(&chunk, 2, 4, 9), BlockType::TreeLeaf);
    assert_eq!(chunk.coordinates().len(), 7);
}

fn bare_tree(stem: i64) -> impl Fn(&Simplex, NoiseField, i64, i64, i64) -> u32 {
    move |_: &Simplex, field: NoiseField, x: i64, y: i64, z: i64| match field {
        NoiseField::Height => 6_000,
        NoiseField::TreeBranch => {
            if (x, y) == (5, 5) && z < stem {
                BRANCH_THRESHOLD - 1
            } else {
                BRANCH_THRESHOLD
            }
        }
        _ => LEVEL_ONE - 1,
    }
}

#[test]
fn a_tree_that_does_not_grow_is_a_trunk() {
    let noise = NoiseSource::new(1, bare_tree(0));
    let mut chunk = Chunk::new(0, 0);
    chunk.generate_tree(&noise, 5, 5);
    let mut all = chunk.coordinates();
    all.sort();
    assert_eq!(all, vec![(5, 5, 1), (5, 5, 2), (5, 5, 3), (5, 5, 4)]);
    for (x, y, z) in all {
        assert_eq!(kind(&chunk, x, y, z), BlockType::TreeLog);
    }
}

#[test]
fn a_tree_stands_on_the_top_of_its_column() {
    let noise = NoiseSource::new(1, bare_tree(0));
    let mut chunk = Chunk::new(0, 0);
    chunk.generate_terrain(&noise);
    // the top of the column is found at 25; the trunk takes the place of
    // the terrain from 26 to 29
    chunk.generate_tree(&noise, 5, 5);
    assert_eq!(chunk.coordinates().len(), 16 * 16 * 30);
    assert_eq!(kind(&chunk, 5, 5, 25), BlockType::Stone);
    for z in 26..30 {
        assert_eq!(kind(&chunk, 5, 5, z), BlockType::TreeLog);
    }
    assert!(chunk.get_block(5, 5, 30).is_none());
    assert_eq!(kind(&chunk, 4, 5, 29), BlockType::Stone);
}

#[test]
fn the_stem_grows_while_the_branch_level_is_low() {
    let noise = NoiseSource::new(1, bare_tree(8));
    let mut chunk = Chunk::new(0, 0);
    chunk.generate_tree(&noise, 5, 5);
    let mut all = chunk.coordinates();
    all.sort();
    let expected: Vec<_> = (1..8).map(|z| (5, 5, z)).collect();
    assert_eq!(all, expected);
}

fn leafy_tree(_: &Simplex, field: NoiseField, x: i64, y: i64, z: i64) -> u32 {
    match field {
        NoiseField::TreeBranch => {
            if (x, y) == (5, 5) && z < 7 {
                0
            } else {
                LEVEL_ONE - 1
            }
        }
        NoiseField::TreeLeaf => 0,
        _ => LEVEL_ONE - 1,
    }
}

#[test]
fn the_canopy_goes_around_the_topmost_block() {
    let noise = NoiseSource::new(1, leafy_tree);
    let mut chunk = Chunk::new(0, 0);
    chunk.generate_tree(&noise, 5, 5);
    // trunk 1 to 4, stem 5 and 6, canopy around (5, 5, 6)
    for x in 2..9 {
        for y in 2..9 {
            for z in 0..10 {
                let log = (x, y) == (5, 5) && 1 <= z && z <= 6;
                let leaf = !log && in_cluster(x - 5, y - 5, z - 6, 2);
                if log {
                    assert_eq!(kind(&chunk, x, y, z), BlockType::TreeLog);
                } else if leaf {
                    assert_eq!(kind(&chunk, x, y, z), BlockType::TreeLeaf);
                } else {
                    assert!(!chunk.has_block(x, y, z), "at {x} {y} {z}");
                }
            }
        }
    }
    assert_eq!(chunk.coordinates().len(), 6 + 25 - 3);
}

fn branching(probe: (i64, i64, i64)) -> impl Fn(&Simplex, NoiseField, i64, i64, i64) -> u32 {
    move |_: &Simplex, field: NoiseField, x: i64, y: i64, z: i64| match field {
        NoiseField::TreeBranch => {
            if ((x, y) == (5, 5) && z < 7) || (x, y, z) == probe {
                0
            } else {
                LEVEL_ONE - 1
            }
        }
        _ => LEVEL_ONE - 1,
    }
}

fn branches_of(probe: (i64, i64, i64)) -> Vec<(i32, i32, i32)> {
    let noise = NoiseSource::new(1, branching(probe));
    let mut chunk = Chunk::new(0, 0);
    chunk.generate_tree(&noise, 5, 5);
    let mut all = chunk.coordinates();
    all.retain(|&(x, y, _)| (x, y) != (5, 5));
    for &(x, y, z) in &all {
        assert_eq!(kind(&chunk, x, y, z), BlockType::TreeLog);
    }
    all
}

#[test]
fn a_low_branch_level_beside_the_stem_gives_a_branch() {
    // every neighbour is decided by the level at its own place
    assert_eq!(branches_of((5, 4, 5)), vec![(5, 4, 5)]);
    assert_eq!(branches_of((5, 6, 6)), vec![(5, 6, 6)]);
    assert_eq!(branches_of((6, 5, 5)), vec![(6, 5, 5)]);
    assert_eq!(branches_of((4, 5, 6)), vec![(4, 5, 6)]);
    // the trunk and the place above the stem have no branches
    assert_eq!(branches_of((5, 4, 4)), vec![]);
    assert_eq!(branches_of((5, 4, 7)), vec![]);
    // nor have the diagonal neighbours
    assert_eq!(branches_of((4, 4, 5)), vec![]);
}

fn crowded(_: &Simplex, field: NoiseField, x: i64, y: i64, z: i64) -> u32 {
    match field {
        NoiseField::TreeBranch => {
            if z == 5 && (x - 5).abs() + (y - 5).abs() <= 1 {
                0
            } else {
                LEVEL_ONE - 1
            }
        }
        NoiseField::TreeLeaf => 0,
        _ => LEVEL_ONE - 1,
    }
}

#[test]
fn branches_grow_in_turn_and_a_later_log_replaces_an_earlier_leaf() {
    let noise = NoiseSource::new(1, crowded);
    let mut chunk = Chunk::new(0, 0);
    chunk.generate_tree(&noise, 5, 5);
    // the stem grows one block, at height 5, with a branch on every side
    for z in 1..6 {
        assert_eq!(kind(&chunk, 5, 5, z), BlockType::TreeLog);
    }
    assert_eq!(kind(&chunk, 4, 5, 5), BlockType::TreeLog);
    assert_eq!(kind(&chunk, 6, 5, 5), BlockType::TreeLog);
    assert_eq!(kind(&chunk, 5, 4, 5), BlockType::TreeLog);
    assert_eq!(kind(&chunk, 5, 6, 5), BlockType::TreeLog);
    // the leaves of the first branch lie where the third branch comes to
    // stand only diagonally, so they stay leaves
    assert_eq!(kind(&chunk, 4, 4, 5), BlockType::TreeLeaf);
    assert_eq!(kind(&chunk, 3, 5, 5), BlockType::TreeLeaf);
    assert_eq!(kind(&chunk, 4, 5, 6), BlockType::TreeLeaf);
    assert_eq!(kind(&chunk, 4, 5, 4), BlockType::TreeLeaf);
    // the canopy around (5, 5, 5)
    assert_eq!(kind(&chunk, 5, 5, 7), BlockType::TreeLeaf);
    assert_eq!(kind(&chunk, 5, 5, 6), BlockType::TreeLeaf);
    assert_eq!(kind(&chunk, 7, 5, 5), BlockType::TreeLeaf);
    assert!(!chunk.has_block(5, 5, 8));
    assert!(!chunk.has_block(8, 5, 5));
}

fn orchard(_: &Simplex, field: NoiseField, x: i64, y: i64, _: i64) -> u32 {
    match field {
        NoiseField::TreeTrunk => match (x, y) {
            (16, 16) => TRUNK_LOW,
            (20, 20) => TRUNK_HIGH - 1,
            (24, 24) => TRUNK_LOW - 1,
            (28, 28) => TRUNK_HIGH,
            _ => 0,
        },
        _ => LEVEL_ONE - 1,
    }
}

#[test]
fn trees_stand_where_the_trunk_level_is_in_its_band() {
    let noise = NoiseSource::new(1, orchard);
    let mut chunk = Chunk::new(1, 1);
    chunk.generate_trees(&noise);
    let mut all = chunk.coordinates();
    all.sort();
    let mut expected = Vec::new();
    for z in 1..5 {
        expected.push((0, 0, z));
    }
    for z in 1..5 {
        expected.push((4, 4, z));
    }
    assert_eq!(all, expected);
}

fn two_trees(_: &Simplex, field: NoiseField, x: i64, y: i64, _: i64) -> u32 {
    match field {
        NoiseField::TreeTrunk => match (x, y) {
            (3, 3) | (3, 4) => TRUNK_LOW,
            _ => 0,
        },
        NoiseField::TreeLeaf => 0,
        _ => LEVEL_ONE - 1,
    }
}

#[test]
fn a_later_tree_grows_into_the_leaves_of_an_earlier_one() {
    let noise = NoiseSource::new(1, two_trees);
    let mut chunk = Chunk::new(0, 0);
    chunk.generate_trees(&noise);
    // the first tree: a trunk from 1 to 4 and a canopy around (3, 3, 4),
    // which reaches the next column from height 3 to height 5
    for z in 1..5 {
        assert_eq!(kind(&chunk, 3, 3, z), BlockType::TreeLog);
    }
    for z in 3..6 {
        assert_eq!(kind(&chunk, 3, 4, z), BlockType::TreeLeaf);
    }
    // the second tree finds the leaf at height 5 as the top of its column
    // and stands on it
    for z in 6..10 {
        assert_eq!(kind(&chunk, 3, 4, z), BlockType::TreeLog);
    }
    assert_eq!(kind(&chunk, 3, 4, 10), BlockType::TreeLeaf);
    assert_eq!(kind(&chunk, 3, 4, 11), BlockType::TreeLeaf);
    assert!(!chunk.has_block(3, 4, 12));
    assert!(!chunk.has_block(3, 4, 2));
}
