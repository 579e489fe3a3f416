use mycraft::block::{BlockFactory, BlockType};
use mycraft::caves::{cave_height, CAVE_MULTIPLIER, CAVE_THRESHOLD};
use mycraft::chunk::Chunk;
use mycraft::source::{NoiseField, NoiseSource, LEVEL_ONE};
use noise::Simplex;

fn filled(from: i32, to: i32) -> Chunk {
    let mut chunk = Chunk::new(0, 0);
    for x in from..to {
        for y in from..to {
            for z in from..to {
                chunk.set_block(x, y, z, BlockFactory::create_stone());
            }
        }
    }
    chunk
}

fn in_cavity(dx: i32, dy: i32, dz: i32) -> bool {
    -3 <= dz && dz <= 3 && dx * dx + dy * dy <= dz * dz
}

#[test]
fn cave_constants() {
    assert_eq!(CAVE_MULTIPLIER, 3);
    assert_eq!(CAVE_THRESHOLD, LEVEL_ONE / 5);
}

#[test]
fn cave_height_is_the_share_of_fifty_rounded_down() {
    assert_eq!(cave_height(0), 0);
    assert_eq!(cave_height(239), 0);
    assert_eq!(cave_height(240), 1);
    assert_eq!(cave_height(6_000), 25);
    assert_eq!(cave_height(11_759), 48);
    assert_eq!(cave_height(11_760), 49);
    assert_eq!(cave_height(LEVEL_ONE - 1), 49);
    assert_eq!(cave_height(LEVEL_ONE), 50);
}

#[test]
fn a_cavity_is_the_same_above_and_below_its_centre() {
    let mut chunk = filled(-6, 16);
    let before = chunk.coordinates().len();
    chunk.dig_cross_section(5, 5, 5);
    let mut gone = 0;
    for x in -6..16 {
        for y in -6..16 {
            for z in -6..16 {
                let dug = in_cavity(x - 5, y - 5, z - 5);
                assert_eq!(chunk.has_block(x, y, z), !dug, "at {x} {y} {z}");
                if 10 - z < 16 {
                    assert_eq!(chunk.has_block(x, y, 10 - z), !dug, "at {x} {y} {z}, mirrored");
                }
                if dug {
                    gone += 1;
                }
            }
        }
    }
    assert_eq!(gone, 29 + 13 + 5 + 1 + 5 + 13 + 29);
    assert_eq!(chunk.coordinates().len(), before - gone);
}

#[test]
fn the_block_below_the_centre_of_a_cavity_is_dug() {
    let mut chunk = Chunk::new(0, 0);
    chunk.set_block(2, 3, 3, BlockFactory::create_stone());
    chunk.dig_cross_section(2, 3, 4);
    assert!(chunk.coordinates().is_empty());
}

#[test]
fn the_layers_of_a_cavity() {
    let mut chunk = filled(0, 12);
    chunk.dig_cross_section(5, 5, 5);
    // the layer of the centre: the centre alone
    assert!(!chunk.has_block(5, 5, 5));
    assert!(chunk.has_block(4, 5, 5));
    assert!(chunk.has_block(5, 6, 5));
    for (up, down) in [(6, 4), (7, 3), (8, 2)] {
        for z in [up, down] {
            let away = up - 5;
            // on the axes the cavity is as wide as the layer is far
            assert!(!chunk.has_block(5, 5, z));
            assert!(!chunk.has_block(5 - away, 5, z));
            assert!(!chunk.has_block(5, 5 + away, z));
            assert!(chunk.has_block(5 - away - 1, 5, z));
            assert!(chunk.has_block(5, 5 + away + 1, z));
        }
    }
    // one away: a cross
    assert!(chunk.has_block(4, 4, 6));
    assert!(chunk.has_block(4, 4, 4));
    // two away: a disc of radius two
    assert!(!chunk.has_block(4, 4, 7));
    assert!(!chunk.has_block(4, 4, 3));
    assert!(chunk.has_block(3, 4, 7));
    assert!(chunk.has_block(3, 4, 3));
    // three away: a disc of radius three
    assert!(!chunk.has_block(3, 3, 8));
    assert!(!chunk.has_block(3, 3, 2));
    assert!(!chunk.has_block(3, 4, 2));
    assert!(chunk.has_block(2, 4, 8));
    assert!(chunk.has_block(2, 4, 2));
    // nothing further away
    assert!(chunk.has_block(5, 5, 9));
    assert!(chunk.has_block(5, 5, 1));
}

#[test]
fn digging_spares_the_floor_and_what_lies_below() {
    let mut chunk = filled(-4, 5);
    chunk.dig_cross_section(0, 0, -2);
    for x in -4..5 {
        for y in -4..5 {
            for z in -4..5 {
                let dug = z > 0 && in_cavity(x, y, z + 2);
                assert_eq!(chunk.has_block(x, y, z), !dug, "at {x} {y} {z}");
            }
        }
    }
    // only the layer three above the centre lies above the floor
    assert_eq!(chunk.coordinates().len(), 9 * 9 * 9 - 29);
}

#[test]
fn digging_near_the_floor_stops_at_the_floor() {
    let mut chunk = filled(-4, 5);
    chunk.dig_cross_section(0, 0, 2);
    for x in -4..5 {
        for y in -4..5 {
            for z in -4..5 {
                let dug = z > 0 && in_cavity(x, y, z - 2);
                assert_eq!(chunk.has_block(x, y, z), !dug, "at {x} {y} {z}");
            }
        }
    }
    // one layer below the centre is dug; the floor, two below, is spared
    assert!(!chunk.has_block(1, 0, 1));
    assert!(chunk.has_block(0, 0, 0));
    assert!(chunk.has_block(2, 0, 0));
    assert!(chunk.has_block(0, 0, -1));
    assert_eq!(chunk.coordinates().len(), 9 * 9 * 9 - (5 + 1 + 5 + 13));
}

#[test]
fn digging_at_the_floor_keeps_the_centre() {
    let mut chunk = filled(-4, 5);
    chunk.dig_cross_section(0, 0, 0);
    assert!(chunk.has_block(0, 0, 0));
    assert!(chunk.has_block(0, 0, -1));
    assert!(!chunk.has_block(0, 0, 1));
    assert!(!chunk.has_block(1, 0, 1));
    assert_eq!(chunk.coordinates().len(), 9 * 9 * 9 - (5 + 13 + 29));
}

#[test]
fn digging_in_air_changes_nothing() {
    let mut chunk = Chunk::new(0, 0);
    chunk.set_block(0, 0, 9, BlockFactory::create_sand());
    chunk.dig_cross_section(0, 0, 1);
    assert_eq!(chunk.coordinates(), vec![(0, 0, 9)]);
}

#[test]
fn digging_at_the_edge_of_the_world() {
    let mut chunk = Chunk::new(0, 0);
    chunk.set_block(i32::MAX, i32::MAX, i32::MAX, BlockFactory::create_stone());
    chunk.set_block(i32::MAX - 1, i32::MAX, i32::MAX, BlockFactory::create_stone());
    chunk.set_block(i32::MIN, i32::MIN, 3, BlockFactory::create_stone());
    chunk.dig_cross_section(i32::MAX, i32::MAX, i32::MAX - 1);
    assert!(!chunk.has_block(i32::MAX, i32::MAX, i32::MAX));
    assert!(!chunk.has_block(i32::MAX - 1, i32::MAX, i32::MAX));
    chunk.dig_cross_section(i32::MIN, i32::MIN, 3);
    assert!(chunk.coordinates().is_empty());
}

fn one_cave(_: &Simplex, field: NoiseField, x: i64, y: i64, z: i64) -> u32 {
    match field {
        // terrain 30 high, caves may start below 25
        NoiseField::Height => 6_000,
        NoiseField::Cave => {
            if (x, y, z) == (8, 8, 10) || (x, y, z) == (8, 8, 0) || (x, y, z) == (3, 3, 25) {
                CAVE_THRESHOLD - 1
            } else {
                CAVE_THRESHOLD
            }
        }
        _ => LEVEL_ONE - 1,
    }
}

#[test]
fn the_cave_pass_digs_where_the_cave_level_is_low() {
    let noise = NoiseSource::new(1, one_cave);
    let mut chunk = Chunk::new(0, 0);
    chunk.generate_terrain(&noise);
    chunk.generate_caves(&noise);
    for x in 0..16 {
        for y in 0..16 {
            for z in 0..30 {
                let dug = in_cavity(x - 8, y - 8, z - 10);
                assert_eq!(chunk.has_block(x, y, z), !dug, "at {x} {y} {z}");
                if !dug {
                    let block = chunk.get_block(x, y, z).unwrap();
                    assert_eq!(*block.get_block_type(), BlockType::Stone);
                }
            }
        }
    }
    assert_eq!(chunk.coordinates().len(), 16 * 16 * 30 - 95);
}

fn caves_everywhere(_: &Simplex, field: NoiseField, _: i64, _: i64, _: i64) -> u32 {
    match field {
        NoiseField::Height => 6_000,
        _ => 0,
    }
}

#[test]
fn the_cave_pass_never_takes_the_floor() {
    let noise = NoiseSource::new(1, caves_everywhere);
    let mut chunk = Chunk::new(0, 0);
    chunk.generate_terrain(&noise);
    chunk.generate_caves(&noise);
    // the centres lie at heights 1 to 24, and each cavity reaches three
    // layers up and three down
    for x in 0..16 {
        for y in 0..16 {
            assert!(chunk.has_block(x, y, 0));
            for z in 1..28 {
                assert!(!chunk.has_block(x, y, z), "at {x} {y} {z}");
            }
        }
    }
    // the highest centres lie at height 24 and reach up to 27
    for x in 0..16 {
        for y in 0..16 {
            assert!(chunk.has_block(x, y, 28));
            assert!(chunk.has_block(x, y, 29));
        }
    }
    assert_eq!(chunk.coordinates().len(), 16 * 16 * 3);
    for (_, _, z) in chunk.coordinates() {
        assert!(z >= 0);
    }
}

fn column_caves(_: &Simplex, field: NoiseField, x: i64, y: i64, _: i64) -> u32 {
    match field {
        // caves may start below height 2 in the column (4, 4) and nowhere else
        NoiseField::Height => {
            if (x, y) == (4 + 16, 4 - 32) {
                600
            } else {
                0
            }
        }
        _ => 0,
    }
}

#[test]
fn the_cave_reach_is_that_of_the_column() {
    let noise = NoiseSource::new(1, column_caves);
    let mut chunk = Chunk::new(1, -2);
    for x in 0..16 {
        for y in 0..16 {
            for z in 0..6 {
                chunk.set_block(x, y, z, BlockFactory::create_stone());
            }
        }
    }
    chunk.generate_caves(&noise);
    for x in 0..16 {
        for y in 0..16 {
            for z in 0..6 {
                let dug = z > 0 && in_cavity(x - 4, y - 4, z - 1);
                assert_eq!(chunk.has_block(x, y, z), !dug, "at {x} {y} {z}");
            }
        }
    }
}
