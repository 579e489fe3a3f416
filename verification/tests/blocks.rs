use mycraft::block::{Block, BlockFactory, BlockType};

fn check(block: Block, kind: BlockType, material: i32, opaque: bool, name: &str) {
    assert_eq!(*block.get_block_type(), kind);
    assert_eq!(block.get_material_id(), material);
    assert_eq!(block.is_opaque(), opaque);
    assert_eq!(block.get_block_type().name(), name);
}

#[test]
fn factory_makes_dirt() {
    check(BlockFactory::create_dirt(), BlockType::Dirt, 0, false, "Dirt");
}

#[test]
fn factory_makes_grass() {
    check(BlockFactory::create_grass(), BlockType::Grass, 1, false, "Grass");
}

#[test]
fn factory_makes_sand() {
    check(BlockFactory::create_sand(), BlockType::Sand, 2, false, "Sand");
}

#[test]
fn factory_makes_snow() {
    check(BlockFactory::create_snow(), BlockType::Snow, 3, false, "Snow");
}

#[test]
fn factory_makes_stone() {
    check(BlockFactory::create_stone(), BlockType::Stone, 4, false, "Stone");
}

#[test]
fn factory_makes_coal() {
    check(BlockFactory::create_coal(), BlockType::Coal, 5, false, "Coal");
}

#[test]
fn factory_makes_tree_log() {
    check(BlockFactory::create_tree_log(), BlockType::TreeLog, 6, false, "TreeLog");
}

#[test]
fn factory_makes_tree_leaf() {
    check(BlockFactory::create_tree_leaf(), BlockType::TreeLeaf, 7, true, "TreeLeaf");
}

#[test]
fn blocks_of_one_kind_are_equal() {
    assert_eq!(BlockFactory::create_stone(), BlockFactory::create_stone());
    assert_ne!(BlockFactory::create_stone(), BlockFactory::create_coal());
}
