//! Blocks: the smallest placeable unit of the world, and the factory that
//! makes one of each kind.

use vstd::prelude::*;

verus! {

/// The kinds of block that generation places.
#[derive(Clone, Copy, Debug, PartialEq, Eq, Structural)]
pub enum BlockType {
    Dirt,
    Grass,
    Sand,
    Snow,
    Stone,
    Coal,
    TreeLog,
    TreeLeaf,
}

impl BlockType {
    /// The index of this kind in the material table.
    pub open spec fn material(self) -> i32 {
        match self {
            BlockType::Dirt => 0,
            BlockType::Grass => 1,
            BlockType::Sand => 2,
            BlockType::Snow => 3,
            BlockType::Stone => 4,
            BlockType::Coal => 5,
            BlockType::TreeLog => 6,
            BlockType::TreeLeaf => 7,
        }
    }

    /// The opacity flag that blocks of this kind carry: set for leaves only.
    pub open spec fn opaque(self) -> bool {
        self == BlockType::TreeLeaf
    }

    /// The name of this kind, as it is written out.
    pub open spec fn label(self) -> Seq<char> {
        match self {
            BlockType::Dirt => "Dirt"@,
            BlockType::Grass => "Grass"@,
            BlockType::Sand => "Sand"@,
            BlockType::Snow => "Snow"@,
            BlockType::Stone => "Stone"@,
            BlockType::Coal => "Coal"@,
            BlockType::TreeLog => "TreeLog"@,
            BlockType::TreeLeaf => "TreeLeaf"@,
        }
    }

    /// The name of this kind.
    pub fn name(&self) -> (name: &'static str)
        ensures
            name@ == self.label(),
    {
        match self {
            BlockType::Dirt => "Dirt",
            BlockType::Grass => "Grass",
            BlockType::Sand => "Sand",
            BlockType::Snow => "Snow",
            BlockType::Stone => "Stone",
            BlockType::Coal => "Coal",
            BlockType::TreeLog => "TreeLog",
            BlockType::TreeLeaf => "TreeLeaf",
        }
    }
}

/// A block: its kind, the material it is drawn with and its opacity flag.
/// Blocks come from [`BlockFactory`] and are never changed afterwards, so the
/// material and the flag are always those of the kind.
#[derive(Clone, Copy, Debug, PartialEq, Eq, Structural)]
pub struct Block {
    block_type: BlockType,
    material_id: i32,
    opaque: bool,
}

impl Block {
    #[verifier::type_invariant]
    spec fn consistent(self) -> bool {
        &&& self.material_id == self.block_type.material()
        &&& self.opaque == self.block_type.opaque()
    }

    /// The block of the given kind.
    pub closed spec fn of(kind: BlockType) -> Block {
        Block { block_type: kind, material_id: kind.material(), opaque: kind.opaque() }
    }

    /// The kind of this block.
    pub closed spec fn kind(self) -> BlockType {
        self.block_type
    }

    /// A block of one kind is of no other kind.
    pub proof fn kind_of(kind: BlockType)
        ensures
            Block::of(kind).kind() == kind,
    {
    }

    /// Two blocks of different kinds differ.
    pub proof fn of_is_injective(a: BlockType, b: BlockType)
        ensures
            Block::of(a) == Block::of(b) <==> a == b,
    {
    }

    pub fn get_block_type(&self) -> (kind: &BlockType)
        ensures
            *kind == self.kind(),
            *self == Block::of(*kind),
    {
        proof {
            use_type_invariant(self);
        }
        &self.block_type
    }

    pub fn get_material_id(&self) -> (id: i32)
        ensures
            id == self.kind().material(),
    {
        proof {
            use_type_invariant(self);
        }
        self.material_id
    }

    pub fn is_opaque(&self) -> (opaque: bool)
        ensures
            opaque == self.kind().opaque(),
    {
        proof {
            use_type_invariant(self);
        }
        self.opaque
    }
}

/// Makes the blocks.
pub struct BlockFactory;

impl BlockFactory {
    pub fn create_dirt() -> (block: Block)
        ensures
            block == Block::of(BlockType::Dirt),
    {
        Block { block_type: BlockType::Dirt, material_id: 0, opaque: false }
    }

    pub fn create_grass() -> (block: Block)
        ensures
            block == Block::of(BlockType::Grass),
    {
        Block { block_type: BlockType::Grass, material_id: 1, opaque: false }
    }

    pub fn create_sand() -> (block: Block)
        ensures
            block == Block::of(BlockType::Sand),
    {
        Block { block_type: BlockType::Sand, material_id: 2, opaque: false }
    }

    pub fn create_snow() -> (block: Block)
        ensures
            block == Block::of(BlockType::Snow),
    {
        Block { block_type: BlockType::Snow, material_id: 3, opaque: false }
    }

    pub fn create_stone() -> (block: Block)
        ensures
            block == Block::of(BlockType::Stone),
    {
        Block { block_type: BlockType::Stone, material_id: 4, opaque: false }
    }

    pub fn create_coal() -> (block: Block)
        ensures
            block == Block::of(BlockType::Coal),
    {
        Block { block_type: BlockType::Coal, material_id: 5, opaque: false }
    }

    pub fn create_tree_log() -> (block: Block)
        ensures
            block == Block::of(BlockType::TreeLog),
    {
        Block { block_type: BlockType::TreeLog, material_id: 6, opaque: false }
    }

    pub fn create_tree_leaf() -> (block: Block)
        ensures
            block == Block::of(BlockType::TreeLeaf),
    {
        Block { block_type: BlockType::TreeLeaf, material_id: 7, opaque: true }
    }
}

} // verus!
