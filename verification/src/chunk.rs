//! A chunk: one 16 x 16 column of the world, held as a sparse map from block
//! coordinates to blocks. A coordinate without an entry is air.

use crate::block::Block;
use std::collections::HashMap;
use vstd::std_specs::hash::{axiom_spec_keys_iter, spec_keys_iter};
use vstd::std_specs::iter::IteratorSpec;
use vstd::prelude::*;

verus! {

/// The side of a chunk's footprint, in blocks.
pub const CHUNK_SIZE: i32 = 16;

/// The height of the band that terrain fills: no terrain block lies at or
/// above it.
pub const MAX_HEIGHT: i32 = 50;

/// A block coordinate `(x, y, z)`: `x` and `y` are local to the chunk, `z` is
/// the height.
pub type Coord = (int, int, int);

/// The coordinate that the three machine integers of `t` name.
pub open spec fn as_coord(t: (i32, i32, i32)) -> Coord {
    (t.0 as int, t.1 as int, t.2 as int)
}

/// Whether each component of `c` is a coordinate that a chunk can hold.
pub open spec fn in_world(c: Coord) -> bool {
    &&& i32::MIN <= c.0 <= i32::MAX
    &&& i32::MIN <= c.1 <= i32::MAX
    &&& i32::MIN <= c.2 <= i32::MAX
}

/// Whether `v` is a coordinate that a chunk can hold.
pub fn fits(v: i64) -> (ok: bool)
    ensures
        ok == (i32::MIN <= v <= i32::MAX),
{
    -0x8000_0000 <= v && v <= 0x7fff_ffff
}

/// The key under which the block at `c` is stored: the three components,
/// each shifted to be non-negative, as the digits of a number in base 2^32.
spec fn key_of(c: Coord) -> int {
    ((c.0 + 0x8000_0000) * 0x1_0000_0000 + (c.1 + 0x8000_0000)) * 0x1_0000_0000 + (c.2
        + 0x8000_0000)
}

/// The coordinate that is stored under `key`.
spec fn coord_of(key: int) -> Coord {
    (
        key / 0x1_0000_0000 / 0x1_0000_0000 - 0x8000_0000,
        (key / 0x1_0000_0000) % 0x1_0000_0000 - 0x8000_0000,
        key % 0x1_0000_0000 - 0x8000_0000,
    )
}

/// Whether `key` is the key of a coordinate.
spec fn is_key(key: int) -> bool {
    0 <= key < 0x1_0000_0000_0000_0000_0000_0000
}

proof fn key_round_trip(c: Coord)
    requires
        in_world(c),
    ensures
        is_key(key_of(c)),
        coord_of(key_of(c)) == c,
{
}

proof fn coord_round_trip(key: int)
    requires
        is_key(key),
    ensures
        in_world(coord_of(key)),
        key_of(coord_of(key)) == key,
{
}

fn pack(x: i32, y: i32, z: i32) -> (key: u128)
    ensures
        key == key_of((x as int, y as int, z as int)),
        is_key(key as int),
{
    let ux: u128 = (x as i64 + 0x8000_0000) as u128;
    let uy: u128 = (y as i64 + 0x8000_0000) as u128;
    let uz: u128 = (z as i64 + 0x8000_0000) as u128;
    (ux * 0x1_0000_0000 + uy) * 0x1_0000_0000 + uz
}

fn unpack(key: u128) -> (c: (i32, i32, i32))
    requires
        is_key(key as int),
    ensures
        (c.0 as int, c.1 as int, c.2 as int) == coord_of(key as int),
{
    let ux: u128 = key / 0x1_0000_0000 / 0x1_0000_0000;
    let uy: u128 = (key / 0x1_0000_0000) % 0x1_0000_0000;
    let uz: u128 = key % 0x1_0000_0000;
    (
        (ux as i64 - 0x8000_0000) as i32,
        (uy as i64 - 0x8000_0000) as i32,
        (uz as i64 - 0x8000_0000) as i32,
    )
}

/// One chunk of the world.
pub struct Chunk {
    x: i32,
    y: i32,
    chunk_map: HashMap<u128, Block>,
}

impl View for Chunk {
    type V = Map<Coord, Block>;

    /// The blocks of the chunk, by coordinate.
    closed spec fn view(&self) -> Map<Coord, Block> {
        Map::new(
            |c: Coord| in_world(c) && self.chunk_map@.contains_key(key_of(c) as u128),
            |c: Coord| self.chunk_map@[key_of(c) as u128],
        )
    }
}

impl Chunk {
    #[verifier::type_invariant]
    spec fn keys_are_coordinates(self) -> bool {
        forall|key: u128| #[trigger] self.chunk_map@.contains_key(key) ==> is_key(key as int)
    }

    /// The chunk's position on the grid of chunks, along x.
    pub closed spec fn grid_x(&self) -> int {
        self.x as int
    }

    /// The chunk's position on the grid of chunks, along y.
    pub closed spec fn grid_y(&self) -> int {
        self.y as int
    }

    /// Every block of a chunk lies at a coordinate of the world.
    pub proof fn blocks_lie_in_world(&self)
        ensures
            forall|c: Coord| #[trigger] self@.contains_key(c) ==> in_world(c),
    {
    }

    /// A chunk at grid position `(x, y)` with no block in it.
    pub fn new(x: i32, y: i32) -> (chunk: Chunk)
        ensures
            chunk@ == Map::<Coord, Block>::empty(),
            chunk.grid_x() == x,
            chunk.grid_y() == y,
    {
        let chunk = Chunk { x, y, chunk_map: HashMap::new() };
        assert(chunk@ =~= Map::<Coord, Block>::empty());
        chunk
    }

    pub fn x(&self) -> (x: i32)
        ensures
            x == self.grid_x(),
    {
        self.x
    }

    pub fn y(&self) -> (y: i32)
        ensures
            y == self.grid_y(),
    {
        self.y
    }

    /// The block at `(x, y, z)`, or `None` where there is air.
    pub fn get_block(&self, x: i32, y: i32, z: i32) -> (block: Option<&Block>)
        ensures
            match block {
                Some(b) => self@.contains_key((x as int, y as int, z as int)) && *b == self@[(
                    x as int,
                    y as int,
                    z as int,
                )],
                None => !self@.contains_key((x as int, y as int, z as int)),
            },
    {
        let key = pack(x, y, z);
        self.chunk_map.get(&key)
    }

    /// Whether there is a block at `(x, y, z)`.
    pub fn has_block(&self, x: i32, y: i32, z: i32) -> (found: bool)
        ensures
            found == self@.contains_key((x as int, y as int, z as int)),
    {
        let key = pack(x, y, z);
        self.chunk_map.contains_key(&key)
    }

    /// The coordinates of all blocks of the chunk, each once, in no
    /// particular order.
    pub fn coordinates(&self) -> (all: Vec<(i32, i32, i32)>)
        ensures
            all@.no_duplicates(),
            forall|i: int|
                0 <= i < all.len() ==> self@.contains_key(
                    #[trigger] as_coord(all[i]),
                ),
            forall|c: Coord| #[trigger]
                self@.contains_key(c) ==> exists|i: int|
                    0 <= i < all.len() && as_coord(#[trigger] all[i]) == c,
    {
        proof {
            use_type_invariant(self);
            axiom_spec_keys_iter(&self.chunk_map);
        }
        let ghost keys = spec_keys_iter(&self.chunk_map).remaining();
        let mut all: Vec<(i32, i32, i32)> = Vec::new();
        for key in it: self.chunk_map.keys()
            invariant
                forall|key: u128| #[trigger]
                    self.chunk_map@.contains_key(key) ==> is_key(key as int),
                it.seq() == keys,
                keys.unref().to_set() == self.chunk_map@.dom(),
                all.len() == it.index(),
                forall|i: int|
                    0 <= i < all.len() ==> key_of(#[trigger] as_coord(all[i])) == *keys[i],
        {
            proof {
                assert(keys.unref()[it.index()] == *key);
                assert(keys.unref().to_set().contains(*key));
                coord_round_trip(*key as int);
            }
            let c = unpack(*key);
            all.push(c);
        }
        proof {
            assert forall|i: int, j: int|
                0 <= i < all.len() && 0 <= j < all.len() && i != j implies all[i] != all[j] by {
                assert(keys[i] != keys[j]);
                assert(key_of(as_coord(all[i])) != key_of(as_coord(all[j])));
            }
            assert forall|i: int| 0 <= i < all.len() implies self@.contains_key(
                #[trigger] as_coord(all[i]),
            ) by {
                assert(keys.unref()[i] == *keys[i]);
                assert(keys.unref().to_set().contains(*keys[i]));
            }
            assert forall|c: Coord| #[trigger] self@.contains_key(c) implies exists|i: int|
                0 <= i < all.len() && as_coord(#[trigger] all[i]) == c by {
                let key = key_of(c) as u128;
                assert(keys.unref().to_set().contains(key));
                let i = choose|i: int| 0 <= i < keys.unref().len() && keys.unref()[i] == key;
                key_round_trip(c);
                key_round_trip(as_coord(all[i]));
                assert(as_coord(all[i]) == c);
            }
        }
        all
    }

    /// Puts `block` at `(x, y, z)`, in place of what was there.
    pub fn set_block(&mut self, x: i32, y: i32, z: i32, block: Block)
        ensures
            final(self)@ == old(self)@.insert((x as int, y as int, z as int), block),
            final(self).grid_x() == old(self).grid_x(),
            final(self).grid_y() == old(self).grid_y(),
    {
        proof {
            use_type_invariant(&*self);
        }
        let key = pack(x, y, z);
        let mut blocks: HashMap<u128, Block> = HashMap::new();
        std::mem::swap(&mut self.chunk_map, &mut blocks);
        blocks.insert(key, block);
        std::mem::swap(&mut self.chunk_map, &mut blocks);
        proof {
            let c = (x as int, y as int, z as int);
            assert forall|d: Coord| in_world(d) && d != c implies key_of(d) != key_of(c) by {
                key_round_trip(d);
                key_round_trip(c);
            }
            assert(self@ =~= old(self)@.insert(c, block));
        }
    }

    /// Leaves air at `(x, y, z)`.
    pub fn remove_block(&mut self, x: i32, y: i32, z: i32)
        ensures
            final(self)@ == old(self)@.remove((x as int, y as int, z as int)),
            final(self).grid_x() == old(self).grid_x(),
            final(self).grid_y() == old(self).grid_y(),
    {
        proof {
            use_type_invariant(&*self);
        }
        let key = pack(x, y, z);
        let mut blocks: HashMap<u128, Block> = HashMap::new();
        std::mem::swap(&mut self.chunk_map, &mut blocks);
        blocks.remove(&key);
        std::mem::swap(&mut self.chunk_map, &mut blocks);
        proof {
            let c = (x as int, y as int, z as int);
            assert forall|d: Coord| in_world(d) && d != c implies key_of(d) != key_of(c) by {
                key_round_trip(d);
                key_round_trip(c);
            }
            assert(self@ =~= old(self)@.remove(c));
        }
    }
}

} // verus!
