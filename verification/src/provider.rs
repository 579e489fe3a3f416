//! The chunk provider: a cache of generated chunks by grid position. A chunk
//! is generated when it is first asked for and stays until it is unloaded.

use crate::block::Block;
use crate::chunk::{Chunk, Coord};
use crate::generate::generated;
use crate::source::{level_of, seeded_simplex, steady, Levels, NoiseField, NoiseSource};
use noise::Simplex;
use std::collections::HashMap;
use vstd::prelude::*;

verus! {

/// A position on the grid of chunks.
pub type GridPos = (int, int);

/// The loaded chunks of a provider: the blocks of each, by grid position.
pub type Loaded = Map<GridPos, Map<Coord, Block>>;

/// Whether `g` is a grid position that a provider can hold.
pub open spec fn in_grid(g: GridPos) -> bool {
    i32::MIN <= g.0 <= i32::MAX && i32::MIN <= g.1 <= i32::MAX
}

/// Whether every chunk of `loaded` is the one that generation gives for its
/// position.
pub open spec fn holds_generations(loaded: Loaded, levels: Levels) -> bool {
    forall|g: GridPos| #[trigger]
        loaded.contains_key(g) ==> loaded[g] == generated(levels, g.0, g.1)
}

/// The loaded chunks after the chunk at `g` was asked for: as before if it
/// was loaded, and with the generated chunk added if it was not.
pub open spec fn after_get(loaded: Loaded, levels: Levels, g: GridPos) -> Loaded {
    if loaded.contains_key(g) {
        loaded
    } else {
        loaded.insert(g, generated(levels, g.0, g.1))
    }
}

/// Asking for a chunk a second time changes nothing and gives the same
/// chunk.
pub proof fn get_is_idempotent(loaded: Loaded, levels: Levels, g: GridPos)
    ensures
        after_get(after_get(loaded, levels, g), levels, g) == after_get(loaded, levels, g),
{
}

/// A chunk that is unloaded and asked for again is the chunk that it was.
pub proof fn reload_gives_the_same_chunk(loaded: Loaded, levels: Levels, g: GridPos)
    requires
        holds_generations(loaded, levels),
    ensures
        after_get(after_get(loaded, levels, g).remove(g), levels, g)[g] == after_get(
            loaded,
            levels,
            g,
        )[g],
        after_get(loaded.remove(g), levels, g)[g] == generated(levels, g.0, g.1),
{
}

/// The key under which the chunk at `g` is stored: the two components, each
/// shifted to be non-negative, as the digits of a number in base 2^32.
spec fn key_of(g: GridPos) -> int {
    (g.0 + 0x8000_0000) * 0x1_0000_0000 + (g.1 + 0x8000_0000)
}

/// The grid position that is stored under `key`.
spec fn pos_of(key: int) -> GridPos {
    (key / 0x1_0000_0000 - 0x8000_0000, key % 0x1_0000_0000 - 0x8000_0000)
}

proof fn key_round_trip(g: GridPos)
    requires
        in_grid(g),
    ensures
        0 <= key_of(g) <= u64::MAX,
        pos_of(key_of(g)) == g,
{
}

fn pack(x: i32, y: i32) -> (key: u64)
    ensures
        key == key_of((x as int, y as int)),
{
    let ux: u64 = (x as i64 + 0x8000_0000) as u64;
    let uy: u64 = (y as i64 + 0x8000_0000) as u64;
    ux * 0x1_0000_0000 + uy
}

/// Generated chunks by grid position, and the noise source that they are
/// generated from.
pub struct ChunkProvider<R: Fn(&Simplex, NoiseField, i64, i64, i64) -> u32> {
    noise: NoiseSource<R>,
    loaded_chunks: HashMap<u64, Chunk>,
}

impl<R: Fn(&Simplex, NoiseField, i64, i64, i64) -> u32> View for ChunkProvider<R> {
    type V = Loaded;

    /// The loaded chunks, by grid position.
    closed spec fn view(&self) -> Loaded {
        Map::new(
            |g: GridPos| in_grid(g) && self.loaded_chunks@.contains_key(key_of(g) as u64),
            |g: GridPos| self.loaded_chunks@[key_of(g) as u64]@,
        )
    }
}

impl<R: Fn(&Simplex, NoiseField, i64, i64, i64) -> u32> ChunkProvider<R> {
    #[verifier::type_invariant]
    spec fn chunks_are_generated(self) -> bool {
        forall|key: u64| #[trigger]
            self.loaded_chunks@.contains_key(key) ==> {
                let g = pos_of(key as int);
                &&& self.loaded_chunks@[key]@ == generated(self.noise.levels(), g.0, g.1)
                &&& self.loaded_chunks@[key].grid_x() == g.0
                &&& self.loaded_chunks@[key].grid_y() == g.1
            }
    }

    /// The provider's noise source.
    pub closed spec fn source(&self) -> NoiseSource<R> {
        self.noise
    }

    /// The levels of the provider's noise source.
    pub open spec fn levels(&self) -> Levels {
        self.source().levels()
    }

    /// The seed of the provider's noise source.
    pub open spec fn seed_of(&self) -> u32 {
        self.source().seed_of()
    }

    /// Two providers with the same seed and the same reader hold the same
    /// chunk at every grid position at which both hold one.
    pub proof fn same_seed_same_chunks(a: &Self, b: &Self, g: GridPos)
        requires
            a.source().seeded(),
            b.source().seeded(),
            a.seed_of() == b.seed_of(),
            a.source().reader() == b.source().reader(),
            holds_generations(a@, a.levels()),
            holds_generations(b@, b.levels()),
            a@.contains_key(g),
            b@.contains_key(g),
        ensures
            a@[g] == b@[g],
    {
        NoiseSource::same_seed_same_levels(&a.source(), &b.source());
    }

    /// A provider with no chunk loaded, over a noise source that is seeded
    /// with `seed` and read by `reader`.
    pub fn new(seed: u32, reader: R) -> (provider: Self)
        requires
            steady(reader),
        ensures
            provider@ == Loaded::empty(),
            provider.source().seeded(),
            provider.source().reader() == reader,
            provider.seed_of() == seed,
            provider.levels() == (|f: NoiseField, x: int, y: int, z: int|
                level_of(reader, seeded_simplex(seed), f, x, y, z)),
            holds_generations(provider@, provider.levels()),
    {
        let provider = ChunkProvider {
            noise: NoiseSource::new(seed, reader),
            loaded_chunks: HashMap::new(),
        };
        assert(provider@ =~= Loaded::empty());
        provider
    }

    /// A provider with no chunk loaded, over a noise source with seed zero.
    pub fn default(reader: R) -> (provider: Self)
        requires
            steady(reader),
        ensures
            provider@ == Loaded::empty(),
            provider.source().seeded(),
            provider.source().reader() == reader,
            provider.seed_of() == 0,
            provider.levels() == (|f: NoiseField, x: int, y: int, z: int|
                level_of(reader, seeded_simplex(0), f, x, y, z)),
            holds_generations(provider@, provider.levels()),
    {
        Self::new(0, reader)
    }

    /// The seed of the provider's noise source.
    pub fn seed(&self) -> (seed: u32)
        ensures
            seed == self.seed_of(),
            self.source().seeded(),
    {
        self.noise.seed()
    }

    /// The chunk at grid position `(x, y)`. If it is not loaded, it is
    /// generated and kept; if it is, the loaded chunk is returned and nothing
    /// is generated.
    pub fn get_chunk(&mut self, x: i32, y: i32) -> (chunk: &Chunk)
        ensures
            chunk@ == generated(old(self).levels(), x as int, y as int),
            chunk.grid_x() == x,
            chunk.grid_y() == y,
            final(self)@.contains_key((x as int, y as int)),
            final(self)@[(x as int, y as int)] == chunk@,
            old(self)@.contains_key((x as int, y as int)) ==> final(self)@ == old(self)@,
            !old(self)@.contains_key((x as int, y as int)) ==> final(self)@ == old(self)@.insert(
                (x as int, y as int),
                chunk@,
            ),
            final(self)@ == after_get(old(self)@, old(self).levels(), (x as int, y as int)),
            holds_generations(final(self)@, final(self).levels()),
            final(self).source() == old(self).source(),
    {
        proof {
            use_type_invariant(&*self);
        }
        let key = pack(x, y);
        if !self.loaded_chunks.contains_key(&key) {
            let chunk = Chunk::generate(&self.noise, x, y);
            let mut chunks: HashMap<u64, Chunk> = HashMap::new();
            std::mem::swap(&mut self.loaded_chunks, &mut chunks);
            chunks.insert(key, chunk);
            std::mem::swap(&mut self.loaded_chunks, &mut chunks);
        }
        proof {
            let g = (x as int, y as int);
            key_round_trip(g);
            assert forall|h: GridPos| in_grid(h) && h != g implies key_of(h) != key_of(g) by {
                key_round_trip(h);
            }
            assert(self@ =~= after_get(old(self)@, old(self).levels(), g));
            assert forall|h: GridPos| #[trigger] self@.contains_key(h) implies self@[h]
                == generated(self.levels(), h.0, h.1) by {
                key_round_trip(h);
            }
        }
        self.loaded_chunks.get(&key).unwrap()
    }

    /// Unloads the chunk at grid position `(x, y)`, whether it is loaded or
    /// not. When it is next asked for it is generated anew.
    pub fn unload_chunk(&mut self, x: i32, y: i32)
        ensures
            final(self)@ == old(self)@.remove((x as int, y as int)),
            holds_generations(final(self)@, final(self).levels()),
            final(self).source() == old(self).source(),
    {
        proof {
            use_type_invariant(&*self);
        }
        let key = pack(x, y);
        let mut chunks: HashMap<u64, Chunk> = HashMap::new();
        std::mem::swap(&mut self.loaded_chunks, &mut chunks);
        chunks.remove(&key);
        std::mem::swap(&mut self.loaded_chunks, &mut chunks);
        proof {
            let g = (x as int, y as int);
            key_round_trip(g);
            assert forall|h: GridPos| in_grid(h) && h != g implies key_of(h) != key_of(g) by {
                key_round_trip(h);
            }
            assert(self@ =~= old(self)@.remove(g));
            assert forall|h: GridPos| #[trigger] self@.contains_key(h) implies self@[h]
                == generated(self.levels(), h.0, h.1) by {
                key_round_trip(h);
            }
        }
    }
}

} // verus!
