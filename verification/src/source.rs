//! The noise source: a seeded simplex generator, read as integer levels.
//!
//! Generation never handles a noise sample itself. It asks for the *level* of
//! one of eight fields at a point of the integer lattice, and a reader that
//! the caller supplies turns the generator's sample for that point into a
//! level: the magnitude of the sample in steps of `1 / LEVEL_ONE`.

use noise::Simplex;
use vstd::prelude::*;

verus! {

/// One full unit of noise, in level steps. Every level is below it. The
/// unit is divided so that each threshold of generation and each step of
/// the heights is a whole number of level steps.
pub const LEVEL_ONE: u32 = 12_000;

/// The independent noise fields that generation samples.
#[derive(Clone, Copy, Debug, PartialEq, Eq, Structural)]
pub enum NoiseField {
    /// The height of the terrain over a column; sampled at `z = 0`.
    Height,
    /// The density that caves are carved from.
    Cave,
    /// The temperature of a column; sampled at `z = 0`.
    Temperature,
    /// The humidity of a column; sampled at `z = 0`.
    Humidity,
    /// The grain that decides skinning and ore, block by block.
    Block,
    /// Where trees stand; sampled at `z = 0`.
    TreeTrunk,
    /// How far a tree grows and where it branches.
    TreeBranch,
    /// Where a leaf cluster has leaves.
    TreeLeaf,
}

/// The levels of all fields over the lattice: what generation reads.
pub type Levels = spec_fn(NoiseField, int, int, int) -> int;

/// The simplex noise generator of the `noise` crate. What is inside it is
/// not looked at here: it is made, kept and handed to the reader.
#[verifier::external_type_specification]
#[verifier::external_body]
pub struct ExSimplex(Simplex);

/// The generator that `Simplex::new` builds from a seed.
pub uninterp spec fn seeded_simplex(seed: u32) -> Simplex;

/// Calls `noise::Simplex::new`. The generator it returns is determined by the
/// seed alone: its permutation table is shuffled by a generator that is seeded
/// from the four bytes of `seed` and from nothing else.
#[verifier::external_body]
fn new_simplex(seed: u32) -> (simplex: Simplex)
    ensures
        simplex == seeded_simplex(seed),
{
    Simplex::new(seed)
}

/// Whether `reader` accepts the question for field `f` at `(x, y, z)`.
pub open spec fn accepts<R: Fn(&Simplex, NoiseField, i64, i64, i64) -> u32>(
    reader: R,
    simplex: Simplex,
    f: NoiseField,
    x: i64,
    y: i64,
    z: i64,
) -> bool {
    call_requires(reader, (&simplex, f, x, y, z))
}

/// Whether `reader`, asked for field `f` at the point `(x, y, z)` of `simplex`,
/// may answer `l`.
pub open spec fn answers<R: Fn(&Simplex, NoiseField, i64, i64, i64) -> u32>(
    reader: R,
    simplex: Simplex,
    f: NoiseField,
    x: i64,
    y: i64,
    z: i64,
    l: u32,
) -> bool {
    call_ensures(reader, (&simplex, f, x, y, z), l)
}

/// Whether `reader` reads `simplex` as a function: it accepts every question,
/// and no question has two answers.
pub open spec fn reads_steadily<R: Fn(&Simplex, NoiseField, i64, i64, i64) -> u32>(
    reader: R,
    simplex: Simplex,
) -> bool {
    &&& forall|f: NoiseField, x: i64, y: i64, z: i64| #[trigger]
        accepts(reader, simplex, f, x, y, z)
    &&& forall|f: NoiseField, x: i64, y: i64, z: i64, a: u32, b: u32|
        #[trigger] answers(reader, simplex, f, x, y, z, a) && #[trigger] answers(
            reader,
            simplex,
            f,
            x,
            y,
            z,
            b,
        ) ==> a == b
}

/// Whether `reader` reads every generator as a function.
pub open spec fn steady<R: Fn(&Simplex, NoiseField, i64, i64, i64) -> u32>(reader: R) -> bool {
    forall|simplex: Simplex| #[trigger] reads_steadily(reader, simplex)
}

/// The level that `reader` gives for field `f` at the point `(x, y, z)`,
/// which is one that `i64` holds: its answer, held below `LEVEL_ONE`.
pub open spec fn level_of<R: Fn(&Simplex, NoiseField, i64, i64, i64) -> u32>(
    reader: R,
    simplex: Simplex,
    f: NoiseField,
    x: int,
    y: int,
    z: int,
) -> int {
    let answer = choose|l: u32| #[trigger]
        answers(reader, simplex, f, x as i64, y as i64, z as i64, l);
    if answer < LEVEL_ONE {
        answer as int
    } else {
        LEVEL_ONE - 1
    }
}

/// A reader that reads steadily gives, where it answers `l`, the level `l`,
/// held below `LEVEL_ONE`.
pub proof fn answer_gives_level<R: Fn(&Simplex, NoiseField, i64, i64, i64) -> u32>(
    reader: R,
    simplex: Simplex,
    f: NoiseField,
    x: i64,
    y: i64,
    z: i64,
    l: u32,
)
    requires
        reads_steadily(reader, simplex),
        answers(reader, simplex, f, x, y, z, l),
    ensures
        level_of(reader, simplex, f, x as int, y as int, z as int) == if l < LEVEL_ONE {
            l as int
        } else {
            LEVEL_ONE - 1
        },
{
}

/// A seeded noise generator together with its reader.
pub struct NoiseSource<R: Fn(&Simplex, NoiseField, i64, i64, i64) -> u32> {
    seed: u32,
    simplex: Simplex,
    reader: R,
}

impl<R: Fn(&Simplex, NoiseField, i64, i64, i64) -> u32> NoiseSource<R> {
    #[verifier::type_invariant]
    spec fn read_steadily(self) -> bool {
        &&& self.simplex == seeded_simplex(self.seed)
        &&& reads_steadily(self.reader, self.simplex)
    }

    /// Whether the generator is the one that its seed gives, as it is in
    /// every source that `new` has built.
    pub closed spec fn seeded(&self) -> bool {
        self.simplex == seeded_simplex(self.seed)
    }

    /// The seed that the generator was built from.
    pub closed spec fn seed_of(&self) -> u32 {
        self.seed
    }

    /// The reader that turns samples into levels.
    pub closed spec fn reader(&self) -> R {
        self.reader
    }

    /// The levels that this source gives.
    pub closed spec fn levels(&self) -> Levels {
        |f: NoiseField, x: int, y: int, z: int| level_of(self.reader, self.simplex, f, x, y, z)
    }

    /// A source seeded with `seed`, read by `reader`. The generator is built
    /// here, once, and never seeded again.
    pub fn new(seed: u32, reader: R) -> (source: Self)
        requires
            steady(reader),
        ensures
            source.seeded(),
            source.seed_of() == seed,
            source.reader() == reader,
            source.levels() == (|f: NoiseField, x: int, y: int, z: int|
                level_of(reader, seeded_simplex(seed), f, x, y, z)),
    {
        NoiseSource { seed, simplex: new_simplex(seed), reader }
    }

    /// The seed that the generator was built from.
    pub fn seed(&self) -> (seed: u32)
        ensures
            seed == self.seed_of(),
            self.seeded(),
    {
        proof {
            use_type_invariant(self);
        }
        self.seed
    }

    /// The level of field `f` at `(x, y, z)`.
    pub fn level(&self, f: NoiseField, x: i64, y: i64, z: i64) -> (l: u32)
        ensures
            l == (self.levels())(f, x as int, y as int, z as int),
            l < LEVEL_ONE,
            exists|answer: u32| #[trigger]
                answers(self.reader(), seeded_simplex(self.seed_of()), f, x, y, z, answer),
    {
        proof {
            use_type_invariant(self);
            assert(accepts(self.reader, self.simplex, f, x, y, z));
        }
        let answer = (self.reader)(&self.simplex, f, x, y, z);
        proof {
            assert(answers(self.reader, self.simplex, f, x, y, z, answer));
            assert(answers(self.reader(), seeded_simplex(self.seed_of()), f, x, y, z, answer));
        }
        if answer < LEVEL_ONE {
            answer
        } else {
            LEVEL_ONE - 1
        }
    }

    /// Every level lies between zero and `LEVEL_ONE`.
    pub proof fn levels_are_bounded(&self, f: NoiseField, x: int, y: int, z: int)
        ensures
            0 <= (self.levels())(f, x, y, z) < LEVEL_ONE,
    {
    }

    /// Two sources with the same seed and the same reader give the same
    /// levels.
    pub proof fn same_seed_same_levels(a: &Self, b: &Self)
        requires
            a.seeded(),
            b.seeded(),
            a.seed_of() == b.seed_of(),
            a.reader() == b.reader(),
        ensures
            a.levels() == b.levels(),
    {
    }
}

} // verus!
