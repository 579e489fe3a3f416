//! Biomes: the climate classes that decide how the surface is skinned.

use vstd::prelude::*;

verus! {

/// The climate class of a column of the world.
#[derive(Clone, Copy, Debug, PartialEq, Eq, Structural)]
pub enum Biome {
    Grass,
    Desert,
    Snow,
}

/// Humidity at or above this level counts as humid: one half.
pub const HUMID: u32 = 6_000;

/// Temperature at or above this level counts as hot: six tenths.
pub const HOT: u32 = 7_200;

/// Temperature below this level counts as freezing: three tenths.
pub const FREEZING: u32 = 3_600;

/// The biome of a place with the given temperature and humidity levels. The
/// rows are tried from the top; the first that matches decides.
pub open spec fn biome_of(temperature: int, humidity: int) -> Biome {
    if humidity < HUMID && temperature >= HOT {
        Biome::Desert
    } else if humidity >= HUMID && FREEZING <= temperature < HOT {
        Biome::Grass
    } else if humidity >= HUMID && temperature < FREEZING {
        Biome::Snow
    } else {
        Biome::Grass
    }
}

/// Classifies a place by its temperature and humidity levels. Every pair of
/// levels has a biome: dry heat is desert, humid frost is snow, and all the
/// rest is grass.
pub fn get_biome_by_params(temperature: u32, humidity: u32) -> (biome: Biome)
    ensures
        biome == biome_of(temperature as int, humidity as int),
        biome == Biome::Desert <==> humidity < HUMID && temperature >= HOT,
        biome == Biome::Snow <==> humidity >= HUMID && temperature < FREEZING,
        biome == Biome::Grass <==> (humidity >= HUMID && temperature >= FREEZING) || (humidity
            < HUMID && temperature < HOT),
{
    if humidity < HUMID && temperature >= HOT {
        Biome::Desert
    } else if humidity >= HUMID && temperature >= FREEZING && temperature < HOT {
        Biome::Grass
    } else if humidity >= HUMID && temperature < FREEZING {
        Biome::Snow
    } else {
        Biome::Grass
    }
}

} // verus!
