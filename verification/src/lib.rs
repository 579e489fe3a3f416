//! Procedural voxel-world generation: seeded noise drives a four-pass chunk
//! generator (terrain, caves, block typing, vegetation) behind a chunk cache.

pub mod biome;
pub mod block;
pub mod caves;
pub mod chunk;
pub mod faces;
pub mod generate;
pub mod provider;
pub mod shape;
pub mod source;
pub mod terrain;
pub mod trees;
pub mod typing;
