//! What a renderer asks of a chunk: which places are opaque, which faces of
//! a block have an opaque neighbour, and the index of a set of faces.

use crate::block::Block;
use crate::chunk::{as_coord, fits, Chunk, Coord};
use vstd::prelude::*;

verus! {

/// The number of faces of a block.
pub const FACES: usize = 6;

/// The weight of the face `i` in the index of a set of faces: the `i`-th
/// power of two.
pub open spec fn face_weight(i: int) -> int {
    if i == 0 {
        1
    } else if i == 1 {
        2
    } else if i == 2 {
        4
    } else if i == 3 {
        8
    } else if i == 4 {
        16
    } else {
        32
    }
}

/// The index of the faces among the first `n` that are set in `faces`: the
/// sum of their weights.
pub open spec fn face_index(faces: Seq<bool>, n: int) -> int
    decreases n,
{
    if n <= 0 {
        0
    } else {
        face_index(faces, n - 1) + if faces[n - 1] {
            face_weight(n - 1)
        } else {
            0
        }
    }
}

/// Two sets of faces with the same index are the same set.
pub proof fn face_index_is_injective(a: Seq<bool>, b: Seq<bool>)
    requires
        a.len() == FACES,
        b.len() == FACES,
        face_index(a, FACES as int) == face_index(b, FACES as int),
    ensures
        a == b,
{
    reveal_with_fuel(face_index, 7);
    assert(a =~= b);
}

/// The index of a set of faces: bit `i` of it is set where face `i` is.
pub fn bool_array_to_int(array: [bool; 6]) -> (value: u8)
    ensures
        value == face_index(array@, FACES as int),
        value < 64,
{
    let mut value: u8 = 0;
    for i in 0..6usize
        invariant
            value == face_index(array@, i as int),
            value < face_weight(i as int) || i == 6 && value < 64,
    {
        if array[i] {
            let shift: u8 = i as u8;
            let bit: u8 = 1u8 << shift;
            assert(bit == face_weight(i as int) && value | bit == value + bit) by {
                assert(shift < 6 && value < (1u8 << shift) ==> (value | (1u8 << shift)) == value + (
                1u8 << shift)) by (bit_vector);
                assert(shift < 6 ==> (1u8 << shift) == if shift == 0 {
                    1u8
                } else if shift == 1 {
                    2u8
                } else if shift == 2 {
                    4u8
                } else if shift == 3 {
                    8u8
                } else if shift == 4 {
                    16u8
                } else {
                    32u8
                }) by (bit_vector);
            }
            value |= bit;
        }
    }
    value
}

/// Whether an opaque block stands at `c`. Air is not opaque.
pub open spec fn opaque_at(m: Map<Coord, Block>, c: Coord) -> bool {
    m.contains_key(c) && m[c].kind().opaque()
}

/// The place that the face `face` of the block at `c` looks at. The faces
/// are counted in the order `y + 1`, `y - 1`, `z + 1`, `z - 1`, `x + 1`,
/// `x - 1`.
pub open spec fn neighbour(c: Coord, face: int) -> Coord {
    if face == 0 {
        (c.0, c.1 + 1, c.2)
    } else if face == 1 {
        (c.0, c.1 - 1, c.2)
    } else if face == 2 {
        (c.0, c.1, c.2 + 1)
    } else if face == 3 {
        (c.0, c.1, c.2 - 1)
    } else if face == 4 {
        (c.0 + 1, c.1, c.2)
    } else {
        (c.0 - 1, c.1, c.2)
    }
}

/// A block that is drawn: its place, its material, the faces of it that
/// look at an opaque block, and the index of this set of faces.
#[derive(Clone, Copy, Debug, PartialEq, Eq)]
pub struct DrawnBlock {
    pub place: (i32, i32, i32),
    pub material: i32,
    pub faces: [bool; 6],
    pub index: u8,
}

/// Whether the block at `c` is drawn: there is a block, and one of its faces
/// looks at an opaque block.
pub open spec fn is_drawn(m: Map<Coord, Block>, c: Coord) -> bool {
    m.contains_key(c) && exists|face: int|
        0 <= face < FACES && #[trigger] opaque_at(m, neighbour(c, face))
}

/// Whether `drawn` says of a drawn block of `m` what is to be said of it.
pub open spec fn describes(m: Map<Coord, Block>, drawn: DrawnBlock) -> bool {
    let c = as_coord(drawn.place);
    &&& is_drawn(m, c)
    &&& drawn.material == m[c].kind().material()
    &&& forall|face: int|
        0 <= face < FACES ==> drawn.faces[face] == #[trigger] opaque_at(m, neighbour(c, face))
    &&& drawn.index == face_index(drawn.faces@, FACES as int)
}

impl Chunk {
    /// The blocks of the chunk that are drawn, each once, in no particular
    /// order: those with a face that looks at an opaque block.
    pub fn drawn_blocks(&self) -> (drawn: Vec<DrawnBlock>)
        ensures
            forall|i: int| 0 <= i < drawn.len() ==> describes(self@, #[trigger] drawn[i]),
            forall|i: int, j: int|
                0 <= i < j < drawn.len() ==> drawn[i].place != drawn[j].place,
            forall|c: Coord|
                is_drawn(self@, c) ==> exists|i: int|
                    0 <= i < drawn.len() && as_coord(#[trigger] drawn[i].place) == c,
    {
        let all = self.coordinates();
        let mut drawn: Vec<DrawnBlock> = Vec::new();
        let ghost mut picked: Seq<int> = Seq::empty();
        for n in 0..all.len()
            invariant
                all@.no_duplicates(),
                forall|i: int| 0 <= i < all.len() ==> self@.contains_key(
                    #[trigger] as_coord(all[i]),
                ),
                picked.len() == drawn.len(),
                forall|i: int|
                    0 <= i < drawn.len() ==> 0 <= #[trigger] picked[i] < n && drawn[i].place
                        == all[picked[i]],
                forall|i: int, j: int| 0 <= i < j < drawn.len() ==> picked[i] < picked[j],
                forall|i: int| 0 <= i < drawn.len() ==> describes(self@, #[trigger] drawn[i]),
                forall|k: int|
                    0 <= k < n && is_drawn(self@, #[trigger] as_coord(all[k])) ==> exists|i: int|
                        0 <= i < drawn.len() && #[trigger] drawn[i].place == all[k],
        {
            let (x, y, z) = all[n];
            let faces = self.render_faces(x, y, z);
            let ghost c = as_coord(all[n as int]);
            let ghost before = drawn@;
            if faces[0] || faces[1] || faces[2] || faces[3] || faces[4] || faces[5] {
                let material = self.get_block(x, y, z).unwrap().get_material_id();
                let block = DrawnBlock {
                    place: (x, y, z),
                    material,
                    faces,
                    index: bool_array_to_int(faces),
                };
                proof {
                    let face = choose|face: int| 0 <= face < FACES && faces[face];
                    assert(opaque_at(self@, neighbour(c, face)));
                    picked = picked.push(n as int);
                }
                drawn.push(block);
                proof {
                    assert forall|k: int|
                        0 <= k <= n && is_drawn(self@, #[trigger] as_coord(all[k])) implies exists|
                        i: int,
                    | 0 <= i < drawn.len() && #[trigger] drawn[i].place == all[k] by {
                        if k < n {
                            let i = choose|i: int|
                                0 <= i < before.len() && #[trigger] before[i].place == all[k];
                            assert(drawn[i].place == all[k]);
                        } else {
                            assert(drawn[drawn.len() - 1].place == all[k]);
                        }
                    }
                }
            }
        }
        proof {
            assert forall|i: int, j: int| 0 <= i < j < drawn.len() implies drawn[i].place
                != drawn[j].place by {
                assert(all[picked[i]] != all[picked[j]]);
            }
            assert forall|c: Coord| is_drawn(self@, c) implies exists|i: int|
                0 <= i < drawn.len() && as_coord(#[trigger] drawn[i].place) == c by {
                let k = choose|k: int| 0 <= k < all.len() && as_coord(#[trigger] all[k]) == c;
                assert(is_drawn(self@, as_coord(all[k])));
                let i = choose|i: int| 0 <= i < drawn.len() && #[trigger] drawn[i].place == all[k];
                assert(as_coord(drawn[i].place) == c);
            }
        }
        drawn
    }

    /// Whether an opaque block stands at `(x, y, z)`, which may lie just
    /// outside the world.
    fn is_opaque_near(&self, x: i64, y: i64, z: i64) -> (opaque: bool)
        ensures
            opaque == opaque_at(self@, (x as int, y as int, z as int)),
    {
        proof {
            self.blocks_lie_in_world();
        }
        if fits(x) && fits(y) && fits(z) {
            self.is_opaque(x as i32, y as i32, z as i32)
        } else {
            false
        }
    }

    /// For each face of the block at `(x, y, z)`, whether the place that it
    /// looks at holds an opaque block of this chunk.
    pub fn render_faces(&self, x: i32, y: i32, z: i32) -> (faces: [bool; 6])
        ensures
            forall|face: int|
                0 <= face < FACES ==> faces[face] == opaque_at(
                    self@,
                    neighbour((x as int, y as int, z as int), face),
                ),
    {
        let (px, py, pz): (i64, i64, i64) = (x as i64, y as i64, z as i64);
        [
            self.is_opaque_near(px, py + 1, pz),
            self.is_opaque_near(px, py - 1, pz),
            self.is_opaque_near(px, py, pz + 1),
            self.is_opaque_near(px, py, pz - 1),
            self.is_opaque_near(px + 1, py, pz),
            self.is_opaque_near(px - 1, py, pz),
        ]
    }

    /// Whether an opaque block stands at `(x, y, z)`. Air is not opaque.
    pub fn is_opaque(&self, x: i32, y: i32, z: i32) -> (opaque: bool)
        ensures
            opaque == opaque_at(self@, (x as int, y as int, z as int)),
    {
        match self.get_block(x, y, z) {
            Some(block) => block.is_opaque(),
            None => false,
        }
    }
}

} // verus!
