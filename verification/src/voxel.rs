//! The voxel payload type: one byte naming a material in the registry.

use crate::shape::ChunkShape;
use vstd::prelude::*;

verus! {

/// Edge length, in voxels, of one cubic chunk.
pub const CHUNK_LENGTH: u32 = 32;

/// The shape of every chunk of the world: a cube of edge
/// [`CHUNK_LENGTH`].
pub open spec fn spec_chunk_shape() -> ChunkShape {
    ChunkShape { x: CHUNK_LENGTH, y: CHUNK_LENGTH, z: CHUNK_LENGTH }
}

/// The shape of every chunk of the world.
pub fn chunk_shape() -> (r: ChunkShape)
    ensures
        r == spec_chunk_shape(),
        r.wf(),
{
    proof {
        assert(32 * 32 * 32 <= u32::MAX) by (nonlinear_arith);
    }
    ChunkShape { x: CHUNK_LENGTH, y: CHUNK_LENGTH, z: CHUNK_LENGTH }
}

/// One unit cell of world volume, represented purely by the dense ID of its
/// material in the material registry.
#[derive(Clone, Copy, PartialEq, Eq, Structural, Debug, Hash)]
pub struct Voxel(pub u8);

impl Default for Voxel {
    /// The default voxel carries material ID 0, the built-in Void material.
    fn default() -> (r: Self)
        ensures
            r == (Voxel(0u8)),
    {
        Voxel(0)
    }
}

} // verus!
