//! A dense, fixed-shape array of voxels addressed through a shape's
//! coordinate-to-linear-index mapping.

use crate::shape::{ChunkShape, UVec3};
use crate::voxel::Voxel;
use vstd::prelude::*;

verus! {

/// Owns a contiguous store of voxels sized exactly to one [`ChunkShape`].
///
/// The view of a buffer is the sequence of its cells in linear-offset order;
/// cell `(x, y, z)` lives at offset `shape.spec_linearize(x, y, z)`.
pub struct VoxelBuffer {
    data: Vec<Voxel>,
    shape: ChunkShape,
}

impl View for VoxelBuffer {
    type V = Seq<Voxel>;

    closed spec fn view(&self) -> Seq<Voxel> {
        self.data@
    }
}

impl VoxelBuffer {
    /// The shape this buffer was allocated for.
    pub closed spec fn spec_shape(self) -> ChunkShape {
        self.shape
    }

    /// A buffer is well formed when its shape is and its cell count equals
    /// the shape's volume.
    pub open spec fn wf(self) -> bool {
        self.spec_shape().wf() && self@.len() == self.spec_shape().spec_volume()
    }

    /// The linear offset backing coordinate `p` of this buffer.
    pub open spec fn spec_index_of(self, p: UVec3) -> int {
        self.spec_shape().spec_linearize(p.x as int, p.y as int, p.z as int)
    }

    /// Allocates a buffer of the given shape with every cell set to `value`.
    pub fn new_filled(shape: ChunkShape, value: Voxel) -> (r: Self)
        requires
            shape.wf(),
        ensures
            r.wf(),
            r.spec_shape() == shape,
            r@.len() == shape.spec_volume(),
            forall|j: int| 0 <= j < r@.len() ==> r@[j] == value,
    {
        let n = shape.volume();
        let mut data: Vec<Voxel> = Vec::new();
        let mut i: u32 = 0;
        while i < n
            invariant
                i <= n,
                data@.len() == i,
                forall|j: int| 0 <= j < i ==> data@[j] == value,
            decreases n - i,
        {
            data.push(value);
            i = i + 1;
        }
        VoxelBuffer { data, shape }
    }

    /// Allocates a buffer of the given shape with every cell set to the
    /// default voxel, material ID 0 (Void).
    pub fn new_default(shape: ChunkShape) -> (r: Self)
        requires
            shape.wf(),
        ensures
            r.wf(),
            r.spec_shape() == shape,
            r@.len() == shape.spec_volume(),
            forall|j: int| 0 <= j < r@.len() ==> r@[j] == (Voxel(0u8)),
    {
        Self::new_filled(shape, Voxel::default())
    }

    /// Wraps externally supplied cells; the cell count must equal the
    /// shape's volume.
    pub fn from_existing(shape: ChunkShape, data: Vec<Voxel>) -> (r: Self)
        requires
            shape.wf(),
            data@.len() == shape.spec_volume(),
        ensures
            r.wf(),
            r.spec_shape() == shape,
            r@ == data@,
    {
        VoxelBuffer { data, shape }
    }

    /// The buffer's shape, for compatibility checks.
    pub fn shape(&self) -> (r: ChunkShape)
        ensures
            r == self.spec_shape(),
    {
        self.shape
    }

    /// Reads the cell at an in-bounds coordinate.
    pub fn voxel_at(&self, pos: UVec3) -> (r: &Voxel)
        requires
            self.wf(),
            self.spec_shape().spec_in_bounds(pos),
        ensures
            *r == self@[self.spec_index_of(pos)],
    {
        let idx = self.shape.linearize(pos);
        &self.data[idx as usize]
    }

    /// Borrows the cell at an in-bounds coordinate for writing.  The final
    /// buffer equals the old one with that one cell replaced by whatever the
    /// caller leaves behind the returned reference.
    pub fn voxel_at_mut(&mut self, pos: UVec3) -> (r: &mut Voxel)
        requires
            old(self).wf(),
            old(self).spec_shape().spec_in_bounds(pos),
        ensures
            *r == old(self)@[old(self).spec_index_of(pos)],
            final(self)@ == old(self)@.update(old(self).spec_index_of(pos), *final(r)),
            final(self).spec_shape() == old(self).spec_shape(),
            final(self).wf(),
    {
        let idx = self.shape.linearize(pos);
        &mut self.data[idx as usize]
    }
}

} // verus!
