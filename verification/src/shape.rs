//! Chunk shapes and the coordinate-to-linear-index mapping.
//!
//! A [`ChunkShape`] fixes the three dimensions of a dense voxel buffer.  The
//! indexing function [`ChunkShape::linearize`] maps every in-bounds 3D
//! coordinate to a unique linear offset below the shape's volume; it is a
//! bijection onto `0..volume`, which the lemmas at the bottom of this module
//! prove.

use vstd::arithmetic::div_mod::{
    lemma_div_pos_is_pos, lemma_fundamental_div_mod, lemma_fundamental_div_mod_converse_div,
    lemma_fundamental_div_mod_converse_mod, lemma_mod_bound, lemma_multiply_divide_lt,
};
use vstd::prelude::*;

verus! {

/// An unsigned 3D coordinate, addressing one cell inside a buffer.
#[derive(Clone, Copy, PartialEq, Eq, Structural, Debug, Hash)]
pub struct UVec3 {
    pub x: u32,
    pub y: u32,
    pub z: u32,
}

impl UVec3 {
    pub fn new(x: u32, y: u32, z: u32) -> (r: Self)
        ensures
            r == (UVec3 { x, y, z }),
    {
        UVec3 { x, y, z }
    }
}

/// The three dimensions of a dense voxel buffer: width, height and depth.
///
/// Two buffers are compatible only if their shapes are structurally equal.
#[derive(Clone, Copy, PartialEq, Eq, Structural, Debug, Hash)]
pub struct ChunkShape {
    pub x: u32,
    pub y: u32,
    pub z: u32,
}

impl ChunkShape {
    /// Number of cells a buffer of this shape holds.
    pub open spec fn spec_volume(self) -> int {
        self.x * self.y * self.z
    }

    /// A shape is well formed when its volume fits the linear index type.
    pub open spec fn wf(self) -> bool {
        self.spec_volume() <= u32::MAX
    }

    /// Whether `p` lies strictly inside the shape on every axis.
    pub open spec fn spec_in_bounds(self, p: UVec3) -> bool {
        p.x < self.x && p.y < self.y && p.z < self.z
    }

    /// The linear offset of coordinate `(x, y, z)`: row-major with `x`
    /// varying fastest, then `y`, then `z`.
    pub open spec fn spec_linearize(self, x: int, y: int, z: int) -> int {
        x + self.x * (y + self.y * z)
    }

    /// The coordinate stored at linear offset `i`: the inverse of
    /// [`ChunkShape::spec_linearize`].
    pub open spec fn spec_delinearize(self, i: int) -> (int, int, int) {
        (i % (self.x as int), (i / (self.x as int)) % (self.y as int), (i / (self.x as int)) / (self.y as int))
    }

    pub fn new(x: u32, y: u32, z: u32) -> (r: Self)
        ensures
            r == (ChunkShape { x, y, z }),
    {
        ChunkShape { x, y, z }
    }

    /// The number of cells of this shape, the product of its dimensions.
    pub fn volume(&self) -> (r: u32)
        requires
            self.wf(),
        ensures
            r == self.spec_volume(),
    {
        if self.x == 0 || self.y == 0 || self.z == 0 {
            proof {
                assert(self.spec_volume() == 0) by (nonlinear_arith)
                    requires
                        self.x == 0 || self.y == 0 || self.z == 0,
                ;
            }
            0
        } else {
            proof {
                assert(self.x * self.y <= self.x * self.y * self.z) by (nonlinear_arith)
                    requires
                        self.x >= 0,
                        self.y >= 0,
                        self.z >= 1,
                ;
            }
            let xy: u64 = (self.x as u64) * (self.y as u64);
            let v: u64 = xy * (self.z as u64);
            proof {
                assert(v == self.spec_volume()) by (nonlinear_arith)
                    requires
                        xy == self.x * self.y,
                        v == xy * self.z,
                ;
            }
            v as u32
        }
    }

    /// Whether `p` is an in-bounds coordinate for this shape.
    pub fn in_bounds(&self, p: UVec3) -> (r: bool)
        ensures
            r == self.spec_in_bounds(p),
    {
        p.x < self.x && p.y < self.y && p.z < self.z
    }

    /// Maps an in-bounds coordinate to its unique linear offset.
    pub fn linearize(&self, p: UVec3) -> (r: u32)
        requires
            self.wf(),
            self.spec_in_bounds(p),
        ensures
            r == self.spec_linearize(p.x as int, p.y as int, p.z as int),
            r < self.spec_volume(),
    {
        proof {
            self.lemma_linearize_in_range(p.x as int, p.y as int, p.z as int);
            assert(self.y * p.z + p.y < self.y * self.z) by (nonlinear_arith)
                requires
                    0 <= p.y < self.y,
                    0 <= p.z < self.z,
            ;
            assert(self.y * self.z <= self.x * self.y * self.z) by (nonlinear_arith)
                requires
                    self.x >= 1,
                    self.y >= 0,
                    self.z >= 0,
            ;
        }
        (p.x as u64 + (self.x as u64) * (p.y as u64 + (self.y as u64) * (p.z as u64))) as u32
    }

    /// An in-bounds coordinate's offset lies below the volume.
    pub proof fn lemma_linearize_in_range(self, x: int, y: int, z: int)
        requires
            0 <= x < self.x,
            0 <= y < self.y,
            0 <= z < self.z,
        ensures
            0 <= self.spec_linearize(x, y, z) < self.spec_volume(),
    {
        assert(0 <= x + self.x * (y + self.y * z) < self.x * self.y * self.z)
            by (nonlinear_arith)
            requires
                0 <= x < self.x,
                0 <= y < self.y,
                0 <= z < self.z,
        ;
    }

    /// Delinearizing an in-bounds coordinate's offset gives that coordinate
    /// back.  With [`ChunkShape::lemma_linearize_surjective`] this makes the
    /// indexing function a bijection between in-bounds coordinates and
    /// offsets in `0..volume`.
    pub proof fn lemma_delinearize_linearize(self, x: int, y: int, z: int)
        requires
            0 <= x < self.x,
            0 <= y < self.y,
            0 <= z < self.z,
        ensures
            self.spec_delinearize(self.spec_linearize(x, y, z)) == (x, y, z),
    {
        let i = self.spec_linearize(x, y, z);
        assert(i == (y + self.y * z) * self.x + x) by (nonlinear_arith)
            requires
                i == x + self.x * (y + self.y * z),
        ;
        lemma_fundamental_div_mod_converse_mod(i, self.x as int, y + self.y * z, x);
        lemma_fundamental_div_mod_converse_div(i, self.x as int, y + self.y * z, x);
        assert(i / (self.x as int) == z * self.y + y) by (nonlinear_arith)
            requires
                i / (self.x as int) == y + self.y * z,
        ;
        lemma_fundamental_div_mod_converse_mod(i / (self.x as int), self.y as int, z, y);
        lemma_fundamental_div_mod_converse_div(i / (self.x as int), self.y as int, z, y);
    }

    /// Distinct in-bounds coordinates map to distinct linear offsets.
    pub proof fn lemma_linearize_injective(self, a: UVec3, b: UVec3)
        requires
            self.spec_in_bounds(a),
            self.spec_in_bounds(b),
            self.spec_linearize(a.x as int, a.y as int, a.z as int)
                == self.spec_linearize(b.x as int, b.y as int, b.z as int),
        ensures
            a == b,
    {
        self.lemma_delinearize_linearize(a.x as int, a.y as int, a.z as int);
        self.lemma_delinearize_linearize(b.x as int, b.y as int, b.z as int);
    }

    /// Every linear offset below the volume is the image of exactly one
    /// in-bounds coordinate, so iterating all coordinates visits each offset
    /// exactly once.
    pub proof fn lemma_linearize_surjective(self, i: int)
        requires
            0 <= i < self.spec_volume(),
        ensures
            ({
                let (x, y, z) = self.spec_delinearize(i);
                &&& 0 <= x < self.x
                &&& 0 <= y < self.y
                &&& 0 <= z < self.z
                &&& self.spec_linearize(x, y, z) == i
            }),
    {
        assert(self.x > 0 && self.y > 0 && self.z > 0) by (nonlinear_arith)
            requires
                0 <= i < self.x * self.y * self.z,
        ;
        let sx = self.x as int;
        let sy = self.y as int;
        let sz = self.z as int;
        lemma_mod_bound(i, sx);
        lemma_div_pos_is_pos(i, sx);
        lemma_mod_bound(i / sx, sy);
        lemma_div_pos_is_pos(i / sx, sy);
        assert(i < sx * (sy * sz)) by (nonlinear_arith)
            requires
                i < sx * sy * sz,
        ;
        lemma_multiply_divide_lt(i, sx, sy * sz);
        lemma_multiply_divide_lt(i / sx, sy, sz);
        lemma_fundamental_div_mod(i / sx, sy);
        lemma_fundamental_div_mod(i, sx);
        let (x, y, z) = self.spec_delinearize(i);
        assert(x + sx * (y + sy * z) == i) by (nonlinear_arith)
            requires
                i / sx == sy * ((i / sx) / sy) + (i / sx) % sy,
                i == sx * (i / sx) + i % sx,
                x == i % sx,
                y == (i / sx) % sy,
                z == (i / sx) / sy,
        ;
    }
}

} // verus!
