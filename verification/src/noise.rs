//! A precomputed 2D grid of scalar noise samples over a chunk's horizontal
//! footprint.
//!
//! Samples are fixed-point scalars counted in thousandths, so a sample value
//! of 1500 stands for one and a half units of noise amplitude.  The grid is
//! stored row-major with the first coordinate varying fastest.

use vstd::prelude::*;

verus! {

/// A rectangular grid of fixed-point noise samples, addressable by local
/// column coordinate.
pub struct NoiseMap {
    samples: Vec<i32>,
    width: u32,
    depth: u32,
}

impl NoiseMap {
    /// Extent of the grid along its first axis.
    pub closed spec fn spec_width(self) -> u32 {
        self.width
    }

    /// Extent of the grid along its second axis.
    pub closed spec fn spec_depth(self) -> u32 {
        self.depth
    }

    /// The samples in storage order.
    pub closed spec fn spec_samples(self) -> Seq<i32> {
        self.samples@
    }

    /// The grid holds exactly one sample per column.
    pub open spec fn wf(self) -> bool {
        self.spec_samples().len() == self.spec_width() * self.spec_depth()
    }

    /// The sample at column `(x, z)`.
    pub open spec fn spec_sample(self, x: int, z: int) -> i32 {
        self.spec_samples()[x + self.spec_width() * z]
    }

    /// Wraps a grid of samples; there must be exactly one sample per column
    /// of the `width` by `depth` footprint.
    pub fn new(width: u32, depth: u32, samples: Vec<i32>) -> (r: Self)
        requires
            samples@.len() == width * depth,
        ensures
            r.wf(),
            r.spec_width() == width,
            r.spec_depth() == depth,
            r.spec_samples() == samples@,
    {
        NoiseMap { samples, width, depth }
    }

    /// Width of the grid.
    pub fn width(&self) -> (r: u32)
        ensures
            r == self.spec_width(),
    {
        self.width
    }

    /// Depth of the grid.
    pub fn depth(&self) -> (r: u32)
        ensures
            r == self.spec_depth(),
    {
        self.depth
    }

    /// Reads the sample at an in-bounds column.
    pub fn sample_at(&self, x: u32, z: u32) -> (r: i32)
        requires
            self.wf(),
            x < self.spec_width(),
            z < self.spec_depth(),
        ensures
            r == self.spec_sample(x as int, z as int),
    {
        // The sample count is a vector length, so the linear index below
        // fits a usize.
        let n: usize = self.samples.len();
        proof {
            assert(x + self.width * z < self.width * self.depth) by (nonlinear_arith)
                requires
                    0 <= x < self.width,
                    0 <= z < self.depth,
            ;
        }
        let idx: u64 = (x as u64) + (self.width as u64) * (z as u64);
        self.samples[idx as usize]
    }
}

} // verus!
