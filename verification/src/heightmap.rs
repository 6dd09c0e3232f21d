//! The heightmap-driven biome terrain generation strategy.
//!
//! For every horizontal column of a chunk it derives a terrain height from
//! the noise sample at that column and fills the column with its configured
//! material up to that height, leaving the rest of the buffer untouched.  A
//! chunk whose vertical origin is the world floor additionally gets its
//! whole bottom layer overwritten with Rock, guaranteeing a solid floor
//! independent of noise.

use crate::buffer::VoxelBuffer;
use crate::material::Rock;
use crate::noise::NoiseMap;
use crate::shape::{ChunkShape, UVec3};
use crate::voxel::{spec_chunk_shape, Voxel, CHUNK_LENGTH};
use crate::voxel_map::VoxelMapKey;
use vstd::arithmetic::div_mod::{
    lemma_div_pos_is_pos, lemma_fundamental_div_mod, lemma_mod_bound,
};
use vstd::prelude::*;

verus! {

/// Terrain height before noise, in world coordinates.
pub const DEFAULT_TERRAIN_HEIGHT: i64 = 64;

/// How many height units one whole noise unit adds.
pub const TERRAIN_AMPLITUDE: i64 = 3;

/// One noise unit counted in the fixed-point thousandths of a
/// [`NoiseMap`] sample.
pub const NOISE_UNIT: i64 = 1000;

/// The amplitude contribution of a noise sample of `s` thousandths: the
/// integer nearest to three thousandths of `s`, ties rounding away from
/// zero.
pub open spec fn spec_scaled_amplitude(s: int) -> int {
    if s >= 0 {
        (3 * s + 500) / 1000
    } else {
        -((3 * (-s) + 500) / 1000)
    }
}

/// The height, counted in voxels above the chunk's vertical origin
/// `origin_y`, up to which a column with noise sample `s` is filled:
/// the world-coordinate height `64 + spec_scaled_amplitude(s)` made
/// origin-relative and clamped to the chunk's vertical extent.
pub open spec fn spec_column_height(s: int, origin_y: int) -> int {
    let h = DEFAULT_TERRAIN_HEIGHT + spec_scaled_amplitude(s) - origin_y;
    if h < 0 {
        0
    } else if h > CHUNK_LENGTH {
        CHUNK_LENGTH as int
    } else {
        h
    }
}

/// The column height of chunk `key` at column `(x, z)` of heightmap `hm`.
pub open spec fn spec_height_at(hm: NoiseMap, key: VoxelMapKey, x: int, z: int) -> int {
    spec_column_height(hm.spec_sample(x, z) as int, key.spec_location().y as int)
}

/// What generation leaves in cell `(x, y, z)` of a chunk at `key`, given
/// the heightmap `hm` and the cell's prior value `pre`: Rock on the bottom
/// layer of a chunk whose vertical origin is the world floor, the
/// generator's material below the column height, and the prior value
/// everywhere else.
pub open spec fn spec_generated_voxel(
    g: HeightmapBiomeTerrainGenerator,
    key: VoxelMapKey,
    hm: NoiseMap,
    pre: Voxel,
    x: int,
    y: int,
    z: int,
) -> Voxel {
    if key.spec_location().y == 0 && y == 0 {
        Voxel(Rock::ID)
    } else if y < spec_height_at(hm, key, x, z) {
        g.voxel
    } else {
        pre
    }
}

/// The buffer state in the middle of generation: columns lexicographically
/// before `(px, pz)` are filled up to their column height, column
/// `(px, pz)` is filled below `ph`, and everything else still holds its
/// prior value.
spec fn spec_partially_generated(
    g: HeightmapBiomeTerrainGenerator,
    key: VoxelMapKey,
    hm: NoiseMap,
    pre: Seq<Voxel>,
    cur: Seq<Voxel>,
    s: ChunkShape,
    px: int,
    pz: int,
    ph: int,
) -> bool {
    &&& cur.len() == pre.len()
    &&& forall|cx: int, cy: int, cz: int|
        0 <= cx < s.x && 0 <= cy < s.y && 0 <= cz < s.z
            ==> #[trigger] cur[s.spec_linearize(cx, cy, cz)] == (if (cx < px || (cx == px && cz
            < pz)) && cy < spec_height_at(hm, key, cx, cz) {
            g.voxel
        } else if cx == px && cz == pz && cy < ph {
            g.voxel
        } else {
            pre[s.spec_linearize(cx, cy, cz)]
        })
}

/// A biome terrain generation strategy characterized by the material it
/// fills columns with and its position on the 1D climate axis.
pub struct HeightmapBiomeTerrainGenerator {
    /// The voxel written into generated columns.
    pub voxel: Voxel,
    /// Position on the climate axis, counted in thousandths, by which an
    /// external biome-selection step picks among competing strategies.
    pub biome_ord: i64,
}

impl HeightmapBiomeTerrainGenerator {
    /// A strategy filling columns with `voxel`, at climate-axis position
    /// `biome_ord` thousandths.
    pub fn new(voxel: Voxel, biome_ord: i64) -> (r: Self)
        ensures
            r == (HeightmapBiomeTerrainGenerator { voxel, biome_ord }),
    {
        HeightmapBiomeTerrainGenerator { voxel, biome_ord }
    }

    /// The strategy's position on the climate axis, a total order an
    /// external biome-selection step compares against a climate target.
    pub fn biome_temp_humidity(&self) -> (r: i64)
        ensures
            r == self.biome_ord,
    {
        self.biome_ord
    }

    /// Derives the origin-relative, clamped column height from a noise
    /// sample of `x` thousandths for the chunk at `chunk_key`.
    pub fn heightmap_scale_func(x: i32, chunk_key: VoxelMapKey) -> (r: u32)
        ensures
            r == spec_column_height(x as int, chunk_key.spec_location().y as int),
            r <= CHUNK_LENGTH,
    {
        let scaled: i64 = if x >= 0 {
            let num: u64 = 3 * (x as u64) + 500;
            let q: u64 = num / 1000;
            proof {
                lemma_fundamental_div_mod(num as int, 1000);
                lemma_mod_bound(num as int, 1000);
                lemma_div_pos_is_pos(num as int, 1000);
            }
            q as i64
        } else {
            let m: u64 = (-(x as i64)) as u64;
            let num: u64 = 3 * m + 500;
            let q: u64 = num / 1000;
            proof {
                lemma_fundamental_div_mod(num as int, 1000);
                lemma_mod_bound(num as int, 1000);
                lemma_div_pos_is_pos(num as int, 1000);
            }
            -(q as i64)
        };
        let h: i64 = DEFAULT_TERRAIN_HEIGHT + scaled - (chunk_key.location().y as i64);
        if h < 0 {
            0
        } else if h > CHUNK_LENGTH as i64 {
            CHUNK_LENGTH
        } else {
            h as u32
        }
    }

    /// Populates one chunk: for every horizontal column of the chunk's
    /// footprint, fills the column with the generator's material up to the
    /// height the heightmap sample gives it, leaves every cell at or above
    /// that height untouched, and, when the chunk's vertical origin is the
    /// world floor, overwrites the whole bottom layer with Rock.
    pub fn generate_terrain(
        &self,
        chunk_key: VoxelMapKey,
        heightmap: &NoiseMap,
        buffer: &mut VoxelBuffer,
    )
        requires
            old(buffer).wf(),
            old(buffer).spec_shape() == spec_chunk_shape(),
            heightmap.wf(),
            heightmap.spec_width() == CHUNK_LENGTH,
            heightmap.spec_depth() == CHUNK_LENGTH,
        ensures
            final(buffer).wf(),
            final(buffer).spec_shape() == old(buffer).spec_shape(),
            final(buffer)@.len() == old(buffer)@.len(),
            forall|cx: int, cy: int, cz: int|
                0 <= cx < CHUNK_LENGTH && 0 <= cy < CHUNK_LENGTH && 0 <= cz < CHUNK_LENGTH
                    ==> #[trigger] final(buffer)@[spec_chunk_shape().spec_linearize(cx, cy, cz)]
                    == spec_generated_voxel(
                    *self,
                    chunk_key,
                    *heightmap,
                    old(buffer)@[spec_chunk_shape().spec_linearize(cx, cy, cz)],
                    cx,
                    cy,
                    cz,
                ),
    {
        let ghost pre = buffer@;
        let ghost s = buffer.spec_shape();
        let mut x: u32 = 0;
        while x < CHUNK_LENGTH
            invariant
                x <= CHUNK_LENGTH,
                buffer.wf(),
                buffer.spec_shape() == s,
                s == spec_chunk_shape(),
                heightmap.wf(),
                heightmap.spec_width() == CHUNK_LENGTH,
                heightmap.spec_depth() == CHUNK_LENGTH,
                spec_partially_generated(
                    *self,
                    chunk_key,
                    *heightmap,
                    pre,
                    buffer@,
                    s,
                    x as int,
                    0,
                    0,
                ),
            decreases CHUNK_LENGTH - x,
        {
            let mut z: u32 = 0;
            while z < CHUNK_LENGTH
                invariant
                    x < CHUNK_LENGTH,
                    z <= CHUNK_LENGTH,
                    buffer.wf(),
                    buffer.spec_shape() == s,
                    s == spec_chunk_shape(),
                    heightmap.wf(),
                    heightmap.spec_width() == CHUNK_LENGTH,
                    heightmap.spec_depth() == CHUNK_LENGTH,
                    spec_partially_generated(
                        *self,
                        chunk_key,
                        *heightmap,
                        pre,
                        buffer@,
                        s,
                        x as int,
                        z as int,
                        0,
                    ),
                decreases CHUNK_LENGTH - z,
            {
                let sample = heightmap.sample_at(x, z);
                let height = Self::heightmap_scale_func(sample, chunk_key);
                let mut h: u32 = 0;
                while h < height
                    invariant
                        x < CHUNK_LENGTH,
                        z < CHUNK_LENGTH,
                        h <= height,
                        height == spec_height_at(*heightmap, chunk_key, x as int, z as int),
                        height <= CHUNK_LENGTH,
                        buffer.wf(),
                        buffer.spec_shape() == s,
                        s == spec_chunk_shape(),
                        spec_partially_generated(
                            *self,
                            chunk_key,
                            *heightmap,
                            pre,
                            buffer@,
                            s,
                            x as int,
                            z as int,
                            h as int,
                        ),
                    decreases height - h,
                {
                    let ghost before = buffer@;
                    let ghost written = s.spec_linearize(x as int, h as int, z as int);
                    *buffer.voxel_at_mut(UVec3 { x, y: h, z }) = self.voxel;
                    proof {
                        assert forall|cx: int, cy: int, cz: int|
                            0 <= cx < s.x && 0 <= cy < s.y && 0 <= cz < s.z implies #[trigger] buffer@[s.spec_linearize(
                            cx,
                            cy,
                            cz,
                        )] == (if (cx < x || (cx == x && cz < z)) && cy < spec_height_at(
                            *heightmap,
                            chunk_key,
                            cx,
                            cz,
                        ) {
                            self.voxel
                        } else if cx == x && cz == z && cy < h + 1 {
                            self.voxel
                        } else {
                            pre[s.spec_linearize(cx, cy, cz)]
                        }) by {
                            assert(buffer@ == before.update(written, self.voxel));
                            s.lemma_linearize_in_range(cx, cy, cz);
                            s.lemma_linearize_in_range(x as int, h as int, z as int);
                            if s.spec_linearize(cx, cy, cz) == written {
                                s.lemma_delinearize_linearize(cx, cy, cz);
                                s.lemma_delinearize_linearize(x as int, h as int, z as int);
                                assert(cx == x && cy == h && cz == z);
                            } else {
                                assert(buffer@[s.spec_linearize(cx, cy, cz)] == before[s.spec_linearize(
                                    cx,
                                    cy,
                                    cz,
                                )]);
                            }
                        }
                    }
                    h = h + 1;
                }
                proof {
                    assert(spec_partially_generated(
                        *self,
                        chunk_key,
                        *heightmap,
                        pre,
                        buffer@,
                        s,
                        x as int,
                        z as int + 1,
                        0,
                    ));
                }
                z = z + 1;
            }
            proof {
                assert(spec_partially_generated(
                    *self,
                    chunk_key,
                    *heightmap,
                    pre,
                    buffer@,
                    s,
                    x as int + 1,
                    0,
                    0,
                ));
            }
            x = x + 1;
        }
        if chunk_key.location().y == 0 {
            let ghost mid = buffer@;
            self.make_world_bottom_border(buffer);
            proof {
                assert forall|cx: int, cy: int, cz: int|
                    0 <= cx < CHUNK_LENGTH && 0 <= cy < CHUNK_LENGTH && 0 <= cz
                        < CHUNK_LENGTH implies #[trigger] buffer@[s.spec_linearize(cx, cy, cz)]
                    == spec_generated_voxel(
                    *self,
                    chunk_key,
                    *heightmap,
                    pre[s.spec_linearize(cx, cy, cz)],
                    cx,
                    cy,
                    cz,
                ) by {
                    assert(mid[s.spec_linearize(cx, cy, cz)] == (if cy < spec_height_at(
                        *heightmap,
                        chunk_key,
                        cx,
                        cz,
                    ) {
                        self.voxel
                    } else {
                        pre[s.spec_linearize(cx, cy, cz)]
                    }));
                }
            }
        }
    }

    /// Overwrites the whole bottom layer (`y == 0`) of the buffer with
    /// Rock, the impenetrable world-floor material; every other cell keeps
    /// its value.
    pub fn make_world_bottom_border(&self, buffer: &mut VoxelBuffer)
        requires
            old(buffer).wf(),
            old(buffer).spec_shape() == spec_chunk_shape(),
        ensures
            final(buffer).wf(),
            final(buffer).spec_shape() == old(buffer).spec_shape(),
            final(buffer)@.len() == old(buffer)@.len(),
            forall|cx: int, cy: int, cz: int|
                0 <= cx < CHUNK_LENGTH && 0 <= cy < CHUNK_LENGTH && 0 <= cz < CHUNK_LENGTH
                    ==> #[trigger] final(buffer)@[spec_chunk_shape().spec_linearize(cx, cy, cz)]
                    == (if cy == 0 {
                    Voxel(Rock::ID)
                } else {
                    old(buffer)@[spec_chunk_shape().spec_linearize(cx, cy, cz)]
                }),
    {
        let ghost pre = buffer@;
        let ghost s = buffer.spec_shape();
        let mut x: u32 = 0;
        while x < CHUNK_LENGTH
            invariant
                x <= CHUNK_LENGTH,
                buffer.wf(),
                buffer.spec_shape() == s,
                s == spec_chunk_shape(),
                buffer@.len() == pre.len(),
                forall|cx: int, cy: int, cz: int|
                    0 <= cx < s.x && 0 <= cy < s.y && 0 <= cz < s.z
                        ==> #[trigger] buffer@[s.spec_linearize(cx, cy, cz)] == (if cy == 0 && cx
                        < x {
                        Voxel(Rock::ID)
                    } else {
                        pre[s.spec_linearize(cx, cy, cz)]
                    }),
            decreases CHUNK_LENGTH - x,
        {
            let mut z: u32 = 0;
            while z < CHUNK_LENGTH
                invariant
                    x < CHUNK_LENGTH,
                    z <= CHUNK_LENGTH,
                    buffer.wf(),
                    buffer.spec_shape() == s,
                    s == spec_chunk_shape(),
                    buffer@.len() == pre.len(),
                    forall|cx: int, cy: int, cz: int|
                        0 <= cx < s.x && 0 <= cy < s.y && 0 <= cz < s.z
                            ==> #[trigger] buffer@[s.spec_linearize(cx, cy, cz)] == (if cy == 0 && (
                        cx < x || (cx == x && cz < z)) {
                            Voxel(Rock::ID)
                        } else {
                            pre[s.spec_linearize(cx, cy, cz)]
                        }),
                decreases CHUNK_LENGTH - z,
            {
                let ghost before = buffer@;
                let pos = UVec3 { x, y: 0, z };
                let ghost written = s.spec_linearize(x as int, 0, z as int);
                *buffer.voxel_at_mut(pos) = Voxel(Rock::ID);
                proof {
                    assert forall|cx: int, cy: int, cz: int|
                        0 <= cx < s.x && 0 <= cy < s.y && 0 <= cz < s.z implies #[trigger] buffer@[s.spec_linearize(
                        cx,
                        cy,
                        cz,
                    )] == (if cy == 0 && (cx < x || (cx == x && cz < z + 1)) {
                        Voxel(Rock::ID)
                    } else {
                        pre[s.spec_linearize(cx, cy, cz)]
                    }) by {
                        assert(buffer@ == before.update(written, Voxel(Rock::ID)));
                        s.lemma_linearize_in_range(cx, cy, cz);
                        s.lemma_linearize_in_range(x as int, 0, z as int);
                        if s.spec_linearize(cx, cy, cz) == written {
                            s.lemma_delinearize_linearize(cx, cy, cz);
                            s.lemma_delinearize_linearize(x as int, 0, z as int);
                            assert(cx == x && cy == 0 && cz == z);
                            assert(buffer@[s.spec_linearize(cx, cy, cz)] == Voxel(Rock::ID));
                        } else {
                            assert(buffer@[s.spec_linearize(cx, cy, cz)] == before[s.spec_linearize(
                                cx,
                                cy,
                                cz,
                            )]);
                            assert(before[s.spec_linearize(cx, cy, cz)] == (if cy == 0 && (cx < x
                                || (cx == x && cz < z)) {
                                Voxel(Rock::ID)
                            } else {
                                pre[s.spec_linearize(cx, cy, cz)]
                            }));
                        }
                    }
                }
                z = z + 1;
            }
            x = x + 1;
        }
    }
}

/// Idempotence of generation: the cells
/// [`HeightmapBiomeTerrainGenerator::generate_terrain`] leaves behind are a
/// function of the generator, the chunk key, the heightmap and the starting
/// cells alone, so regenerating the same chunk key with the same heightmap
/// and a fresh buffer of the same starting contents produces an equal
/// buffer.  The hypotheses below are exactly what that function's contract
/// gives for two runs from equal starting cells `pre`.
pub proof fn lemma_generate_deterministic(
    g: HeightmapBiomeTerrainGenerator,
    key: VoxelMapKey,
    hm: NoiseMap,
    pre: Seq<Voxel>,
    post1: Seq<Voxel>,
    post2: Seq<Voxel>,
)
    requires
        pre.len() == spec_chunk_shape().spec_volume(),
        post1.len() == pre.len(),
        post2.len() == pre.len(),
        forall|cx: int, cy: int, cz: int|
            0 <= cx < CHUNK_LENGTH && 0 <= cy < CHUNK_LENGTH && 0 <= cz < CHUNK_LENGTH
                ==> #[trigger] post1[spec_chunk_shape().spec_linearize(cx, cy, cz)]
                == spec_generated_voxel(
                g,
                key,
                hm,
                pre[spec_chunk_shape().spec_linearize(cx, cy, cz)],
                cx,
                cy,
                cz,
            ),
        forall|cx: int, cy: int, cz: int|
            0 <= cx < CHUNK_LENGTH && 0 <= cy < CHUNK_LENGTH && 0 <= cz < CHUNK_LENGTH
                ==> #[trigger] post2[spec_chunk_shape().spec_linearize(cx, cy, cz)]
                == spec_generated_voxel(
                g,
                key,
                hm,
                pre[spec_chunk_shape().spec_linearize(cx, cy, cz)],
                cx,
                cy,
                cz,
            ),
    ensures
        post1 == post2,
{
    let s = spec_chunk_shape();
    assert forall|i: int| 0 <= i < post1.len() implies post1[i] == post2[i] by {
        s.lemma_linearize_surjective(i);
        let (cx, cy, cz) = s.spec_delinearize(i);
        assert(post1[s.spec_linearize(cx, cy, cz)] == spec_generated_voxel(
            g,
            key,
            hm,
            pre[s.spec_linearize(cx, cy, cz)],
            cx,
            cy,
            cz,
        ));
        assert(post2[s.spec_linearize(cx, cy, cz)] == spec_generated_voxel(
            g,
            key,
            hm,
            pre[s.spec_linearize(cx, cy, cz)],
            cx,
            cy,
            cz,
        ));
    }
    assert(post1 =~= post2);
}

} // verus!
