//! Core of a chunked voxel world: a material registry mapping logical
//! material identities to dense numeric IDs, a dense shape-indexed voxel
//! buffer, a sparse map from chunk origins to buffers of one uniform shape,
//! and a heightmap-driven terrain generator.

pub mod buffer;
pub mod heightmap;
pub mod material;
pub mod noise;
pub mod shape;
pub mod voxel;
pub mod voxel_map;
