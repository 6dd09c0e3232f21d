use voxel_core::buffer::VoxelBuffer;
use voxel_core::heightmap::HeightmapBiomeTerrainGenerator;
use voxel_core::material::Rock;
use voxel_core::noise::NoiseMap;
use voxel_core::shape::UVec3;
use voxel_core::voxel::{chunk_shape, Voxel, CHUNK_LENGTH};
use voxel_core::voxel_map::{IVec3, VoxelMapKey};

fn key(x: i32, y: i32, z: i32) -> VoxelMapKey {
    VoxelMapKey::from_ivec3(IVec3::new(x, y, z))
}

fn flat_noise(sample: i32) -> NoiseMap {
    let n = (CHUNK_LENGTH * CHUNK_LENGTH) as usize;
    NoiseMap::new(CHUNK_LENGTH, CHUNK_LENGTH, vec![sample; n])
}

#[test]
fn noise_map_is_row_major() {
    let m = NoiseMap::new(2, 2, vec![1, 2, 3, 4]);
    assert_eq!(m.width(), 2);
    assert_eq!(m.depth(), 2);
    assert_eq!(m.sample_at(0, 0), 1);
    assert_eq!(m.sample_at(1, 0), 2);
    assert_eq!(m.sample_at(0, 1), 3);
    assert_eq!(m.sample_at(1, 1), 4);
}

#[test]
fn scale_func_applies_base_amplitude_and_clamp() {
    let floor = key(0, 0, 0);
    // base 64, amplitude contribution 0, origin 0: clamped to the chunk edge.
    assert_eq!(HeightmapBiomeTerrainGenerator::heightmap_scale_func(0, floor), 32);
    // one chunk above the floor: 64 - 32 = 32, the full column.
    assert_eq!(HeightmapBiomeTerrainGenerator::heightmap_scale_func(0, key(0, 32, 0)), 32);
    // two chunks up: 64 - 64 = 0 plus the sample's contribution.
    assert_eq!(HeightmapBiomeTerrainGenerator::heightmap_scale_func(0, key(0, 64, 0)), 0);
    assert_eq!(HeightmapBiomeTerrainGenerator::heightmap_scale_func(1000, key(0, 64, 0)), 3);
    assert_eq!(HeightmapBiomeTerrainGenerator::heightmap_scale_func(5000, key(0, 64, 0)), 15);
    // rounding is to nearest, ties away from zero: 3 * 0.167 rounds to 1.
    assert_eq!(HeightmapBiomeTerrainGenerator::heightmap_scale_func(167, key(0, 64, 0)), 1);
    assert_eq!(HeightmapBiomeTerrainGenerator::heightmap_scale_func(166, key(0, 64, 0)), 0);
    // negative contributions clamp at zero from below.
    assert_eq!(HeightmapBiomeTerrainGenerator::heightmap_scale_func(-12000, key(0, 0, 0)), 28);
    assert_eq!(HeightmapBiomeTerrainGenerator::heightmap_scale_func(-999000, key(0, 0, 0)), 0);
}

#[test]
fn biome_ordinal_is_exposed() {
    let gen = HeightmapBiomeTerrainGenerator::new(Voxel(2), 1500);
    assert_eq!(gen.biome_temp_humidity(), 1500);
    assert_eq!(gen.voxel, Voxel(2));
}

#[test]
fn floor_chunk_column_is_filled_with_bedrock_bottom() {
    let gen = HeightmapBiomeTerrainGenerator::new(Voxel(2), 0);
    let mut buf = VoxelBuffer::new_default(chunk_shape());
    gen.generate_terrain(key(0, 0, 0), &flat_noise(0), &mut buf);
    // computed height = clamp(64 + 0 - 0, 0, 32) = 32: the whole column,
    // except y = 0 which the bottom-border rule overwrites with Rock.
    assert_eq!(*buf.voxel_at(UVec3::new(0, 0, 0)), Voxel(Rock::ID));
    for y in 1..CHUNK_LENGTH {
        assert_eq!(*buf.voxel_at(UVec3::new(0, y, 0)), Voxel(2), "column cell y={y}");
    }
    // the bottom layer is bedrock across the whole footprint.
    for x in 0..CHUNK_LENGTH {
        for z in 0..CHUNK_LENGTH {
            assert_eq!(*buf.voxel_at(UVec3::new(x, 0, z)), Voxel(Rock::ID));
        }
    }
}

#[test]
fn stacked_chunk_keeps_terrain_continuous() {
    let gen = HeightmapBiomeTerrainGenerator::new(Voxel(2), 0);
    let mut buf = VoxelBuffer::new_default(chunk_shape());
    gen.generate_terrain(key(0, 32, 0), &flat_noise(0), &mut buf);
    // computed height = clamp(64 - 32, 0, 32) = 32: the full column, and no
    // bedrock since this chunk does not sit on the world floor.
    for y in 0..CHUNK_LENGTH {
        assert_eq!(*buf.voxel_at(UVec3::new(0, y, 0)), Voxel(2), "column cell y={y}");
    }
}

#[test]
fn chunk_above_terrain_stays_void() {
    let gen = HeightmapBiomeTerrainGenerator::new(Voxel(2), 0);
    let mut buf = VoxelBuffer::new_default(chunk_shape());
    gen.generate_terrain(key(0, 96, 0), &flat_noise(0), &mut buf);
    for y in 0..CHUNK_LENGTH {
        assert_eq!(*buf.voxel_at(UVec3::new(5, y, 7)), Voxel(0));
    }
}

#[test]
fn partial_column_leaves_cells_above_height_untouched() {
    let gen = HeightmapBiomeTerrainGenerator::new(Voxel(3), 0);
    let mut buf = VoxelBuffer::new_default(chunk_shape());
    // height = clamp(64 + 3 - 48, 0, 32) = 19.
    gen.generate_terrain(key(0, 48, 0), &flat_noise(1000), &mut buf);
    for y in 0..19 {
        assert_eq!(*buf.voxel_at(UVec3::new(4, y, 9)), Voxel(3));
    }
    for y in 19..CHUNK_LENGTH {
        assert_eq!(*buf.voxel_at(UVec3::new(4, y, 9)), Voxel(0));
    }
}

#[test]
fn regeneration_is_deterministic() {
    let gen = HeightmapBiomeTerrainGenerator::new(Voxel(2), 0);
    let noise = flat_noise(700);
    let k = key(0, 0, 0);
    let mut first = VoxelBuffer::new_default(chunk_shape());
    let mut second = VoxelBuffer::new_default(chunk_shape());
    gen.generate_terrain(k, &noise, &mut first);
    gen.generate_terrain(k, &noise, &mut second);
    for x in 0..CHUNK_LENGTH {
        for y in 0..CHUNK_LENGTH {
            for z in 0..CHUNK_LENGTH {
                let p = UVec3::new(x, y, z);
                assert_eq!(*first.voxel_at(p), *second.voxel_at(p));
            }
        }
    }
}
