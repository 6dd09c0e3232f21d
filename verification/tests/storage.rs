use voxel_core::buffer::VoxelBuffer;
use voxel_core::shape::{ChunkShape, UVec3};
use voxel_core::voxel::{chunk_shape, Voxel, CHUNK_LENGTH};
use voxel_core::voxel_map::{IVec3, VoxelMap, VoxelMapKey};

#[test]
fn shape_volume_is_dimension_product() {
    assert_eq!(ChunkShape::new(3, 4, 5).volume(), 60);
    assert_eq!(ChunkShape::new(3, 0, 5).volume(), 0);
    assert_eq!(chunk_shape().volume(), CHUNK_LENGTH * CHUNK_LENGTH * CHUNK_LENGTH);
}

#[test]
fn linearize_visits_each_offset_exactly_once() {
    let shape = ChunkShape::new(3, 4, 5);
    let mut seen = vec![false; 60];
    for x in 0..3u32 {
        for y in 0..4u32 {
            for z in 0..5u32 {
                let i = shape.linearize(UVec3::new(x, y, z)) as usize;
                assert!(i < 60, "offset {i} out of range");
                assert!(!seen[i], "offset {i} hit twice");
                seen[i] = true;
            }
        }
    }
    assert!(seen.iter().all(|&v| v));
}

#[test]
fn buffer_new_filled_and_read_back() {
    let shape = ChunkShape::new(4, 4, 4);
    let buf = VoxelBuffer::new_filled(shape, Voxel(7));
    assert_eq!(buf.shape(), shape);
    assert_eq!(*buf.voxel_at(UVec3::new(3, 2, 1)), Voxel(7));
    let empty = VoxelBuffer::new_default(shape);
    assert_eq!(*empty.voxel_at(UVec3::new(0, 0, 0)), Voxel(0));
}

#[test]
fn buffer_mutation_through_voxel_at_mut() {
    let shape = ChunkShape::new(2, 2, 2);
    let mut buf = VoxelBuffer::new_default(shape);
    *buf.voxel_at_mut(UVec3::new(1, 0, 1)) = Voxel(9);
    assert_eq!(*buf.voxel_at(UVec3::new(1, 0, 1)), Voxel(9));
    assert_eq!(*buf.voxel_at(UVec3::new(1, 1, 1)), Voxel(0));
}

#[test]
fn buffer_from_existing_keeps_cells() {
    let shape = ChunkShape::new(2, 1, 2);
    let data = vec![Voxel(1), Voxel(2), Voxel(3), Voxel(4)];
    let buf = VoxelBuffer::from_existing(shape, data);
    assert_eq!(*buf.voxel_at(UVec3::new(0, 0, 0)), Voxel(1));
    assert_eq!(*buf.voxel_at(UVec3::new(1, 0, 0)), Voxel(2));
    assert_eq!(*buf.voxel_at(UVec3::new(0, 0, 1)), Voxel(3));
    assert_eq!(*buf.voxel_at(UVec3::new(1, 0, 1)), Voxel(4));
}

fn key(x: i32, y: i32, z: i32) -> VoxelMapKey {
    VoxelMapKey::from_ivec3(IVec3::new(x, y, z))
}

#[test]
fn key_reports_its_location() {
    let k = key(1, -2, 3);
    assert_eq!(k.location(), IVec3 { x: 1, y: -2, z: 3 });
    assert_eq!(key(1, -2, 3), k);
    assert_ne!(key(1, 2, 3), k);
}

#[test]
fn map_insert_lookup_remove_round_trip() {
    let shape = ChunkShape::new(4, 4, 4);
    let mut map = VoxelMap::new(shape);
    let k = key(0, 32, -64);
    assert!(!map.contains(k));
    assert!(map.buffer_at(k).is_none());

    let mut buf = VoxelBuffer::new_default(shape);
    *buf.voxel_at_mut(UVec3::new(1, 2, 3)) = Voxel(5);
    map.insert(k, buf);

    assert!(map.contains(k));
    let stored = map.buffer_at(k).expect("stored buffer");
    assert_eq!(stored.shape(), shape);
    assert_eq!(*stored.voxel_at(UVec3::new(1, 2, 3)), Voxel(5));
    assert_eq!(*stored.voxel_at(UVec3::new(0, 0, 0)), Voxel(0));

    let evicted = map.remove(k).expect("evicted buffer");
    assert_eq!(*evicted.voxel_at(UVec3::new(1, 2, 3)), Voxel(5));
    assert!(!map.contains(k));
    assert!(map.remove(k).is_none());
}

#[test]
fn map_insert_replaces_existing_buffer() {
    let shape = ChunkShape::new(2, 2, 2);
    let mut map = VoxelMap::new(shape);
    let k = key(0, 0, 0);
    map.insert(k, VoxelBuffer::new_filled(shape, Voxel(1)));
    map.insert(k, VoxelBuffer::new_filled(shape, Voxel(2)));
    let stored = map.buffer_at(k).expect("stored buffer");
    assert_eq!(*stored.voxel_at(UVec3::new(0, 0, 0)), Voxel(2));
}

#[test]
fn map_insert_default_fills_with_void() {
    let shape = ChunkShape::new(2, 2, 2);
    let mut map = VoxelMap::new(shape);
    let k = key(2, 0, 2);
    map.insert_default(k);
    let stored = map.buffer_at(k).expect("default buffer");
    assert_eq!(*stored.voxel_at(UVec3::new(1, 1, 1)), Voxel(0));
}

#[test]
fn map_buffer_at_mut_mutates_in_place() {
    let shape = ChunkShape::new(2, 2, 2);
    let mut map = VoxelMap::new(shape);
    let k = key(0, 0, 0);
    map.insert_default(k);
    assert!(map.buffer_at_mut(key(9, 9, 9)).is_none());
    {
        let buf = map.buffer_at_mut(k).expect("stored buffer");
        *buf.voxel_at_mut(UVec3::new(0, 1, 0)) = Voxel(3);
    }
    let stored = map.buffer_at(k).expect("stored buffer");
    assert_eq!(*stored.voxel_at(UVec3::new(0, 1, 0)), Voxel(3));
}

#[test]
fn distinct_keys_store_distinct_buffers() {
    let shape = ChunkShape::new(2, 2, 2);
    let mut map = VoxelMap::new(shape);
    map.insert(key(0, 0, 0), VoxelBuffer::new_filled(shape, Voxel(1)));
    map.insert(key(2, 0, 0), VoxelBuffer::new_filled(shape, Voxel(2)));
    assert_eq!(*map.buffer_at(key(0, 0, 0)).unwrap().voxel_at(UVec3::new(0, 0, 0)), Voxel(1));
    assert_eq!(*map.buffer_at(key(2, 0, 0)).unwrap().voxel_at(UVec3::new(0, 0, 0)), Voxel(2));
    map.remove(key(0, 0, 0));
    assert!(map.contains(key(2, 0, 0)));
}
