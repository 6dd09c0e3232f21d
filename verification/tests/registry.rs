use voxel_core::material::{
    MaterialColor, MaterialRegistryInfo, Rock, Void, VoxelMaterialFlags, VoxelMaterialRegistry,
    LIQUID_BITS, SOLID_BITS,
};

fn info(name: &'static str, flags: VoxelMaterialFlags) -> MaterialRegistryInfo {
    MaterialRegistryInfo { name, base_color: MaterialColor::black(), flags }
}

#[test]
fn default_registry_has_void_at_zero() {
    let reg = VoxelMaterialRegistry::default();
    let void = reg.get_by_id(Void::ID).expect("void entry");
    assert_eq!(void.name, "Void");
    assert_eq!(void.base_color, MaterialColor { r: 0, g: 0, b: 0, a: 255 });
    assert_eq!(void.flags.bits, SOLID_BITS);
    assert!(reg.get_by_id(1).is_none());
    assert_eq!(reg.iter_mats().len(), 1);
}

#[test]
fn registration_assigns_dense_ids_in_order() {
    let mut reg = VoxelMaterialRegistry::default();
    let rock = reg.register_material(Rock::TYPE_ID, info("Rock", VoxelMaterialFlags::solid()));
    let dirt = reg.register_material(2, info("Dirt", VoxelMaterialFlags::solid()));
    let water = reg.register_material(3, info("Water", VoxelMaterialFlags::liquid()));
    assert_eq!(rock, Some(1));
    assert_eq!(dirt, Some(2));
    assert_eq!(water, Some(3));
    assert_eq!(reg.iter_mats().len(), 4);
    assert_eq!(reg.get_by_id(2).expect("dirt entry").name, "Dirt");
    assert_eq!(reg.get_by_id(3).expect("water entry").flags.bits, LIQUID_BITS);
    assert!(reg.get_by_id(4).is_none());
}

#[test]
fn reverse_lookup_matches_assigned_id() {
    let mut reg = VoxelMaterialRegistry::default();
    let id = reg
        .register_material(77, info("Sand", VoxelMaterialFlags::solid()))
        .expect("fresh tag");
    assert_eq!(reg.get_id_for_type(77), Some(id));
    assert_eq!(reg.get_by_type(77).expect("sand by type").name, "Sand");
    assert_eq!(reg.get_by_id(id).expect("sand by id").name, "Sand");
    assert_eq!(reg.get_id_for_type(Void::TYPE_ID), Some(Void::ID));
}

#[test]
fn duplicate_registration_is_rejected() {
    let mut reg = VoxelMaterialRegistry::default();
    let first = reg.register_material(9, info("Grass", VoxelMaterialFlags::solid()));
    let second = reg.register_material(9, info("GrassAgain", VoxelMaterialFlags::solid()));
    assert_eq!(first, Some(1));
    assert_eq!(second, None);
    assert_eq!(reg.iter_mats().len(), 2);
    assert_eq!(reg.get_by_type(9).expect("first entry kept").name, "Grass");
}

#[test]
fn entries_can_be_amended_in_place_by_id() {
    let mut reg = VoxelMaterialRegistry::default();
    reg.register_material(5, info("Lava", VoxelMaterialFlags::solid()))
        .expect("fresh tag");
    {
        let entry = reg.get_mut_by_id(1).expect("lava entry");
        entry.flags = VoxelMaterialFlags::liquid();
        entry.base_color = MaterialColor { r: 255, g: 40, b: 0, a: 255 };
    }
    assert!(reg.get_mut_by_id(2).is_none());
    let entry = reg.get_by_id(1).expect("lava entry");
    assert_eq!(entry.flags.bits, LIQUID_BITS);
    assert_eq!(entry.base_color.r, 255);
    assert_eq!(reg.get_id_for_type(5), Some(1));
}

#[test]
fn unknown_identity_lookups_return_absence() {
    let reg = VoxelMaterialRegistry::default();
    assert!(reg.get_id_for_type(42).is_none());
    assert!(reg.get_by_type(42).is_none());
    assert!(reg.get_by_id(200).is_none());
}

#[test]
fn registry_fills_all_byte_ids_then_rejects() {
    let mut reg = VoxelMaterialRegistry::default();
    for t in 1..256u64 {
        let id = reg.register_material(t, info("M", VoxelMaterialFlags::solid()));
        assert_eq!(id, Some(t as u8));
    }
    assert_eq!(reg.iter_mats().len(), 256);
    assert_eq!(reg.register_material(999, info("Extra", VoxelMaterialFlags::solid())), None);
    assert_eq!(reg.iter_mats().len(), 256);
}
