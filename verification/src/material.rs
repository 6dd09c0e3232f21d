//! The material registry: maps logical material identities to dense numeric
//! IDs plus descriptive metadata.
//!
//! Each logical material identity is an explicit `u64` tag chosen by the
//! caller at world-setup time; the registry assigns dense IDs in
//! registration order starting at 0, and ID 0 is permanently taken by the
//! built-in Void material that default construction registers first.

use vstd::prelude::*;

verus! {

/// An RGBA color used as a rendering hint for a material, one byte per
/// channel.
#[derive(Clone, Copy, PartialEq, Eq, Structural, Debug, Hash)]
pub struct MaterialColor {
    pub r: u8,
    pub g: u8,
    pub b: u8,
    pub a: u8,
}

impl MaterialColor {
    /// Opaque black, the base color of the built-in Void material.
    pub fn black() -> (c: Self)
        ensures
            c == (MaterialColor { r: 0u8, g: 0u8, b: 0u8, a: 255u8 }),
    {
        MaterialColor { r: 0, g: 0, b: 0, a: 255 }
    }
}

/// A bitmask of material properties.
#[derive(Clone, Copy, PartialEq, Eq, Structural, Debug, Hash)]
pub struct VoxelMaterialFlags {
    pub bits: u32,
}

/// The flag bits of a material that behaves as a solid.
pub const SOLID_BITS: u32 = 0;

/// The flag bits of a material that behaves as a liquid.
pub const LIQUID_BITS: u32 = 2;

impl VoxelMaterialFlags {
    /// The flag set of a material that behaves as a solid.
    pub fn solid() -> (f: Self)
        ensures
            f == (VoxelMaterialFlags { bits: SOLID_BITS }),
    {
        VoxelMaterialFlags { bits: SOLID_BITS }
    }

    /// The flag set of a material that behaves as a liquid.
    pub fn liquid() -> (f: Self)
        ensures
            f == (VoxelMaterialFlags { bits: LIQUID_BITS }),
    {
        VoxelMaterialFlags { bits: LIQUID_BITS }
    }
}

/// Registry info about a voxel material: a human-readable name, a base color
/// for rendering hints, and a flag set.
#[derive(Clone, Copy, Debug)]
pub struct MaterialRegistryInfo {
    pub name: &'static str,
    pub base_color: MaterialColor,
    pub flags: VoxelMaterialFlags,
}

/// The mathematical content of one registry entry.
pub ghost struct MaterialInfoModel {
    pub name: Seq<char>,
    pub base_color: MaterialColor,
    pub flags: VoxelMaterialFlags,
}

impl View for MaterialRegistryInfo {
    type V = MaterialInfoModel;

    open spec fn view(&self) -> MaterialInfoModel {
        MaterialInfoModel { name: self.name@, base_color: self.base_color, flags: self.flags }
    }
}

/// The material with ID 0, registered by default construction of the
/// registry.
pub struct Void;

impl Void {
    /// The dense ID Void holds in every registry.
    pub const ID: u8 = 0;

    /// The logical identity tag Void is registered under.
    pub const TYPE_ID: u64 = 0;
}

/// The impenetrable material the terrain generator writes as the world's
/// bottom border.
pub struct Rock;

impl Rock {
    /// The dense ID Rock holds when it is the first material registered
    /// after default construction.
    pub const ID: u8 = 1;

    /// The logical identity tag Rock is registered under.
    pub const TYPE_ID: u64 = 1;
}

/// A registry for voxel material types.
///
/// It stores the material entries along with the dense material IDs used to
/// refer to them in voxel data.  Entries are appended at setup time and
/// never removed or reordered; the reverse lookup from logical identity to
/// ID stays consistent with the forward table, and registering an identity
/// twice is rejected rather than leaving an unreachable entry behind.
pub struct VoxelMaterialRegistry {
    materials: Vec<MaterialRegistryInfo>,
    mat_ids: Vec<u64>,
}

impl VoxelMaterialRegistry {
    /// The registered entries, in registration order; the entry at index
    /// `i` holds dense ID `i`.
    pub closed spec fn spec_mats(self) -> Seq<MaterialInfoModel> {
        self.materials@.map_values(|m: MaterialRegistryInfo| m@)
    }

    /// The logical identity tags, in registration order; the tag at index
    /// `i` belongs to the entry with dense ID `i`.
    pub closed spec fn spec_tags(self) -> Seq<u64> {
        self.mat_ids@
    }

    /// One tag per entry, at most 256 entries so that every ID fits one
    /// byte, and no tag registered twice.
    pub open spec fn wf(self) -> bool {
        &&& self.spec_tags().len() == self.spec_mats().len()
        &&& self.spec_mats().len() <= 256
        &&& forall|i: int, j: int|
            0 <= i < j < self.spec_tags().len()
                ==> self.spec_tags()[i] != self.spec_tags()[j]
    }

    /// Whether some entry is registered under tag `t`.
    pub open spec fn spec_has_tag(self, t: u64) -> bool {
        exists|i: int| 0 <= i < self.spec_tags().len() && self.spec_tags()[i] == t
    }

    /// The dense ID of the entry registered under tag `t` (meaningful when
    /// `spec_has_tag(t)` holds on a well-formed registry).
    pub open spec fn spec_index_of_tag(self, t: u64) -> int {
        choose|i: int| 0 <= i < self.spec_tags().len() && self.spec_tags()[i] == t
    }

    /// The entry holding dense ID `id`, or nothing for an ID never
    /// assigned.  Never panics.
    pub fn get_by_id(&self, id: u8) -> (r: Option<&MaterialRegistryInfo>)
        ensures
            match r {
                Some(m) => (id as int) < self.spec_mats().len() && m@ == self.spec_mats()[id as int],
                None => (id as int) >= self.spec_mats().len(),
            },
    {
        if (id as usize) < self.materials.len() {
            Some(&self.materials[id as usize])
        } else {
            None
        }
    }

    /// Borrows the entry holding dense ID `id` for writing, or nothing for
    /// an ID never assigned.  The final registry holds, at that ID, whatever
    /// the caller leaves behind the returned reference; IDs, order and
    /// identity tags are unchanged.
    pub fn get_mut_by_id(&mut self, id: u8) -> (r: Option<&mut MaterialRegistryInfo>)
        requires
            old(self).wf(),
        ensures
            match r {
                Some(m) => {
                    &&& (id as int) < old(self).spec_mats().len()
                    &&& (*m)@ == old(self).spec_mats()[id as int]
                    &&& final(self).spec_mats() == old(self).spec_mats().update(
                        id as int,
                        final(m)@,
                    )
                    &&& final(self).spec_tags() == old(self).spec_tags()
                    &&& final(self).wf()
                },
                None => {
                    &&& (id as int) >= old(self).spec_mats().len()
                    &&& *final(self) == *old(self)
                },
            },
    {
        if (id as usize) < self.materials.len() {
            proof {
                let ghost ms = self.materials@;
                assert forall|fm: MaterialRegistryInfo| #![trigger ms.update(id as int, fm)]
                    ms.update(id as int, fm).map_values(|m: MaterialRegistryInfo| m@)
                        =~= ms.map_values(|m: MaterialRegistryInfo| m@).update(id as int, fm@) by {
                }
            }
            Some(&mut self.materials[id as usize])
        } else {
            None
        }
    }

    /// The entry registered under logical identity `type_id`, or nothing if
    /// that identity was never registered.
    pub fn get_by_type(&self, type_id: u64) -> (r: Option<&MaterialRegistryInfo>)
        requires
            self.wf(),
        ensures
            match r {
                Some(m) => self.spec_has_tag(type_id) && m@ == self.spec_mats()[self.spec_index_of_tag(
                    type_id,
                )],
                None => !self.spec_has_tag(type_id),
            },
    {
        match self.get_id_for_type(type_id) {
            Some(id) => {
                proof {
                    assert((id as int) < self.spec_mats().len());
                }
                Some(&self.materials[id as usize])
            },
            None => None,
        }
    }

    /// The dense ID assigned to logical identity `type_id`, or nothing if
    /// that identity was never registered.
    pub fn get_id_for_type(&self, type_id: u64) -> (r: Option<u8>)
        requires
            self.wf(),
        ensures
            match r {
                Some(id) => {
                    &&& self.spec_has_tag(type_id)
                    &&& id == self.spec_index_of_tag(type_id)
                    &&& (id as int) < self.spec_mats().len()
                    &&& self.spec_tags()[id as int] == type_id
                },
                None => !self.spec_has_tag(type_id),
            },
    {
        let mut i: usize = 0;
        while i < self.mat_ids.len()
            invariant
                self.wf(),
                i <= self.mat_ids@.len(),
                forall|j: int| 0 <= j < i ==> self.mat_ids@[j] != type_id,
            decreases self.mat_ids@.len() - i,
        {
            if self.mat_ids[i] == type_id {
                proof {
                    assert(self.spec_tags()[i as int] == type_id);
                    let w = self.spec_index_of_tag(type_id);
                    assert(0 <= w < self.spec_tags().len() && self.spec_tags()[w] == type_id);
                    if w < i as int {
                        assert(self.spec_tags()[w] != self.spec_tags()[i as int]);
                    } else if w > i as int {
                        assert(self.spec_tags()[i as int] != self.spec_tags()[w]);
                    }
                    assert(i < 256);
                }
                return Some(i as u8);
            }
            i = i + 1;
        }
        None
    }

    /// Appends a new entry under logical identity `type_id` and returns the
    /// dense ID assigned: the number of entries registered before it.
    /// Returns nothing, changing nothing, when the identity is already
    /// registered or all 256 one-byte IDs are taken.
    pub fn register_material(&mut self, type_id: u64, mat: MaterialRegistryInfo) -> (r: Option<u8>)
        requires
            old(self).wf(),
        ensures
            final(self).wf(),
            match r {
                Some(id) => {
                    &&& !old(self).spec_has_tag(type_id)
                    &&& old(self).spec_mats().len() < 256
                    &&& id == old(self).spec_mats().len()
                    &&& final(self).spec_mats() == old(self).spec_mats().push(mat@)
                    &&& final(self).spec_tags() == old(self).spec_tags().push(type_id)
                },
                None => {
                    &&& old(self).spec_has_tag(type_id) || old(self).spec_mats().len() == 256
                    &&& final(self).spec_mats() == old(self).spec_mats()
                    &&& final(self).spec_tags() == old(self).spec_tags()
                },
            },
    {
        if self.get_id_for_type(type_id).is_some() || self.materials.len() >= 256 {
            return None;
        }
        let id = self.materials.len() as u8;
        self.materials.push(mat);
        self.mat_ids.push(type_id);
        proof {
            assert(self.spec_mats() =~= old(self).spec_mats().push(mat@));
        }
        Some(id)
    }

    /// All registered entries, in registration order.
    pub fn iter_mats(&self) -> (r: &Vec<MaterialRegistryInfo>)
        ensures
            r@.len() == self.spec_mats().len(),
            forall|i: int| 0 <= i < r@.len() ==> (#[trigger] r@[i])@ == self.spec_mats()[i],
    {
        &self.materials
    }
}

impl Default for VoxelMaterialRegistry {
    /// A fresh registry holds exactly one entry: Void, at ID 0, solid,
    /// with a black base color.
    fn default() -> (r: Self)
        ensures
            r.wf(),
            r.spec_tags() =~= seq![Void::TYPE_ID],
            r.spec_mats().len() == 1,
            r.spec_mats()[0].name == "Void"@,
            r.spec_mats()[0].base_color == (MaterialColor { r: 0u8, g: 0u8, b: 0u8, a: 255u8 }),
            r.spec_mats()[0].flags == (VoxelMaterialFlags { bits: SOLID_BITS }),
    {
        let mut registry = VoxelMaterialRegistry { materials: Vec::new(), mat_ids: Vec::new() };
        let r = registry.register_material(
            Void::TYPE_ID,
            MaterialRegistryInfo {
                name: "Void",
                base_color: MaterialColor::black(),
                flags: VoxelMaterialFlags::solid(),
            },
        );
        registry
    }
}

/// Registry density: the ID a registration assigns equals the number of
/// entries registered before it, so after N registrations into a fresh table
/// the assigned IDs are exactly 0, 1, ... N-1 in registration order, and
/// every earlier entry keeps its ID and content.
pub proof fn lemma_registry_density(mats: Seq<MaterialInfoModel>, m: MaterialInfoModel)
    ensures
        mats.push(m).len() == mats.len() + 1,
        mats.push(m)[mats.len() as int] == m,
        forall|i: int| 0 <= i < mats.len() ==> mats.push(m)[i] == mats[i],
{
}

/// Reverse-lookup consistency: after a registration that assigned an ID
/// (its ensures give exactly the hypotheses below), the reverse lookup of
/// the registered identity names that ID, and the forward table holds the
/// registered entry at it.  With the contracts of
/// [`VoxelMaterialRegistry::get_id_for_type`] and
/// [`VoxelMaterialRegistry::get_by_id`], this says `get_id_for_type(t)`
/// returns the ID most recently assigned to `t` and `get_by_id` of that ID
/// returns the entry registered under `t`.
pub proof fn lemma_reverse_lookup_consistent(
    reg0: VoxelMaterialRegistry,
    reg1: VoxelMaterialRegistry,
    t: u64,
    m: MaterialInfoModel,
)
    requires
        reg0.wf(),
        reg1.wf(),
        !reg0.spec_has_tag(t),
        reg1.spec_mats() == reg0.spec_mats().push(m),
        reg1.spec_tags() == reg0.spec_tags().push(t),
    ensures
        reg1.spec_has_tag(t),
        reg1.spec_index_of_tag(t) == reg0.spec_mats().len(),
        reg1.spec_mats()[reg1.spec_index_of_tag(t)] == m,
{
    let n = reg0.spec_tags().len() as int;
    assert(reg1.spec_tags()[n] == t);
    let w = reg1.spec_index_of_tag(t);
    assert(0 <= w < reg1.spec_tags().len() && reg1.spec_tags()[w] == t);
    if w < n {
        assert(reg0.spec_tags()[w] == t);
    }
}

} // verus!
