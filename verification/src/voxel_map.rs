//! A sparse map from chunk-origin keys to dense voxel buffers of one
//! uniform shape.

use crate::buffer::VoxelBuffer;
use crate::shape::ChunkShape;
use crate::voxel::Voxel;
use vstd::prelude::*;

verus! {

/// A signed integer 3D world coordinate.
#[derive(Clone, Copy, PartialEq, Eq, Structural, Debug, Hash)]
pub struct IVec3 {
    pub x: i32,
    pub y: i32,
    pub z: i32,
}

impl IVec3 {
    pub fn new(x: i32, y: i32, z: i32) -> (r: Self)
        ensures
            r == (IVec3 { x, y, z }),
    {
        IVec3 { x, y, z }
    }
}

/// A typed key pointing to the origin of a voxel buffer in a [`VoxelMap`].
///
/// It wraps the chunk origin's world coordinate and carries no other data;
/// equality and hashing are structural on the coordinate.
#[derive(Clone, Copy, PartialEq, Eq, Structural, Debug, Hash)]
pub struct VoxelMapKey(pub IVec3);

impl VoxelMapKey {
    /// Constructs a key from the given coordinates.
    pub fn from_ivec3(pos: IVec3) -> (r: Self)
        ensures
            r == (VoxelMapKey(pos)),
    {
        VoxelMapKey(pos)
    }

    /// The origin point of the voxel buffer this key addresses.
    pub fn location(&self) -> (r: IVec3)
        ensures
            r == self.0,
    {
        self.0
    }

    /// The coordinate behind the key, for use in contracts.
    pub open spec fn spec_location(self) -> IVec3 {
        self.0
    }
}

/// The mathematical contents of a sequence of (key, buffer) entries: the map
/// sending each key to the cells of the buffer stored under it, later
/// entries winning.
pub open spec fn map_of(s: Seq<(VoxelMapKey, VoxelBuffer)>) -> Map<VoxelMapKey, Seq<Voxel>>
    decreases s.len(),
{
    if s.len() == 0 {
        Map::empty()
    } else {
        map_of(s.drop_last()).insert(s.last().0, s.last().1@)
    }
}

/// Whether no key occurs twice in a sequence of entries.
pub open spec fn unique_keys(s: Seq<(VoxelMapKey, VoxelBuffer)>) -> bool {
    forall|i: int, j: int|
        0 <= i < j < s.len() ==> (#[trigger] s[i]).0 != (#[trigger] s[j]).0
}

/// A key is in the contents exactly when some entry carries it.
pub proof fn lemma_map_of_contains(s: Seq<(VoxelMapKey, VoxelBuffer)>, k: VoxelMapKey)
    ensures
        map_of(s).dom().contains(k) <==> exists|i: int|
            0 <= i < s.len() && (#[trigger] s[i]).0 == k,
    decreases s.len(),
{
    if s.len() > 0 {
        lemma_map_of_contains(s.drop_last(), k);
        if s.last().0 == k {
            assert(s[s.len() - 1].0 == k);
        } else if map_of(s).dom().contains(k) {
            let i = choose|i: int| 0 <= i < s.drop_last().len() && (#[trigger] s.drop_last()[i]).0 == k;
            assert(s[i].0 == k);
        } else {
            assert forall|i: int| 0 <= i < s.len() implies (#[trigger] s[i]).0 != k by {
                if i < s.len() - 1 {
                    assert(s.drop_last()[i] == s[i]);
                }
            }
        }
    }
}

/// Under unique keys, the contents at an entry's key are that entry's cells.
pub proof fn lemma_map_of_index(s: Seq<(VoxelMapKey, VoxelBuffer)>, i: int)
    requires
        unique_keys(s),
        0 <= i < s.len(),
    ensures
        map_of(s).dom().contains(s[i].0),
        map_of(s)[s[i].0] == s[i].1@,
    decreases s.len(),
{
    if i < s.len() - 1 {
        assert(s.drop_last()[i] == s[i]);
        lemma_map_of_index(s.drop_last(), i);
        assert(s[i].0 != s.last().0);
    }
}

/// Replacing the buffer of the entry at `i` updates the contents at that
/// entry's key and nothing else.
pub proof fn lemma_map_of_update(s: Seq<(VoxelMapKey, VoxelBuffer)>, i: int, b: VoxelBuffer)
    requires
        unique_keys(s),
        0 <= i < s.len(),
    ensures
        map_of(s.update(i, (s[i].0, b))) == map_of(s).insert(s[i].0, b@),
    decreases s.len(),
{
    let t = s.update(i, (s[i].0, b));
    if i == s.len() - 1 {
        assert(t.drop_last() =~= s.drop_last());
        assert(map_of(t) =~= map_of(s).insert(s[i].0, b@));
    } else {
        assert(t.drop_last() =~= s.drop_last().update(i, (s.drop_last()[i].0, b)));
        lemma_map_of_update(s.drop_last(), i, b);
        assert(t.last() == s.last());
        assert(s[i].0 != s.last().0);
        assert(map_of(t) =~= map_of(s).insert(s[i].0, b@));
    }
}

/// Removing the entry at `i` removes that entry's key from the contents and
/// changes nothing else.
pub proof fn lemma_map_of_remove(s: Seq<(VoxelMapKey, VoxelBuffer)>, i: int)
    requires
        unique_keys(s),
        0 <= i < s.len(),
    ensures
        map_of(s.remove(i)) == map_of(s).remove(s[i].0),
    decreases s.len(),
{
    lemma_map_of_contains(s.drop_last(), s[i].0);
    if i == s.len() - 1 {
        assert(s.remove(i) =~= s.drop_last());
        assert(forall|j: int| 0 <= j < s.len() - 1 ==> (#[trigger] s[j]).0 != s[i].0);
        assert(forall|j: int|
            0 <= j < s.drop_last().len() ==> (#[trigger] s.drop_last()[j]) == s[j]);
        assert(!map_of(s.drop_last()).dom().contains(s[i].0));
        assert(map_of(s.remove(i)) =~= map_of(s).remove(s[i].0));
    } else {
        assert(s.remove(i).drop_last() =~= s.drop_last().remove(i));
        lemma_map_of_remove(s.drop_last(), i);
        assert(s.drop_last()[i] == s[i]);
        assert(s.remove(i).last() == s.last());
        assert(s[i].0 != s.last().0);
        assert(map_of(s.remove(i)) =~= map_of(s).remove(s[i].0));
    }
}

/// Queries and modifies voxel data for a world split into multiple voxel
/// buffers of one same shape.
///
/// Its view is the map from each stored key to the cells of the buffer under
/// it.  Every buffer stored has a shape structurally equal to the map's
/// configured shape; insertion demands it.
pub struct VoxelMap {
    entries: Vec<(VoxelMapKey, VoxelBuffer)>,
    shape: ChunkShape,
}

impl View for VoxelMap {
    type V = Map<VoxelMapKey, Seq<Voxel>>;

    closed spec fn view(&self) -> Map<VoxelMapKey, Seq<Voxel>> {
        map_of(self.entries@)
    }
}

impl VoxelMap {
    /// The uniform shape of every buffer this map stores.
    pub closed spec fn spec_shape(self) -> ChunkShape {
        self.shape
    }

    /// The map is bound to a well-formed shape, stores no key twice, and
    /// every stored buffer is well formed with the configured shape.
    pub closed spec fn wf(self) -> bool {
        &&& self.shape.wf()
        &&& unique_keys(self.entries@)
        &&& forall|i: int|
            0 <= i < self.entries@.len() ==> (#[trigger] self.entries@[i]).1.wf()
                && self.entries@[i].1.spec_shape() == self.shape
    }

    /// Finds the position of the entry carrying `key`, if any.
    fn find_index(&self, key: VoxelMapKey) -> (r: Option<usize>)
        ensures
            match r {
                Some(i) => i < self.entries@.len() && self.entries@[i as int].0 == key,
                None => forall|i: int|
                    0 <= i < self.entries@.len() ==> (#[trigger] self.entries@[i]).0 != key,
            },
    {
        let mut i: usize = 0;
        while i < self.entries.len()
            invariant
                i <= self.entries@.len(),
                forall|j: int| 0 <= j < i ==> (#[trigger] self.entries@[j]).0 != key,
            decreases self.entries@.len() - i,
        {
            if self.entries[i].0 == key {
                return Some(i);
            }
            i = i + 1;
        }
        None
    }

    /// Constructs an empty map whose future insertions must all have
    /// `chunk_shape`.
    pub fn new(chunk_shape: ChunkShape) -> (r: Self)
        requires
            chunk_shape.wf(),
        ensures
            r.wf(),
            r.spec_shape() == chunk_shape,
            r@ == Map::<VoxelMapKey, Seq<Voxel>>::empty(),
    {
        VoxelMap { entries: Vec::new(), shape: chunk_shape }
    }

    /// The uniform shape every buffer inserted into this map must have.
    pub fn shape(&self) -> (r: ChunkShape)
        ensures
            r == self.spec_shape(),
    {
        self.shape
    }

    /// Whether a buffer is stored at the specified origin.
    pub fn contains(&self, origin: VoxelMapKey) -> (r: bool)
        ensures
            r == self@.dom().contains(origin),
    {
        proof {
            lemma_map_of_contains(self.entries@, origin);
        }
        self.find_index(origin).is_some()
    }

    /// The buffer at the specified origin, if there is one.  A returned
    /// buffer always has the map's configured shape.
    pub fn buffer_at(&self, origin: VoxelMapKey) -> (r: Option<&VoxelBuffer>)
        requires
            self.wf(),
        ensures
            match r {
                Some(b) => {
                    &&& self@.dom().contains(origin)
                    &&& b@ == self@[origin]
                    &&& b.wf()
                    &&& b.spec_shape() == self.spec_shape()
                },
                None => !self@.dom().contains(origin),
            },
    {
        proof {
            lemma_map_of_contains(self.entries@, origin);
        }
        match self.find_index(origin) {
            Some(i) => {
                proof {
                    lemma_map_of_index(self.entries@, i as int);
                }
                Some(&self.entries[i].1)
            },
            None => None,
        }
    }

    /// Stores `buffer` under `origin`, replacing any buffer already there.
    /// The buffer's shape must equal the map's configured shape; a mismatch
    /// is a programming error, not a runtime condition, and is excluded by
    /// precondition rather than recovered from.
    pub fn insert(&mut self, origin: VoxelMapKey, buffer: VoxelBuffer)
        requires
            old(self).wf(),
            buffer.wf(),
            buffer.spec_shape() == old(self).spec_shape(),
        ensures
            final(self).wf(),
            final(self).spec_shape() == old(self).spec_shape(),
            final(self)@ == old(self)@.insert(origin, buffer@),
    {
        if !(buffer.shape() == self.shape) {
            // A caller outside the verified world that breaks the
            // precondition fails loudly here instead of corrupting the map.
            vstd::pervasive::unreached::<()>();
        }
        proof {
            lemma_map_of_contains(self.entries@, origin);
        }
        match self.find_index(origin) {
            Some(i) => {
                proof {
                    lemma_map_of_update(self.entries@, i as int, buffer);
                }
                self.entries[i] = (origin, buffer);
            },
            None => {
                let ghost s0 = self.entries@;
                self.entries.push((origin, buffer));
                proof {
                    assert(self.entries@.drop_last() =~= s0);
                }
            },
        }
    }

    /// Borrows the buffer at the specified origin for writing, if there is
    /// one.  The final map stores, under that origin, whatever the caller
    /// leaves behind the returned reference; the caller must leave a
    /// well-formed buffer of the map's configured shape behind it for the
    /// map to stay well formed.
    pub fn buffer_at_mut(&mut self, origin: VoxelMapKey) -> (r: Option<&mut VoxelBuffer>)
        requires
            old(self).wf(),
        ensures
            match r {
                Some(b) => {
                    &&& old(self)@.dom().contains(origin)
                    &&& (*b)@ == old(self)@[origin]
                    &&& b.wf()
                    &&& b.spec_shape() == old(self).spec_shape()
                    &&& final(self)@ == old(self)@.insert(origin, final(b)@)
                    &&& final(self).spec_shape() == old(self).spec_shape()
                    &&& (final(b).wf() && final(b).spec_shape() == old(self).spec_shape())
                        ==> final(self).wf()
                },
                None => {
                    &&& !old(self)@.dom().contains(origin)
                    &&& *final(self) == *old(self)
                    &&& final(self).wf()
                },
            },
    {
        proof {
            lemma_map_of_contains(self.entries@, origin);
        }
        match self.find_index(origin) {
            Some(i) => {
                let ghost s = self.entries@;
                let ghost ii = i as int;
                proof {
                    lemma_map_of_index(s, ii);
                    assert forall|fb: VoxelBuffer|
                        #[trigger] map_of(s.update(ii, (s[ii].0, fb)))
                            == map_of(s).insert(s[ii].0, fb@) by {
                        lemma_map_of_update(s, ii, fb);
                    }
                    assert forall|fb: VoxelBuffer, j: int, j2: int|
                        0 <= j < j2 < s.len() implies (#[trigger] s.update(ii, (s[ii].0, fb))[j]).0
                            != (#[trigger] s.update(ii, (s[ii].0, fb))[j2]).0 by {
                        assert(s.update(ii, (s[ii].0, fb))[j].0 == s[j].0);
                        assert(s.update(ii, (s[ii].0, fb))[j2].0 == s[j2].0);
                    }
                    assert forall|fb: VoxelBuffer, j: int|
                        fb.wf() && fb.spec_shape() == self.shape && 0 <= j < s.len()
                            implies ((#[trigger] s.update(ii, (s[ii].0, fb))[j]).1.wf()
                            && s.update(ii, (s[ii].0, fb))[j].1.spec_shape() == self.shape) by {
                        if j != ii {
                            assert(s.update(ii, (s[ii].0, fb))[j] == s[j]);
                        }
                    }
                }
                Some(&mut self.entries[i].1)
            },
            None => None,
        }
    }

    /// Evicts and returns the buffer at the specified origin, transferring
    /// ownership to the caller; `None` and no change if none is stored.
    pub fn remove(&mut self, pos: VoxelMapKey) -> (r: Option<VoxelBuffer>)
        requires
            old(self).wf(),
        ensures
            final(self).wf(),
            final(self).spec_shape() == old(self).spec_shape(),
            match r {
                Some(b) => {
                    &&& old(self)@.dom().contains(pos)
                    &&& b@ == old(self)@[pos]
                    &&& b.wf()
                    &&& b.spec_shape() == old(self).spec_shape()
                    &&& final(self)@ == old(self)@.remove(pos)
                },
                None => {
                    &&& !old(self)@.dom().contains(pos)
                    &&& final(self)@ == old(self)@
                },
            },
    {
        proof {
            lemma_map_of_contains(self.entries@, pos);
        }
        match self.find_index(pos) {
            Some(i) => {
                proof {
                    lemma_map_of_index(self.entries@, i as int);
                    lemma_map_of_remove(self.entries@, i as int);
                    self.entries@.remove_ensures(i as int);
                }
                let entry = self.entries.remove(i);
                Some(entry.1)
            },
            None => None,
        }
    }

    /// Stores a buffer filled with the default voxel (material ID 0, Void)
    /// under the specified origin, replacing any buffer already there.
    pub fn insert_default(&mut self, origin: VoxelMapKey)
        requires
            old(self).wf(),
        ensures
            final(self).wf(),
            final(self).spec_shape() == old(self).spec_shape(),
            final(self)@.dom() == old(self)@.dom().insert(origin),
            final(self)@[origin].len() == old(self).spec_shape().spec_volume(),
            forall|j: int|
                0 <= j < final(self)@[origin].len() ==> final(self)@[origin][j] == (Voxel(0u8)),
            forall|k: VoxelMapKey|
                k != origin && old(self)@.dom().contains(k) ==> final(self)@[k] == old(self)@[k],
    {
        let buffer = VoxelBuffer::new_default(self.shape);
        self.insert(origin, buffer);
    }
}

/// Round trip: inserting a buffer's cells under a key stores exactly those
/// cells at that key and touches no other key; removing the key afterwards
/// takes them out again.  Together with the contracts of
/// [`VoxelMap::insert`], [`VoxelMap::buffer_at`], [`VoxelMap::remove`] and
/// [`VoxelMap::contains`], this says that `insert(key, buf)` followed by
/// `buffer_at(key)` observes a buffer equal to `buf`, that `remove(key)`
/// returns that same buffer, and that `contains(key)` is false afterwards.
pub proof fn lemma_round_trip(m: Map<VoxelMapKey, Seq<Voxel>>, key: VoxelMapKey, cells: Seq<Voxel>)
    ensures
        m.insert(key, cells).dom().contains(key),
        m.insert(key, cells)[key] == cells,
        !m.insert(key, cells).remove(key).dom().contains(key),
        forall|k2: VoxelMapKey|
            k2 != key && m.dom().contains(k2) ==> m.insert(key, cells).remove(key)[k2] == m[k2],
{
}

/// Shape invariant: every buffer a well-formed map stores holds exactly the
/// cell count of the map's configured shape.  Buffers of any other shape
/// cannot enter the map: [`VoxelMap::insert`] makes a mismatched shape a
/// precondition violation rather than silently truncating or storing it.
pub proof fn lemma_uniform_shape(m: &VoxelMap, k: VoxelMapKey)
    requires
        m.wf(),
        m@.dom().contains(k),
    ensures
        m@[k].len() == m.spec_shape().spec_volume(),
{
    let ghost s = m.entries@;
    lemma_map_of_contains(s, k);
    let i = choose|i: int| 0 <= i < s.len() && (#[trigger] s[i]).0 == k;
    lemma_map_of_index(s, i);
}

} // verus!
