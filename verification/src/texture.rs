//! Texture bookkeeping: which atlas storage each texture lives in, how
//! many handles refer to each texture, and when atlas storages can be
//! dropped.
//!
//! The GPU side (creating and destroying atlas textures, uploading pixels,
//! texture coordinates) is done by the caller with what these functions
//! return.

use vstd::prelude::*;
use guillotiere::AtlasAllocator;
use crate::atlas::atlas_allocate;
use crate::atlas::atlas_allocation;
use crate::atlas::atlas_allocations;
use crate::atlas::atlas_deallocate;
use crate::atlas::atlas_extent;
use crate::atlas::atlas_new;
use crate::atlas::atlas_node_slots;
use crate::atlas::atlas_nodes_in_use;
use crate::atlas::atlas_size;
use crate::atlas::no_allocations;
use crate::atlas::placed_within;
use crate::atlas::AtlasRect;
use crate::slot_maps::has_key_form;
use crate::slot_maps::key_form;
use crate::slot_maps::texture_map_get;
use crate::slot_maps::texture_map_insert;
use crate::slot_maps::texture_map_len;
use crate::slot_maps::texture_map_new;
use crate::slot_maps::texture_map_remove;
use crate::slot_maps::texture_map_set;
use crate::slot_maps::TextureMap;
use crate::slot_maps::has_key;
use crate::slot_maps::key_position;
use crate::slot_maps::storage_keys;
use crate::slot_maps::storage_map_get;
use crate::slot_maps::storage_map_get_mut;
use crate::slot_maps::storage_map_insert;
use crate::slot_maps::storage_map_insert_position;
use crate::slot_maps::storage_map_items;
use crate::slot_maps::storage_map_keys;
use crate::slot_maps::storage_map_len;
use crate::slot_maps::storage_map_new;
use crate::slot_maps::storage_map_remove;
use crate::slot_maps::StorageMap;

verus! {

/// The smallest side of a new atlas storage.
pub const MIN_ATLAS_SIDE: u16 = 4096;

/// The most allocations a storage makes between two moments when it holds
/// none. Each allocation brings at most four of the atlas's nodes into use,
/// and once the storage holds no allocation only the root node is in use,
/// so the node table stays small enough for allocation ids to be unique. A
/// storage that has made this many since it last held none is not tried
/// until its textures are released.
pub const MAX_ATLAS_ALLOCATIONS: u32 = 4_194_303;

/// Pixel formats that textures are stored in.
#[derive(Clone, Copy, Debug, PartialEq, Eq, Hash, Structural)]
pub enum TextureFormat {
    Rgba8Unorm,
    Rgba8UnormSrgb,
    R8Unorm,
}

/// Bytes per pixel of a format.
pub open spec fn format_bytes(format: TextureFormat) -> nat {
    match format {
        TextureFormat::Rgba8Unorm | TextureFormat::Rgba8UnormSrgb => 4,
        TextureFormat::R8Unorm => 1,
    }
}

/// Bytes per pixel of a format.
pub fn bytes_per_pixel(format: TextureFormat) -> (r: usize)
    ensures
        r == format_bytes(format),
{
    match format {
        TextureFormat::Rgba8Unorm | TextureFormat::Rgba8UnormSrgb => 4,
        TextureFormat::R8Unorm => 1,
    }
}

/// The row length in bytes and the height in rows of an image of `width`
/// pixels whose pixel data is `data_len` bytes long. The data must hold
/// whole rows, and at most 65535 of them.
pub fn image_rows(data_len: usize, width: u16, format: TextureFormat) -> (r: (usize, u16))
    requires
        width > 0,
        data_len as nat % (width as nat * format_bytes(format)) == 0,
        data_len as nat / (width as nat * format_bytes(format)) <= u16::MAX,
    ensures
        r.0 == width * format_bytes(format),
        r.1 == data_len as nat / r.0 as nat,
        r.0 * r.1 == data_len,
{
    let bytes_per_row = width as usize * bytes_per_pixel(format);
    let height = data_len / bytes_per_row;
    proof {
        vstd::arithmetic::div_mod::lemma_fundamental_div_mod(data_len as int, bytes_per_row as int);
    }
    (bytes_per_row, height as u16)
}

/// Identifies an atlas storage: its format and its key among the
/// storages of that format.
#[derive(Clone, Copy, Debug, PartialEq, Eq, Hash, Structural)]
pub struct StorageId {
    pub id: u64,
    pub format: TextureFormat,
}

/// One atlas texture and the allocator that divides it.
pub struct AtlasStorage {
    refcount: u32,
    allocations_since_empty: u32,
    atlas: AtlasAllocator,
}

/// What an atlas storage holds, as seen by contracts.
pub struct StorageModel {
    /// Its key among the storages of its format.
    pub id: u64,
    /// The number of live allocations in the storage.
    pub refcount: u32,
    /// The live allocations by id.
    pub allocations: Map<u32, AtlasRect>,
    /// The atlas size.
    pub extent: (i32, i32),
    /// The allocations made since the storage last held none.
    pub allocations_since_empty: u32,
}

impl AtlasStorage {
    /// The storage's model, under key `id`.
    pub closed spec fn model(&self, id: u64) -> StorageModel {
        StorageModel {
            id,
            refcount: self.refcount,
            allocations: atlas_allocations(self.atlas),
            extent: atlas_extent(self.atlas),
            allocations_since_empty: self.allocations_since_empty,
        }
    }

    /// The atlas's node table keeps ids unique, and at most four of its
    /// nodes came into use per allocation made since the storage last held
    /// none.
    pub closed spec fn table_ok(&self) -> bool {
        &&& atlas_node_slots(self.atlas) <= crate::atlas::ATLAS_ID_SLOTS
        &&& atlas_nodes_in_use(self.atlas) <= 1 + crate::atlas::NODES_PER_ALLOCATION
            * self.allocations_since_empty
    }
}

impl StorageModel {
    /// The reference count is the number of live allocations, which were
    /// all made by the storage.
    pub open spec fn wf(&self) -> bool {
        &&& self.allocations.dom().finite()
        &&& self.refcount == self.allocations.len()
        &&& self.refcount <= self.allocations_since_empty <= MAX_ATLAS_ALLOCATIONS
    }
}

/// A storage after one of its allocations is released: when it was the
/// last, the count of allocations since the storage held none starts again.
pub open spec fn released_storage(m: StorageModel, alloc: u32) -> StorageModel {
    StorageModel {
        refcount: (m.refcount - 1) as u32,
        allocations: m.allocations.remove(alloc),
        allocations_since_empty: if m.refcount == 1 {
            0
        } else {
            m.allocations_since_empty
        },
        ..m
    }
}

/// Where a texture was placed.
#[derive(Clone, Copy, Debug, PartialEq, Eq, Structural)]
pub struct Placement {
    /// The storage that holds it.
    pub storage: StorageId,
    /// Its allocation id in that storage's atlas.
    pub alloc: u32,
    /// Its rectangle in the atlas.
    pub rect: AtlasRect,
    /// The atlas size.
    pub atlas_width: i32,
    pub atlas_height: i32,
    /// Whether the storage was made for it (its GPU texture is to be
    /// created).
    pub new_storage: bool,
}

/// The atlas storages of one texture format, by key, in the order they
/// are tried.
pub struct FormattedTextures {
    format: TextureFormat,
    storages: StorageMap,
}

/// The models of a sequence of keyed storages.
pub open spec fn models(s: Seq<(u64, AtlasStorage)>) -> Seq<StorageModel> {
    s.map_values(|e: (u64, AtlasStorage)| e.1.model(e.0))
}

/// The atlas allocators of a sequence of keyed storages.
pub closed spec fn allocators(s: Seq<(u64, AtlasStorage)>) -> Seq<AtlasAllocator> {
    s.map_values(|e: (u64, AtlasStorage)| e.1.atlas)
}

/// Whether storage `i` is tried for a `width` by `height` texture (it has
/// not made its last allocation since it last held none) and its atlas
/// takes it.
pub open spec fn takes(
    storages: Seq<StorageModel>,
    atlases: Seq<AtlasAllocator>,
    i: int,
    width: u16,
    height: u16,
) -> bool {
    &&& storages[i].allocations_since_empty < MAX_ATLAS_ALLOCATIONS
    &&& atlas_allocation(atlases[i], width as i32, height as i32) is Some
}

/// Whether storage `i` is tried and has no allocation and an atlas big
/// enough for a `width` by `height` texture.
pub open spec fn empty_and_fits(storages: Seq<StorageModel>, i: int, width: u16, height: u16) -> bool {
    &&& storages[i].allocations_since_empty < MAX_ATLAS_ALLOCATIONS
    &&& storages[i].allocations == no_allocations()
    &&& width <= storages[i].extent.0
    &&& height <= storages[i].extent.1
}

/// The storages that keep at least one allocation.
pub open spec fn kept_storages(s: Seq<StorageModel>) -> Seq<StorageModel>
    decreases s.len(),
{
    if s.len() == 0 {
        s
    } else if s.last().refcount > 0 {
        kept_storages(s.drop_last()).push(s.last())
    } else {
        kept_storages(s.drop_last())
    }
}

/// The ids of the storages that keep no allocation.
pub open spec fn emptied_storages(s: Seq<StorageModel>) -> Seq<u64>
    decreases s.len(),
{
    if s.len() == 0 {
        Seq::empty()
    } else if s.last().refcount > 0 {
        emptied_storages(s.drop_last())
    } else {
        emptied_storages(s.drop_last()).push(s.last().id)
    }
}

/// Whether the ids of `s` are distinct.
pub open spec fn ids_distinct(s: Seq<StorageModel>) -> bool {
    forall|i: int, j: int| 0 <= i < j < s.len() ==> (#[trigger] s[i]).id != (#[trigger] s[j]).id
}

/// Whether no storage of `s` has id `id`.
pub open spec fn id_unused(s: Seq<StorageModel>, id: u64) -> bool {
    forall|i: int| 0 <= i < s.len() ==> (#[trigger] s[i]).id != id
}

/// The entry of keyed storages with key `k` sits at position `i` when the
/// keys are distinct.
proof fn lemma_key_position(items: Seq<(u64, AtlasStorage)>, i: int)
    requires
        0 <= i < items.len(),
        ids_distinct(models(items)),
    ensures
        has_key(items, items[i].0),
        key_position(items, items[i].0) == i,
{
    let k = items[i].0;
    assert(items[i].0 == k);
    let j = key_position(items, k);
    assert(models(items)[i].id == k);
    assert(models(items)[j].id == k);
}

impl FormattedTextures {
    /// The format of all storages.
    pub closed spec fn spec_format(&self) -> TextureFormat {
        self.format
    }

    /// The storages with their keys, in the order they are tried.
    pub closed spec fn entries(&self) -> Seq<(u64, AtlasStorage)> {
        storage_map_items(self.storages)
    }

    /// The storages, in the order they are tried.
    pub closed spec fn storages(&self) -> Seq<StorageModel> {
        models(self.entries())
    }

    /// The atlas allocators of the storages, in the same order.
    pub closed spec fn atlases(&self) -> Seq<AtlasAllocator> {
        allocators(self.entries())
    }

    /// Where in that order a new storage goes.
    pub closed spec fn insert_position(&self) -> int {
        storage_map_insert_position(self.storages)
    }

    /// Every storage's node table is within its bound.
    pub closed spec fn tables_ok(&self) -> bool {
        forall|i: int| 0 <= i < self.entries().len() ==> (#[trigger] self.entries()[i]).1.table_ok()
    }

    /// Storage ids are distinct keys, and each storage's count is its
    /// number of allocations.
    pub open spec fn wf(&self) -> bool {
        &&& forall|i: int| 0 <= i < self.storages().len() ==> (#[trigger] self.storages()[i]).wf()
        &&& forall|i: int| 0 <= i < self.storages().len() ==> key_form(#[trigger] self.storages()[i].id)
        &&& ids_distinct(self.storages())
        &&& self.tables_ok()
    }

    /// No storage yet.
    pub fn new(format: TextureFormat) -> (r: Self)
        ensures
            r.wf(),
            r.spec_format() == format,
            r.storages() == Seq::<StorageModel>::empty(),
    {
        let r = FormattedTextures { format, storages: storage_map_new() };
        assert(r.storages() =~= Seq::<StorageModel>::empty());
        r
    }

    /// The format of all storages.
    pub fn format(&self) -> (r: TextureFormat)
        ensures
            r == self.spec_format(),
    {
        self.format
    }

    /// The size of a new storage for a `width` by `height` texture.
    pub open spec fn new_extent(width: u16, height: u16) -> (i32, i32) {
        (
            (if width > MIN_ATLAS_SIDE { width } else { MIN_ATLAS_SIDE }) as i32,
            (if height > MIN_ATLAS_SIDE { height } else { MIN_ATLAS_SIDE }) as i32,
        )
    }

    /// Whether `p` places a `width` by `height` texture into storage `i`
    /// of `before`, which becomes `after`.
    pub open spec fn placed_in_existing(
        before: Seq<StorageModel>,
        after: Seq<StorageModel>,
        i: int,
        p: Placement,
        width: u16,
        height: u16,
    ) -> bool {
        &&& 0 <= i < before.len()
        &&& before[i].id == p.storage.id
        &&& !p.new_storage
        &&& !before[i].allocations.contains_key(p.alloc)
        &&& (p.atlas_width, p.atlas_height) == before[i].extent
        &&& after == before.update(
            i,
            StorageModel {
                refcount: (before[i].refcount + 1) as u32,
                allocations: before[i].allocations.insert(p.alloc, p.rect),
                allocations_since_empty: (before[i].allocations_since_empty + 1) as u32,
                ..before[i]
            },
        )
    }

    /// Whether storage `i` is the first of `storages` that takes a `width`
    /// by `height` texture.
    pub open spec fn first_taker(
        storages: Seq<StorageModel>,
        atlases: Seq<AtlasAllocator>,
        i: int,
        width: u16,
        height: u16,
    ) -> bool {
        &&& takes(storages, atlases, i, width, height)
        &&& forall|j: int| 0 <= j < i ==> !#[trigger] takes(storages, atlases, j, width, height)
    }

    /// Whether no storage of `storages` takes a `width` by `height`
    /// texture; then none that is tried is empty and big enough.
    pub open spec fn none_takes(
        storages: Seq<StorageModel>,
        atlases: Seq<AtlasAllocator>,
        width: u16,
        height: u16,
    ) -> bool {
        &&& forall|j: int|
            0 <= j < storages.len() ==> !#[trigger] takes(storages, atlases, j, width, height)
        &&& forall|j: int|
            0 <= j < storages.len() ==> !#[trigger] empty_and_fits(storages, j, width, height)
    }

    /// The storage a new storage of a `width` by `height` texture becomes,
    /// under key `id`, holding allocation `alloc` at `rect`.
    pub open spec fn new_storage_model(id: u64, alloc: u32, rect: AtlasRect, width: u16, height: u16) -> StorageModel {
        StorageModel {
            id,
            refcount: 1,
            allocations: no_allocations().insert(alloc, rect),
            extent: Self::new_extent(width, height),
            allocations_since_empty: 1,
        }
    }

    /// Place a `width` by `height` texture: in the first storage that
    /// takes it (storages are tried in order, except those that made their
    /// last allocation since they last held none), else in a new storage of
    /// at least 4096 by 4096 pixels, which always takes it and goes where
    /// the storage map puts it. None only when no storage takes it and the
    /// storage map is full.
    pub fn allocate(&mut self, width: u16, height: u16) -> (r: Option<Placement>)
        requires
            old(self).wf(),
            width > 0,
            height > 0,
        ensures
            final(self).wf(),
            old(self).storages().len() < u32::MAX - 1 ==> r is Some,
            final(self).spec_format() == old(self).spec_format(),
            r is None ==> final(self).storages() == old(self).storages()
                && final(self).insert_position() == old(self).insert_position()
                && Self::none_takes(old(self).storages(), old(self).atlases(), width, height),
            r matches Some(p) ==> {
                &&& p.storage.format == old(self).spec_format()
                &&& placed_within(p.rect, width as int, height as int, (p.atlas_width, p.atlas_height))
                &&& p.new_storage ==> {
                    &&& Self::none_takes(old(self).storages(), old(self).atlases(), width, height)
                    &&& id_unused(old(self).storages(), p.storage.id)
                    &&& (p.atlas_width, p.atlas_height) == Self::new_extent(width, height)
                    &&& 0 <= old(self).insert_position() <= old(self).storages().len()
                    &&& final(self).storages() == old(self).storages().insert(
                        old(self).insert_position(),
                        Self::new_storage_model(p.storage.id, p.alloc, p.rect, width, height),
                    )
                }
                &&& !p.new_storage ==> final(self).insert_position() == old(self).insert_position()
                    && exists|i: int|
                    {
                        &&& Self::placed_in_existing(
                            old(self).storages(),
                            final(self).storages(),
                            i,
                            p,
                            width,
                            height,
                        )
                        &&& Self::first_taker(old(self).storages(), old(self).atlases(), i, width, height)
                        &&& atlas_allocation(old(self).atlases()[i], width as i32, height as i32)
                            == Some((p.alloc, p.rect))
                    }
            },
    {
        let ghost before = self.storages();
        let ghost atlases = self.atlases();
        let format = self.format;
        let keys = storage_map_keys(&self.storages);
        let n = keys.len();
        let mut i: usize = 0;
        while i < n
            invariant
                i <= n,
                n == self.entries().len(),
                keys@ == storage_keys(self.entries()),
                self.storages() == before,
                self.format == old(self).format,
                format == old(self).format,
                old(self).storages() == before,
                old(self).atlases() == atlases,
                old(self).wf(),
                self.tables_ok(),
                self.insert_position() == old(self).insert_position(),
                atlases.len() == n,
                forall|j: int| i <= j < n ==> #[trigger] self.atlases()[j] == atlases[j],
                forall|j: int| 0 <= j < i ==> !#[trigger] takes(before, atlases, j, width, height),
                forall|j: int| 0 <= j < i ==> !#[trigger] empty_and_fits(before, j, width, height),
                width > 0,
                height > 0,
            decreases n - i,
        {
            let key = keys[i];
            let ghost prev = self.entries();
            proof {
                assert(storage_keys(prev)[i as int] == prev[i as int].0);
                assert(models(prev)[i as int] == prev[i as int].1.model(prev[i as int].0));
                lemma_key_position(prev, i as int);
                assert(before[i as int] == prev[i as int].1.model(key));
                assert(self.atlases()[i as int] == prev[i as int].1.atlas);
                assert(prev[i as int].1.table_ok());
                assert(before[i as int].wf());
                assert(key_form(before[i as int].id));
            }
            let storage = storage_map_get_mut(&mut self.storages, key);
            let mut placed: Option<Placement> = None;
            if storage.allocations_since_empty < MAX_ATLAS_ALLOCATIONS {
                match atlas_allocate(&mut storage.atlas, width as i32, height as i32) {
                    Some((alloc, rect)) => {
                        storage.refcount = storage.refcount + 1;
                        storage.allocations_since_empty = storage.allocations_since_empty + 1;
                        let extent = atlas_size(&storage.atlas);
                        placed = Some(
                            Placement {
                                storage: StorageId { id: key, format },
                                alloc,
                                rect,
                                atlas_width: extent.0,
                                atlas_height: extent.1,
                                new_storage: false,
                            },
                        );
                    },
                    None => {},
                }
            }
            let ghost cur = prev[i as int].1;
            let ghost now = self.entries();
            proof {
                assert(now == prev.update(i as int, (key, now[i as int].1)));
                assert forall|j: int| 0 <= j < now.len() && j != i implies now[j] == prev[j] by {}
                assert forall|j: int| 0 <= j < now.len() implies (#[trigger] now[j]).1.table_ok() by {
                    assert(prev[j].1.table_ok());
                }
                assert forall|j: int| i < j < n implies #[trigger] self.atlases()[j] == atlases[j] by {
                    assert(now[j] == prev[j]);
                    assert(allocators(prev)[j] == atlases[j]);
                }
            }
            match placed {
                Some(p) => {
                    proof {
                        let after = self.storages();
                        let updated = StorageModel {
                            refcount: (before[i as int].refcount + 1) as u32,
                            allocations: before[i as int].allocations.insert(p.alloc, p.rect),
                            allocations_since_empty: (before[i as int].allocations_since_empty + 1) as u32,
                            ..before[i as int]
                        };
                        assert(after =~= before.update(i as int, updated));
                        assert(Self::placed_in_existing(before, after, i as int, p, width, height));
                        assert(takes(before, atlases, i as int, width, height));
                        assert(Self::first_taker(before, atlases, i as int, width, height));
                        assert forall|j: int| 0 <= j < after.len() implies (#[trigger] after[j]).wf()
                            && key_form(after[j].id) by {
                            assert(before[j].wf());
                            assert(key_form(before[j].id));
                        }
                        assert(ids_distinct(after)) by {
                            assert forall|x: int, y: int| 0 <= x < y < after.len() implies (
                            #[trigger] after[x]).id != (#[trigger] after[y]).id by {
                                assert(before[x].id != before[y].id);
                            }
                        }
                    }
                    return Some(p);
                },
                None => {
                    proof {
                        assert(self.storages() =~= before);
                        assert(!takes(before, atlases, i as int, width, height));
                        assert(!empty_and_fits(before, i as int, width, height));
                    }
                },
            }
            i += 1;
        }
        proof {
            assert(Self::none_takes(before, atlases, width, height));
        }
        if storage_map_len(&self.storages) >= 0xffff_fffeusize {
            return None;
        }
        let atlas_width: u16 = if width > MIN_ATLAS_SIDE { width } else { MIN_ATLAS_SIDE };
        let atlas_height: u16 = if height > MIN_ATLAS_SIDE { height } else { MIN_ATLAS_SIDE };
        let mut atlas = atlas_new(atlas_width as i32, atlas_height as i32);
        match atlas_allocate(&mut atlas, width as i32, height as i32) {
            Some((alloc, rect)) => {
                let ghost prev = self.entries();
                let ghost position = self.insert_position();
                let added_storage = AtlasStorage { refcount: 1, allocations_since_empty: 1, atlas };
                let ghost added_ghost = added_storage;
                let key = storage_map_insert(&mut self.storages, added_storage);
                proof {
                    let added = Self::new_storage_model(key, alloc, rect, width, height);
                    let now = self.entries();
                    assert(now == prev.insert(position, (key, added_ghost)));
                    assert(added_ghost.model(key) == added);
                    assert(self.storages() =~= before.insert(position, added));
                    assert(no_allocations().insert(alloc, rect).dom() =~= set![alloc]);
                    assert(added_ghost.table_ok());
                    assert forall|j: int| 0 <= j < before.len() implies (#[trigger] before[j]).id != key by {
                        assert(storage_keys(prev)[j] == prev[j].0);
                        assert(models(prev)[j].id == prev[j].0);
                    }
                    let after = self.storages();
                    assert forall|j: int| 0 <= j < now.len() implies (#[trigger] now[j]).1.table_ok() by {
                        if j < position {
                            assert(now[j] == prev[j]);
                        } else if j > position {
                            assert(now[j] == prev[j - 1]);
                        }
                    }
                    assert forall|j: int| 0 <= j < after.len() implies (#[trigger] after[j]).wf()
                        && key_form(after[j].id) by {
                        if j < position {
                            assert(after[j] == before[j]);
                        } else if j > position {
                            assert(after[j] == before[j - 1]);
                        }
                    }
                    assert(ids_distinct(after)) by {
                        assert forall|x: int, y: int| 0 <= x < y < after.len() implies (
                        #[trigger] after[x]).id != (#[trigger] after[y]).id by {
                            if x != position && y != position {
                                let bx = if x < position { x } else { x - 1 };
                                let by = if y < position { y } else { y - 1 };
                                assert(after[x] == before[bx]);
                                assert(after[y] == before[by]);
                            } else if x == position {
                                assert(after[y] == before[y - 1]);
                            } else {
                                assert(after[x] == before[x]);
                            }
                        }
                    }
                }
                Some(
                    Placement {
                        storage: StorageId { id: key, format },
                        alloc,
                        rect,
                        atlas_width: atlas_width as i32,
                        atlas_height: atlas_height as i32,
                        new_storage: true,
                    },
                )
            },
            None => None,
        }
    }

    /// Whether storage `id` is in `s` and holds allocation `alloc`.
    pub open spec fn holds(s: Seq<StorageModel>, id: u64, alloc: u32) -> bool {
        exists|i: int| 0 <= i < s.len() && s[i].id == id && #[trigger] s[i].allocations.contains_key(alloc)
    }

    /// Free allocation `alloc` of storage `id`: its atlas forgets it and
    /// the storage's count drops by one.
    pub fn release(&mut self, id: u64, alloc: u32)
        requires
            old(self).wf(),
            Self::holds(old(self).storages(), id, alloc),
        ensures
            final(self).wf(),
            final(self).spec_format() == old(self).spec_format(),
            final(self).insert_position() == old(self).insert_position(),
            exists|i: int|
                0 <= i < old(self).storages().len() && old(self).storages()[i].id == id
                    && #[trigger] final(self).storages() == old(self).storages().update(
                    i,
                    released_storage(old(self).storages()[i], alloc),
                ),
    {
        let ghost before = self.storages();
        let ghost prev = self.entries();
        let ghost i = choose|i: int|
            0 <= i < before.len() && before[i].id == id && before[i].allocations.contains_key(alloc);
        proof {
            assert(models(prev)[i] == prev[i].1.model(prev[i].0));
            assert(prev[i].0 == id);
            lemma_key_position(prev, i);
            assert(prev[i].1.table_ok());
            assert(before[i].wf());
            assert(key_form(before[i].id));
        }
        let storage = storage_map_get_mut(&mut self.storages, id);
        atlas_deallocate(&mut storage.atlas, alloc);
        storage.refcount = storage.refcount - 1;
        if storage.refcount == 0 {
            storage.allocations_since_empty = 0;
        }
        proof {
            let now = self.entries();
            let updated = released_storage(before[i], alloc);
            assert(now == prev.update(i, (id, now[i].1)));
            assert(now[i].1.model(id) == updated);
            assert(self.storages() =~= before.update(i, updated));
            if updated.refcount == 0 {
                let rest = updated.allocations;
                assert(rest.dom().finite());
                assert(rest.dom().len() == 0);
                vstd::set_lib::lemma_set_empty_equivalency_len(rest.dom());
                assert(rest =~= no_allocations());
            }
            assert forall|j: int| 0 <= j < now.len() implies (#[trigger] now[j]).1.table_ok() by {
                assert(prev[j].1.table_ok());
            }
            let after = self.storages();
            assert forall|j: int| 0 <= j < after.len() implies (#[trigger] after[j]).wf()
                && key_form(after[j].id) by {
                assert(before[j].wf());
                assert(key_form(before[j].id));
            }
            assert(ids_distinct(after)) by {
                assert forall|x: int, y: int| 0 <= x < y < after.len() implies (
                #[trigger] after[x]).id != (#[trigger] after[y]).id by {
                    assert(before[x].id != before[y].id);
                }
            }
        }
    }

    /// Drop the storages that hold no allocation, in order, and return
    /// their ids (so their GPU textures can be destroyed).
    pub fn end_frame(&mut self) -> (r: Vec<u64>)
        requires
            old(self).wf(),
        ensures
            final(self).wf(),
            final(self).spec_format() == old(self).spec_format(),
            final(self).storages() == kept_storages(old(self).storages()),
            r@ == emptied_storages(old(self).storages()),
    {
        let ghost all = self.storages();
        let keys = storage_map_keys(&self.storages);
        let n = keys.len();
        proof {
            assert forall|j: int| 0 <= j < n implies #[trigger] keys@[j] == all[j].id by {
                assert(storage_keys(self.entries())[j] == self.entries()[j].0);
                assert(models(self.entries())[j] == self.entries()[j].1.model(self.entries()[j].0));
            }
            assert(all.subrange(0, 0) =~= Seq::<StorageModel>::empty());
            assert(all.subrange(0, all.len() as int) =~= all);
            assert(self.storages() =~= kept_storages(all.subrange(0, 0)) + all.subrange(0, n as int));
        }
        let mut emptied: Vec<u64> = Vec::new();
        let mut k: usize = 0;
        let ghost mut kept: Seq<StorageModel> = Seq::empty();
        while k < n
            invariant
                k <= n,
                n == all.len(),
                keys@.len() == n,
                forall|j: int| 0 <= j < n ==> #[trigger] keys@[j] == all[j].id,
                kept == kept_storages(all.subrange(0, k as int)),
                self.storages() == kept + all.subrange(k as int, n as int),
                emptied@ == emptied_storages(all.subrange(0, k as int)),
                forall|j: int|
                    0 <= j < kept.len() ==> exists|m: int| 0 <= m < k && all[m] == #[trigger] kept[j],
                ids_distinct(kept),
                all == old(self).storages(),
                old(self).wf(),
                self.tables_ok(),
                self.format == old(self).format,
            decreases n - k,
        {
            let key = keys[k];
            let ghost prev = self.entries();
            let ghost cur = self.storages();
            let ghost c = kept.len() as int;
            proof {
                assert(cur.len() == c + (n - k));
                assert(models(prev).len() == prev.len());
                assert(cur[c] == all[k as int]);
                assert forall|x: int, y: int| 0 <= x < y < cur.len() implies (
                #[trigger] cur[x]).id != (#[trigger] cur[y]).id by {
                    if y < c {
                        assert(cur[x] == kept[x] && cur[y] == kept[y]);
                    } else if x < c {
                        let m = choose|m: int| 0 <= m < k && all[m] == kept[x];
                        assert(cur[x] == kept[x]);
                        assert(cur[y] == all[k + (y - c)]);
                        assert(all[m].id != all[k + (y - c)].id);
                    } else {
                        assert(cur[x] == all[k + (x - c)]);
                        assert(cur[y] == all[k + (y - c)]);
                    }
                }
                assert(models(prev)[c] == prev[c].1.model(prev[c].0));
                lemma_key_position(prev, c);
                assert(prev[c].0 == key);
                assert(key_form(all[k as int].id));
            }
            let refcount = storage_map_get(&self.storages, key).refcount;
            proof {
                assert(refcount == all[k as int].refcount);
                assert(all.subrange(0, k + 1).drop_last() =~= all.subrange(0, k as int));
                assert(all.subrange(0, k + 1).last() == all[k as int]);
            }
            if refcount == 0 {
                storage_map_remove(&mut self.storages, key);
                emptied.push(key);
                proof {
                    let now = self.entries();
                    assert(now == prev.remove(c));
                    assert forall|j: int| 0 <= j < now.len() implies #[trigger] models(now)[j]
                        == cur.remove(c)[j] by {
                        if j < c {
                            assert(now[j] == prev[j]);
                        } else {
                            assert(now[j] == prev[j + 1]);
                        }
                    }
                    assert(models(now) =~= cur.remove(c));
                    assert(cur.remove(c) =~= kept + all.subrange(k + 1, n as int));
                    assert(self.storages() =~= kept + all.subrange(k + 1, n as int));
                    assert forall|j: int| 0 <= j < now.len() implies (#[trigger] now[j]).1.table_ok() by {
                        if j < c {
                            assert(now[j] == prev[j]);
                        } else {
                            assert(now[j] == prev[j + 1]);
                        }
                    }
                }
            } else {
                proof {
                    let old_kept = kept;
                    kept = kept.push(all[k as int]);
                    assert(self.storages() =~= kept + all.subrange(k + 1, n as int));
                    assert forall|j: int| 0 <= j < kept.len() implies exists|m: int|
                        0 <= m < k + 1 && all[m] == #[trigger] kept[j] by {
                        if j == c {
                            assert(all[k as int] == kept[j]);
                        } else {
                            let m = choose|m: int| 0 <= m < k && all[m] == old_kept[j];
                            assert(all[m] == kept[j]);
                        }
                    }
                    assert forall|x: int, y: int| 0 <= x < y < kept.len() implies (
                    #[trigger] kept[x]).id != (#[trigger] kept[y]).id by {
                        if y == c {
                            let m = choose|m: int| 0 <= m < k && all[m] == old_kept[x];
                            assert(all[m].id != all[k as int].id);
                        } else {
                            assert(kept[x] == old_kept[x] && kept[y] == old_kept[y]);
                        }
                    }
                }
            }
            k += 1;
        }
        proof {
            assert(all.subrange(0, n as int) =~= all);
            assert(all.subrange(n as int, n as int) =~= Seq::<StorageModel>::empty());
            assert(self.storages() =~= kept);
            let after = self.storages();
            assert forall|j: int| 0 <= j < after.len() implies (#[trigger] after[j]).wf()
                && key_form(after[j].id) by {
                let m = choose|m: int| 0 <= m < n && all[m] == kept[j];
                assert(all[m].wf());
                assert(key_form(all[m].id));
            }
        }
        emptied
    }
}


/// An allocation that a storage holds is still held after another texture
/// is placed into one of the storages.
proof fn lemma_holds_after_placement(
    before: Seq<StorageModel>,
    after: Seq<StorageModel>,
    i: int,
    p: Placement,
    width: u16,
    height: u16,
    sid: u64,
    a: u32,
)
    requires
        FormattedTextures::placed_in_existing(before, after, i, p, width, height),
        FormattedTextures::holds(before, sid, a),
    ensures
        FormattedTextures::holds(after, sid, a),
{
    let j = choose|j: int|
        0 <= j < before.len() && before[j].id == sid && #[trigger] before[j].allocations.contains_key(a);
    assert(after[j].id == sid && after[j].allocations.contains_key(a));
}

/// An allocation that a storage holds is still held after a storage is
/// put among the storages.
proof fn lemma_holds_after_insert(
    before: Seq<StorageModel>,
    p: int,
    added: StorageModel,
    sid: u64,
    a: u32,
)
    requires
        0 <= p <= before.len(),
        FormattedTextures::holds(before, sid, a),
    ensures
        FormattedTextures::holds(before.insert(p, added), sid, a),
{
    let j = choose|j: int|
        0 <= j < before.len() && before[j].id == sid && #[trigger] before[j].allocations.contains_key(a);
    let after = before.insert(p, added);
    if j < p {
        assert(after[j] == before[j]);
    } else {
        assert(after[j + 1] == before[j]);
    }
}

/// An allocation that a storage holds is still held after a storage is
/// added.
pub proof fn lemma_holds_after_push(before: Seq<StorageModel>, added: StorageModel, sid: u64, a: u32)
    requires
        FormattedTextures::holds(before, sid, a),
    ensures
        FormattedTextures::holds(before.push(added), sid, a),
{
    let j = choose|j: int|
        0 <= j < before.len() && before[j].id == sid && #[trigger] before[j].allocations.contains_key(a);
    assert(before.push(added)[j] == before[j]);
}

/// The end of a frame never drops an atlas storage that holds a live
/// allocation: what a storage held before, the kept storages still hold.
pub proof fn lemma_holds_after_end_frame(s: Seq<StorageModel>, sid: u64, a: u32)
    requires
        forall|i: int| 0 <= i < s.len() ==> (#[trigger] s[i]).wf(),
        FormattedTextures::holds(s, sid, a),
    ensures
        FormattedTextures::holds(kept_storages(s), sid, a),
    decreases s.len(),
{
    let j = choose|j: int|
        0 <= j < s.len() && s[j].id == sid && #[trigger] s[j].allocations.contains_key(a);
    let rest = s.drop_last();
    if j == s.len() - 1 {
        let last = s.last();
        assert(last.allocations.dom().contains(a));
        vstd::set_lib::lemma_set_empty_equivalency_len(last.allocations.dom());
        assert(last.refcount > 0);
        let k = kept_storages(rest).push(last);
        assert(kept_storages(s) == k);
        assert(k[k.len() - 1] == last);
    } else {
        assert(rest[j] == s[j]);
        assert forall|i: int| 0 <= i < rest.len() implies (#[trigger] rest[i]).wf() by {
            assert(rest[i] == s[i]);
        }
        lemma_holds_after_end_frame(rest, sid, a);
        if s.last().refcount > 0 {
            lemma_holds_after_push(kept_storages(rest), s.last(), sid, a);
        }
    }
}

/// An allocation held after removing another one from the same storage
/// (or any allocation of another storage) is still held.
proof fn lemma_holds_after_release(
    before: Seq<StorageModel>,
    i: int,
    released: u32,
    sid: u64,
    a: u32,
)
    requires
        0 <= i < before.len(),
        FormattedTextures::holds(before, sid, a),
        before[i].id == sid ==> a != released,
        forall|x: int, y: int|
            0 <= x < y < before.len() ==> (#[trigger] before[x]).id != (#[trigger] before[y]).id,
    ensures
        FormattedTextures::holds(
            before.update(
                i,
                released_storage(before[i], released),
            ),
            sid,
            a,
        ),
{
    let j = choose|j: int|
        0 <= j < before.len() && before[j].id == sid && #[trigger] before[j].allocations.contains_key(a);
    let after = before.update(
        i,
        released_storage(before[i], released),
    );
    if j == i {
        assert(after[j].allocations.contains_key(a));
    } else {
        assert(after[j] == before[j]);
    }
    assert(after[j].id == sid && after[j].allocations.contains_key(a));
}

/// What is kept of a texture.
#[derive(Clone, Copy, Debug, PartialEq, Eq, Structural)]
pub struct TextureUsage {
    /// The storage that holds its pixels.
    pub storage: StorageId,
    /// Whether its pixels have been uploaded.
    pub is_ready: bool,
    /// The number of handles that refer to it.
    pub refcount: u32,
    /// Its allocation in the storage's atlas.
    pub atlas_id: u32,
    pub format: TextureFormat,
}

/// All textures and the atlas storages of the three formats.
pub struct TextureBook {
    textures: TextureMap,
    rgba: FormattedTextures,
    srgba: FormattedTextures,
    alpha: FormattedTextures,
}

impl TextureBook {
    /// The textures by id.
    pub closed spec fn textures(&self) -> Map<u64, TextureUsage> {
        self.textures@
    }

    /// The storages of one format.
    pub closed spec fn storages_of(&self, format: TextureFormat) -> Seq<StorageModel> {
        match format {
            TextureFormat::Rgba8Unorm => self.rgba.storages(),
            TextureFormat::Rgba8UnormSrgb => self.srgba.storages(),
            TextureFormat::R8Unorm => self.alpha.storages(),
        }
    }

    /// The atlas allocators of one format's storages, in the same order.
    pub closed spec fn atlases_of(&self, format: TextureFormat) -> Seq<AtlasAllocator> {
        match format {
            TextureFormat::Rgba8Unorm => self.rgba.atlases(),
            TextureFormat::Rgba8UnormSrgb => self.srgba.atlases(),
            TextureFormat::R8Unorm => self.alpha.atlases(),
        }
    }

    /// Where a new storage of one format goes among that format's storages.
    pub closed spec fn insert_position_of(&self, format: TextureFormat) -> int {
        match format {
            TextureFormat::Rgba8Unorm => self.rgba.insert_position(),
            TextureFormat::Rgba8UnormSrgb => self.srgba.insert_position(),
            TextureFormat::R8Unorm => self.alpha.insert_position(),
        }
    }

    /// Each format's storages are well formed; every texture has at least
    /// one handle, lives in a storage of its format that holds its
    /// allocation, and no two textures share an allocation.
    pub closed spec fn wf(&self) -> bool {
        &&& self.rgba.wf() && self.rgba.spec_format() == TextureFormat::Rgba8Unorm
        &&& self.srgba.wf() && self.srgba.spec_format() == TextureFormat::Rgba8UnormSrgb
        &&& self.alpha.wf() && self.alpha.spec_format() == TextureFormat::R8Unorm
        &&& forall|k: u64| #[trigger]
            self.textures@.contains_key(k) ==> {
                let t = self.textures@[k];
                &&& key_form(k)
                &&& t.refcount >= 1
                &&& t.storage.format == t.format
                &&& FormattedTextures::holds(self.storages_of(t.format), t.storage.id, t.atlas_id)
            }
        &&& forall|a: u64, b: u64|
            #[trigger] self.textures@.contains_key(a) && #[trigger] self.textures@.contains_key(b)
                && a != b ==> (self.textures@[a].storage, self.textures@[a].atlas_id) != (
                self.textures@[b].storage,
                self.textures@[b].atlas_id,
            )
        &&& self.textures@.dom().finite()
    }

    /// No texture and no storage.
    pub fn new() -> (r: Self)
        ensures
            r.wf(),
            r.textures() == Map::<u64, TextureUsage>::empty(),
            forall|f: TextureFormat| r.storages_of(f) == Seq::<StorageModel>::empty(),
    {
        TextureBook {
            textures: texture_map_new(),
            rgba: FormattedTextures::new(TextureFormat::Rgba8Unorm),
            srgba: FormattedTextures::new(TextureFormat::Rgba8UnormSrgb),
            alpha: FormattedTextures::new(TextureFormat::R8Unorm),
        }
    }

    /// The number of textures.
    pub fn len(&self) -> (r: usize)
        ensures
            r == self.textures().len(),
    {
        texture_map_len(&self.textures)
    }

    /// The texture under `id`, if any.
    fn lookup(&self, id: u64) -> (r: Option<TextureUsage>)
        requires
            self.wf(),
        ensures
            r == (if self.textures().contains_key(id) {
                Some(self.textures()[id])
            } else {
                None
            }),
    {
        if has_key_form(id) {
            texture_map_get(&self.textures, id)
        } else {
            None
        }
    }

    /// What is kept of a texture, if it exists.
    pub fn usage(&self, id: u64) -> (r: Option<TextureUsage>)
        requires
            self.wf(),
        ensures
            r is Some <==> self.textures().contains_key(id),
            r matches Some(u) ==> u == self.textures()[id],
    {
        match self.lookup(id) {
            Some(u) => Some(u),
            None => None,
        }
    }

    /// Whether a texture's pixels have been uploaded, if it exists.
    pub fn is_ready(&self, id: u64) -> (r: Option<bool>)
        requires
            self.wf(),
        ensures
            r is Some <==> self.textures().contains_key(id),
            r matches Some(b) ==> b == self.textures()[id].is_ready,
    {
        match self.lookup(id) {
            Some(u) => Some(u.is_ready),
            None => None,
        }
    }

    /// One more handle to a texture: its count goes up by one and what is
    /// kept of it is returned. None (and no change) when it does not exist.
    pub fn get(&mut self, id: u64) -> (r: Option<TextureUsage>)
        requires
            old(self).wf(),
            old(self).textures().contains_key(id) ==> old(self).textures()[id].refcount < u32::MAX,
        ensures
            forall|f: TextureFormat| #[trigger] final(self).insert_position_of(f) == old(self).insert_position_of(f),
            final(self).wf(),
            forall|f: TextureFormat| final(self).storages_of(f) == old(self).storages_of(f),
            r is Some <==> old(self).textures().contains_key(id),
            r is None ==> final(self).textures() == old(self).textures(),
            r matches Some(u) ==> {
                &&& u == (TextureUsage {
                    refcount: (old(self).textures()[id].refcount + 1) as u32,
                    ..old(self).textures()[id]
                })
                &&& final(self).textures() == old(self).textures().insert(id, u)
            },
    {
        match self.lookup(id) {
            Some(u) => {
                let updated = TextureUsage { refcount: u.refcount + 1, ..u };
                texture_map_set(&mut self.textures, id, updated);
                proof {
                    assert forall|k: u64| #[trigger] self.textures@.contains_key(k) implies {
                        let t = self.textures@[k];
                        &&& key_form(k)
                        &&& t.refcount >= 1
                        &&& t.storage.format == t.format
                        &&& FormattedTextures::holds(self.storages_of(t.format), t.storage.id, t.atlas_id)
                    } by {
                        assert(old(self).textures@.contains_key(k));
                    }
                    assert forall|a: u64, b: u64|
                        #[trigger] self.textures@.contains_key(a) && #[trigger] self.textures@.contains_key(b)
                            && a != b implies (self.textures@[a].storage, self.textures@[a].atlas_id) != (
                            self.textures@[b].storage,
                            self.textures@[b].atlas_id,
                        ) by {
                        assert(old(self).textures@.contains_key(a));
                        assert(old(self).textures@.contains_key(b));
                    }
                }
                Some(updated)
            },
            None => None,
        }
    }

    /// Mark a texture's pixels as uploaded (nothing when it no longer
    /// exists).
    pub fn mark_ready(&mut self, id: u64)
        requires
            old(self).wf(),
        ensures
            forall|f: TextureFormat| #[trigger] final(self).insert_position_of(f) == old(self).insert_position_of(f),
            final(self).wf(),
            forall|f: TextureFormat| final(self).storages_of(f) == old(self).storages_of(f),
            old(self).textures().contains_key(id) ==> final(self).textures() == old(
                self,
            ).textures().insert(id, TextureUsage { is_ready: true, ..old(self).textures()[id] }),
            !old(self).textures().contains_key(id) ==> final(self).textures() == old(self).textures(),
    {
        match self.lookup(id) {
            Some(u) => {
                let updated = TextureUsage { is_ready: true, ..u };
                texture_map_set(&mut self.textures, id, updated);
                proof {
                    assert forall|k: u64| #[trigger] self.textures@.contains_key(k) implies {
                        let t = self.textures@[k];
                        &&& key_form(k)
                        &&& t.refcount >= 1
                        &&& t.storage.format == t.format
                        &&& FormattedTextures::holds(self.storages_of(t.format), t.storage.id, t.atlas_id)
                    } by {
                        assert(old(self).textures@.contains_key(k));
                    }
                    assert forall|a: u64, b: u64|
                        #[trigger] self.textures@.contains_key(a) && #[trigger] self.textures@.contains_key(b)
                            && a != b implies (self.textures@[a].storage, self.textures@[a].atlas_id) != (
                            self.textures@[b].storage,
                            self.textures@[b].atlas_id,
                        ) by {
                        assert(old(self).textures@.contains_key(a));
                        assert(old(self).textures@.contains_key(b));
                    }
                }
            },
            None => {},
        }
    }
    /// The usage a newly registered texture gets.
    pub open spec fn fresh_usage(p: Placement, format: TextureFormat) -> TextureUsage {
        TextureUsage { storage: p.storage, is_ready: false, refcount: 1, atlas_id: p.alloc, format }
    }

    /// Register a `width` by `height` texture of `format` with one handle:
    /// place it in an atlas storage of its format and give it a new id.
    /// The caller uploads its pixels (and creates the storage's GPU
    /// texture when the placement says it is new). None, with nothing
    /// changed, only when the texture map is full (`u32::MAX - 1` textures) or
    /// storage ids ran out.
    pub fn register(&mut self, width: u16, height: u16, format: TextureFormat) -> (r: Option<
        (u64, Placement),
    >)
        requires
            old(self).wf(),
            width > 0,
            height > 0,
        ensures
            r is None ==> forall|f: TextureFormat| #[trigger] final(self).insert_position_of(f)
                == old(self).insert_position_of(f),
            r matches Some((_, p)) ==> {
                &&& forall|f: TextureFormat| f != format ==> #[trigger] final(self).insert_position_of(f)
                    == old(self).insert_position_of(f)
                &&& !p.new_storage ==> final(self).insert_position_of(format) == old(
                    self,
                ).insert_position_of(format)
            },
            final(self).wf(),
            old(self).textures().len() < u32::MAX - 1 && old(self).storages_of(format).len()
                < u32::MAX - 1 ==> r is Some,
            r is None ==> final(self).textures() == old(self).textures() && forall|f: TextureFormat|
                final(self).storages_of(f) == old(self).storages_of(f),
            r matches Some((id, p)) ==> {
                &&& !old(self).textures().contains_key(id)
                &&& final(self).textures() == old(self).textures().insert(id, Self::fresh_usage(p, format))
                &&& p.storage.format == format
                &&& placed_within(p.rect, width as int, height as int, (p.atlas_width, p.atlas_height))
                &&& forall|f: TextureFormat| f != format ==> final(self).storages_of(f) == old(self).storages_of(f)
                &&& p.new_storage ==> {
                    &&& FormattedTextures::none_takes(
                        old(self).storages_of(format),
                        old(self).atlases_of(format),
                        width,
                        height,
                    )
                    &&& (p.atlas_width, p.atlas_height) == FormattedTextures::new_extent(width, height)
                    &&& id_unused(old(self).storages_of(format), p.storage.id)
                    &&& 0 <= old(self).insert_position_of(format) <= old(self).storages_of(format).len()
                    &&& final(self).storages_of(format) == old(self).storages_of(format).insert(
                        old(self).insert_position_of(format),
                        FormattedTextures::new_storage_model(p.storage.id, p.alloc, p.rect, width, height),
                    )
                }
                &&& !p.new_storage ==> exists|i: int|
                    {
                        &&& FormattedTextures::placed_in_existing(
                            old(self).storages_of(format),
                            final(self).storages_of(format),
                            i,
                            p,
                            width,
                            height,
                        )
                        &&& FormattedTextures::first_taker(
                            old(self).storages_of(format),
                            old(self).atlases_of(format),
                            i,
                            width,
                            height,
                        )
                        &&& atlas_allocation(old(self).atlases_of(format)[i], width as i32, height as i32)
                            == Some((p.alloc, p.rect))
                    }
            },
    {
        if texture_map_len(&self.textures) >= 0xffff_fffeusize {
            return None;
        }
        let ghost before = self.storages_of(format);
        let ghost atlases_before = self.atlases_of(format);
        let ghost manager_before = match format {
            TextureFormat::Rgba8Unorm => self.rgba,
            TextureFormat::Rgba8UnormSrgb => self.srgba,
            TextureFormat::R8Unorm => self.alpha,
        };
        let placed = match format {
            TextureFormat::Rgba8Unorm => self.rgba.allocate(width, height),
            TextureFormat::Rgba8UnormSrgb => self.srgba.allocate(width, height),
            TextureFormat::R8Unorm => self.alpha.allocate(width, height),
        };
        match placed {
            Some(p) => {
                let usage = TextureUsage {
                    storage: p.storage,
                    is_ready: false,
                    refcount: 1,
                    atlas_id: p.alloc,
                    format,
                };
                let id = texture_map_insert(&mut self.textures, usage);
                proof {
                    let after = self.storages_of(format);
                    assert(manager_before.storages() == before);
                    assert(manager_before.atlases() == atlases_before);
                    if p.new_storage {
                        assert(FormattedTextures::none_takes(before, atlases_before, width, height));
                    } else {
                        assert(exists|i: int|
                            {
                                &&& FormattedTextures::placed_in_existing(before, after, i, p, width, height)
                                &&& FormattedTextures::first_taker(before, atlases_before, i, width, height)
                                &&& atlas_allocation(atlases_before[i], width as i32, height as i32)
                                    == Some((p.alloc, p.rect))
                            });
                    }
                    let added = FormattedTextures::new_storage_model(p.storage.id, p.alloc, p.rect, width, height);
                    let i = if p.new_storage {
                        manager_before.insert_position()
                    } else {
                        choose|i: int|
                            FormattedTextures::placed_in_existing(before, after, i, p, width, height)
                    };
                    // The new texture is held.
                    if p.new_storage {
                        assert(after[i].allocations.contains_key(p.alloc));
                    } else {
                        assert(after[i].allocations.contains_key(p.alloc));
                    }
                    assert(FormattedTextures::holds(after, p.storage.id, p.alloc));
                    // Textures that were held stay held, and none shares the
                    // new allocation.
                    assert forall|k: u64| #[trigger] old(self).textures@.contains_key(k) implies {
                        let t = old(self).textures@[k];
                        &&& FormattedTextures::holds(self.storages_of(t.format), t.storage.id, t.atlas_id)
                        &&& (t.storage, t.atlas_id) != (p.storage, p.alloc)
                    } by {
                        let t = old(self).textures@[k];
                        if t.format == format {
                            let j = choose|j: int|
                                0 <= j < before.len() && before[j].id == t.storage.id
                                    && #[trigger] before[j].allocations.contains_key(t.atlas_id);
                            if p.new_storage {
                                lemma_holds_after_insert(before, i, added, t.storage.id, t.atlas_id);
                                assert(before[j].id != p.storage.id);
                            } else {
                                lemma_holds_after_placement(
                                    before,
                                    after,
                                    i,
                                    p,
                                    width,
                                    height,
                                    t.storage.id,
                                    t.atlas_id,
                                );
                                if t.storage.id == p.storage.id {
                                    if j != i {
                                        assert(before[j].id != before[i].id);
                                    }
                                }
                            }
                        }
                    }
                    assert forall|k: u64| #[trigger] self.textures@.contains_key(k) implies {
                        let t = self.textures@[k];
                        &&& key_form(k)
                        &&& t.refcount >= 1
                        &&& t.storage.format == t.format
                        &&& FormattedTextures::holds(self.storages_of(t.format), t.storage.id, t.atlas_id)
                    } by {
                        if k != id {
                            assert(old(self).textures@.contains_key(k));
                        }
                    }
                    assert forall|a: u64, b: u64|
                        #[trigger] self.textures@.contains_key(a) && #[trigger] self.textures@.contains_key(b)
                            && a != b implies (self.textures@[a].storage, self.textures@[a].atlas_id) != (
                            self.textures@[b].storage,
                            self.textures@[b].atlas_id,
                        ) by {
                        if a != id {
                            assert(old(self).textures@.contains_key(a));
                        }
                        if b != id {
                            assert(old(self).textures@.contains_key(b));
                        }
                    }
                }
                Some((id, p))
            },
            None => None,
        }
    }
    /// The storages of `format` after allocation `alloc` of storage `sid`
    /// is released from `before`.
    pub open spec fn released_from(before: Seq<StorageModel>, after: Seq<StorageModel>, sid: u64, alloc: u32) -> bool {
        exists|i: int|
            0 <= i < before.len() && before[i].id == sid && #[trigger] before.update(
                i,
                released_storage(before[i], alloc),
            ) == after
    }

    /// Drop one handle to a texture. When it was the last, the texture is
    /// forgotten, its atlas allocation freed, and true is returned. An id
    /// that does not exist changes nothing.
    pub fn release(&mut self, id: u64) -> (r: bool)
        requires
            old(self).wf(),
        ensures
            forall|f: TextureFormat| #[trigger] final(self).insert_position_of(f) == old(self).insert_position_of(f),
            final(self).wf(),
            !old(self).textures().contains_key(id) ==> !r && final(self).textures() == old(
                self,
            ).textures() && forall|f: TextureFormat|
                final(self).storages_of(f) == old(self).storages_of(f),
            old(self).textures().contains_key(id) && old(self).textures()[id].refcount > 1 ==> {
                &&& !r
                &&& final(self).textures() == old(self).textures().insert(
                    id,
                    TextureUsage {
                        refcount: (old(self).textures()[id].refcount - 1) as u32,
                        ..old(self).textures()[id]
                    },
                )
                &&& forall|f: TextureFormat| final(self).storages_of(f) == old(self).storages_of(f)
            },
            old(self).textures().contains_key(id) && old(self).textures()[id].refcount == 1 ==> {
                let t = old(self).textures()[id];
                &&& r
                &&& final(self).textures() == old(self).textures().remove(id)
                &&& forall|f: TextureFormat| f != t.format ==> final(self).storages_of(f) == old(self).storages_of(f)
                &&& Self::released_from(
                    old(self).storages_of(t.format),
                    final(self).storages_of(t.format),
                    t.storage.id,
                    t.atlas_id,
                )
            },
    {
        let usage = match self.lookup(id) {
            Some(u) => u,
            None => {
                return false;
            },
        };
        if usage.refcount > 1 {
            let updated = TextureUsage { refcount: usage.refcount - 1, ..usage };
            texture_map_set(&mut self.textures, id, updated);
            proof {
                assert forall|k: u64| #[trigger] self.textures@.contains_key(k) implies {
                    let t = self.textures@[k];
                    &&& key_form(k)
                    &&& t.refcount >= 1
                    &&& t.storage.format == t.format
                    &&& FormattedTextures::holds(self.storages_of(t.format), t.storage.id, t.atlas_id)
                } by {
                    assert(old(self).textures@.contains_key(k));
                }
                assert forall|a: u64, b: u64|
                    #[trigger] self.textures@.contains_key(a) && #[trigger] self.textures@.contains_key(b)
                        && a != b implies (self.textures@[a].storage, self.textures@[a].atlas_id) != (
                        self.textures@[b].storage,
                        self.textures@[b].atlas_id,
                    ) by {
                    assert(old(self).textures@.contains_key(a));
                    assert(old(self).textures@.contains_key(b));
                }
            }
            return false;
        }
        texture_map_remove(&mut self.textures, id);
        let ghost before = self.storages_of(usage.format);
        proof {
            assert(old(self).textures@.contains_key(id));
        }
        match usage.format {
            TextureFormat::Rgba8Unorm => self.rgba.release(usage.storage.id, usage.atlas_id),
            TextureFormat::Rgba8UnormSrgb => self.srgba.release(usage.storage.id, usage.atlas_id),
            TextureFormat::R8Unorm => self.alpha.release(usage.storage.id, usage.atlas_id),
        }
        proof {
            let after = self.storages_of(usage.format);
            let i = choose|i: int|
                0 <= i < before.len() && before[i].id == usage.storage.id && #[trigger] before.update(
                    i,
                    released_storage(before[i], usage.atlas_id),
                ) == after;
            assert forall|k: u64| #[trigger] self.textures@.contains_key(k) implies {
                let t = self.textures@[k];
                &&& key_form(k)
                &&& t.refcount >= 1
                &&& t.storage.format == t.format
                &&& FormattedTextures::holds(self.storages_of(t.format), t.storage.id, t.atlas_id)
            } by {
                assert(old(self).textures@.contains_key(k));
                let t = self.textures@[k];
                assert(k != id);
                assert((t.storage, t.atlas_id) != (usage.storage, usage.atlas_id));
                if t.format == usage.format {
                    lemma_holds_after_release(before, i, usage.atlas_id, t.storage.id, t.atlas_id);
                }
            }
            assert forall|a: u64, b: u64|
                #[trigger] self.textures@.contains_key(a) && #[trigger] self.textures@.contains_key(b)
                    && a != b implies (self.textures@[a].storage, self.textures@[a].atlas_id) != (
                    self.textures@[b].storage,
                    self.textures@[b].atlas_id,
                ) by {
                assert(old(self).textures@.contains_key(a));
                assert(old(self).textures@.contains_key(b));
            }
        }
        true
    }

    /// End the frame: drop, in each format, the storages that hold no
    /// texture, and return their ids (rgba, then sRGB rgba, then alpha) so
    /// their GPU textures can be destroyed.
    pub fn end_frame(&mut self) -> (r: Vec<StorageId>)
        requires
            old(self).wf(),
        ensures
            final(self).wf(),
            final(self).textures() == old(self).textures(),
            forall|f: TextureFormat| #[trigger] final(self).storages_of(f) == kept_storages(old(self).storages_of(f)),
            r@ == Self::storage_ids(TextureFormat::Rgba8Unorm, emptied_storages(old(self).storages_of(TextureFormat::Rgba8Unorm)))
                + Self::storage_ids(TextureFormat::Rgba8UnormSrgb, emptied_storages(old(self).storages_of(TextureFormat::Rgba8UnormSrgb)))
                + Self::storage_ids(TextureFormat::R8Unorm, emptied_storages(old(self).storages_of(TextureFormat::R8Unorm))),
    {
        let rgba = self.rgba.end_frame();
        let srgba = self.srgba.end_frame();
        let alpha = self.alpha.end_frame();
        let mut r: Vec<StorageId> = Vec::new();
        Self::append_ids(&mut r, &rgba, TextureFormat::Rgba8Unorm);
        Self::append_ids(&mut r, &srgba, TextureFormat::Rgba8UnormSrgb);
        Self::append_ids(&mut r, &alpha, TextureFormat::R8Unorm);
        proof {
            assert forall|k: u64| #[trigger] self.textures@.contains_key(k) implies {
                let t = self.textures@[k];
                &&& key_form(k)
                &&& t.refcount >= 1
                &&& t.storage.format == t.format
                &&& FormattedTextures::holds(self.storages_of(t.format), t.storage.id, t.atlas_id)
            } by {
                let t = self.textures@[k];
                assert(old(self).textures@.contains_key(k));
                let s = old(self).storages_of(t.format);
                assert(forall|i: int| 0 <= i < s.len() ==> (#[trigger] s[i]).wf());
                lemma_holds_after_end_frame(s, t.storage.id, t.atlas_id);
            }
            assert(r@ =~= Self::storage_ids(TextureFormat::Rgba8Unorm, emptied_storages(old(self).storages_of(TextureFormat::Rgba8Unorm)))
                + Self::storage_ids(TextureFormat::Rgba8UnormSrgb, emptied_storages(old(self).storages_of(TextureFormat::Rgba8UnormSrgb)))
                + Self::storage_ids(TextureFormat::R8Unorm, emptied_storages(old(self).storages_of(TextureFormat::R8Unorm))));
        }
        r
    }

    /// Storage ids of one format.
    pub open spec fn storage_ids(format: TextureFormat, ids: Seq<u64>) -> Seq<StorageId> {
        ids.map_values(|id: u64| StorageId { id, format })
    }

    /// Append the storage ids `ids` of `format` to `out`.
    fn append_ids(out: &mut Vec<StorageId>, ids: &Vec<u64>, format: TextureFormat)
        ensures
            final(out)@ == old(out)@ + Self::storage_ids(format, ids@),
    {
        let ghost start = out@;
        let mut i: usize = 0;
        while i < ids.len()
            invariant
                i <= ids@.len(),
                out@ == start + Self::storage_ids(format, ids@.subrange(0, i as int)),
            decreases ids@.len() - i,
        {
            out.push(StorageId { id: ids[i], format });
            proof {
                assert(Self::storage_ids(format, ids@.subrange(0, i + 1)) =~= Self::storage_ids(
                    format,
                    ids@.subrange(0, i as int),
                ).push(StorageId { id: ids@[i as int], format }));
            }
            i += 1;
        }
        proof {
            assert(ids@.subrange(0, ids@.len() as int) =~= ids@);
        }
    }
}


/// Registering a texture and then dropping its only handle leaves the
/// textures as they were.
pub proof fn lemma_register_then_release(m: Map<u64, TextureUsage>, id: u64, p: Placement, format: TextureFormat)
    requires
        !m.contains_key(id),
    ensures
        m.insert(id, TextureBook::fresh_usage(p, format)).remove(id) == m,
        TextureBook::fresh_usage(p, format).refcount == 1,
{
    assert(m.insert(id, TextureBook::fresh_usage(p, format)).remove(id) =~= m);
}

/// Taking a handle to a texture and dropping it again leaves the textures
/// as they were.
pub proof fn lemma_get_then_release(m: Map<u64, TextureUsage>, id: u64)
    requires
        m.contains_key(id),
        1 <= m[id].refcount < u32::MAX,
    ensures
        ({
            let taken = m.insert(id, TextureUsage { refcount: (m[id].refcount + 1) as u32, ..m[id] });
            &&& taken[id].refcount > 1
            &&& taken.insert(id, TextureUsage { refcount: (taken[id].refcount - 1) as u32, ..taken[id] })
                == m
        }),
{
    let taken = m.insert(id, TextureUsage { refcount: (m[id].refcount + 1) as u32, ..m[id] });
    assert(TextureUsage { refcount: (taken[id].refcount - 1) as u32, ..taken[id] } == m[id]);
    assert(taken.insert(id, TextureUsage { refcount: (taken[id].refcount - 1) as u32, ..taken[id] })
        =~= m);
}

} // verus!
