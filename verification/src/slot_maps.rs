//! Maps that make their own keys, kept by the slotmap crate.
//!
//! A key is handed out as its 64-bit form (`KeyData::as_ffi`): the slot's
//! version in the high half, which is odd while the slot is occupied, and
//! the slot's index in the low half. The map is opaque here: what it holds
//! is named by a spec function, and every operation used is a wrapper whose
//! contract speaks of that name.

use vstd::prelude::*;
use slotmap::DefaultKey;
use slotmap::Key;
use slotmap::KeyData;
use slotmap::SlotMap;
use crate::texture::AtlasStorage;
use crate::texture::TextureUsage;

verus! {

/// Whether `k` has the form of a key of an occupied slot (odd version).
pub open spec fn key_form(k: u64) -> bool {
    (k / 0x1_0000_0000) % 2 == 1
}

/// Whether `k` has the form of a key of an occupied slot.
pub fn has_key_form(k: u64) -> (r: bool)
    ensures
        r == key_form(k),
{
    proof {
        assert((k >> 32u64) == k / 0x1_0000_0000) by (bit_vector);
    }
    (k >> 32u64) % 2 == 1
}

/// Textures by key.
#[verifier::external_body]
pub struct TextureMap {
    inner: SlotMap<DefaultKey, TextureUsage>,
}

/// The textures a [`TextureMap`] holds, by key.
pub uninterp spec fn texture_map_items(map: TextureMap) -> Map<u64, TextureUsage>;

impl View for TextureMap {
    type V = Map<u64, TextureUsage>;

    open spec fn view(&self) -> Map<u64, TextureUsage> {
        texture_map_items(*self)
    }
}

/// No texture.
pub open spec fn no_textures() -> Map<u64, TextureUsage> {
    Map::empty()
}

/// `SlotMap::new`: no texture.
#[verifier::external_body]
pub(crate) fn texture_map_new() -> (r: TextureMap)
    ensures
        texture_map_items(r) == no_textures(),
{
    TextureMap { inner: SlotMap::new() }
}

/// `SlotMap::len`: the number of textures.
#[verifier::external_body]
pub(crate) fn texture_map_len(map: &TextureMap) -> (r: usize)
    ensures
        r == texture_map_items(*map).len(),
{
    map.inner.len()
}

/// `SlotMap::get`, with the key rebuilt by `KeyData::from_ffi` (exact for
/// a key of an occupied slot's form): the texture under `k`, if any.
#[verifier::external_body]
pub(crate) fn texture_map_get(map: &TextureMap, k: u64) -> (r: Option<TextureUsage>)
    requires
        key_form(k),
    ensures
        r == (if texture_map_items(*map).contains_key(k) {
            Some(texture_map_items(*map)[k])
        } else {
            None
        }),
{
    map.inner.get(DefaultKey::from(KeyData::from_ffi(k))).copied()
}

/// `SlotMap::insert`: the texture is stored under a key no texture has,
/// of an occupied slot's form. (It panics when the map holds
/// `u32::MAX - 1` entries: its slot table, which keeps one unused slot at
/// the front, is then full.)
#[verifier::external_body]
pub(crate) fn texture_map_insert(map: &mut TextureMap, usage: TextureUsage) -> (r: u64)
    requires
        texture_map_items(*old(map)).len() < u32::MAX - 1,
    ensures
        key_form(r),
        !texture_map_items(*old(map)).contains_key(r),
        texture_map_items(*final(map)) == texture_map_items(*old(map)).insert(r, usage),
{
    map.inner.insert(usage).data().as_ffi()
}

/// `IndexMut` of `SlotMap`: the texture under `k` is replaced. (It panics
/// for a key not in the map.)
#[verifier::external_body]
pub(crate) fn texture_map_set(map: &mut TextureMap, k: u64, usage: TextureUsage)
    requires
        texture_map_items(*old(map)).contains_key(k),
        key_form(k),
    ensures
        texture_map_items(*final(map)) == texture_map_items(*old(map)).insert(k, usage),
{
    map.inner[DefaultKey::from(KeyData::from_ffi(k))] = usage;
}

/// `SlotMap::remove`: the texture under `k` is dropped.
#[verifier::external_body]
pub(crate) fn texture_map_remove(map: &mut TextureMap, k: u64)
    requires
        texture_map_items(*old(map)).contains_key(k),
        key_form(k),
    ensures
        texture_map_items(*final(map)) == texture_map_items(*old(map)).remove(k),
{
    map.inner.remove(DefaultKey::from(KeyData::from_ffi(k)));
}

/// Atlas storages by key.
#[verifier::external_body]
pub struct StorageMap {
    inner: SlotMap<DefaultKey, AtlasStorage>,
}

/// The storages a [`StorageMap`] holds with their keys, in the order its
/// iterators give them (the order of their slots).
pub uninterp spec fn storage_map_items(map: StorageMap) -> Seq<(u64, AtlasStorage)>;

/// Where in that order `SlotMap::insert` puts the next storage: the slot
/// it takes is the one most recently vacated, else a new one after all
/// others.
pub uninterp spec fn storage_map_insert_position(map: StorageMap) -> int;

/// No storage.
pub open spec fn no_storages() -> Seq<(u64, AtlasStorage)> {
    Seq::empty()
}

/// The keys of `items`, in order.
pub open spec fn storage_keys(items: Seq<(u64, AtlasStorage)>) -> Seq<u64> {
    items.map_values(|e: (u64, AtlasStorage)| e.0)
}

/// Whether some entry of `items` has key `k`.
pub open spec fn has_key(items: Seq<(u64, AtlasStorage)>, k: u64) -> bool {
    exists|i: int| 0 <= i < items.len() && items[i].0 == k
}

/// The position of an entry of `items` with key `k`.
pub open spec fn key_position(items: Seq<(u64, AtlasStorage)>, k: u64) -> int {
    choose|i: int| 0 <= i < items.len() && items[i].0 == k
}

/// `SlotMap::new`: no storage.
#[verifier::external_body]
pub(crate) fn storage_map_new() -> (r: StorageMap)
    ensures
        storage_map_items(r) == no_storages(),
{
    StorageMap { inner: SlotMap::new() }
}

/// `SlotMap::len`: the number of storages.
#[verifier::external_body]
pub(crate) fn storage_map_len(map: &StorageMap) -> (r: usize)
    ensures
        r == storage_map_items(*map).len(),
{
    map.inner.len()
}

/// `SlotMap::keys`, each key in its 64-bit form: the keys in order.
#[verifier::external_body]
pub(crate) fn storage_map_keys(map: &StorageMap) -> (r: Vec<u64>)
    ensures
        r@ == storage_keys(storage_map_items(*map)),
{
    map.inner.keys().map(|k| k.data().as_ffi()).collect()
}

/// `Index` of `SlotMap`: the storage under `k`. (It panics for a key not
/// in the map.)
#[verifier::external_body]
pub(crate) fn storage_map_get(map: &StorageMap, k: u64) -> (r: &AtlasStorage)
    requires
        has_key(storage_map_items(*map), k),
        key_form(k),
    ensures
        *r == storage_map_items(*map)[key_position(storage_map_items(*map), k)].1,
{
    &map.inner[DefaultKey::from(KeyData::from_ffi(k))]
}

/// `IndexMut` of `SlotMap`: the storage under `k`, to change in place; no
/// key and no slot changes. (It panics for a key not in the map.)
#[verifier::external_body]
pub(crate) fn storage_map_get_mut(map: &mut StorageMap, k: u64) -> (r: &mut AtlasStorage)
    requires
        has_key(storage_map_items(*old(map)), k),
        key_form(k),
    ensures
        *r == storage_map_items(*old(map))[key_position(storage_map_items(*old(map)), k)].1,
        storage_map_items(*final(map)) == storage_map_items(*old(map)).update(
            key_position(storage_map_items(*old(map)), k),
            (k, *final(r)),
        ),
        storage_map_insert_position(*final(map)) == storage_map_insert_position(*old(map)),
{
    &mut map.inner[DefaultKey::from(KeyData::from_ffi(k))]
}

/// `SlotMap::insert`: the storage is put at [`storage_map_insert_position`]
/// under a key no storage has, of an occupied slot's form. (It panics when
/// the map holds `u32::MAX - 1` entries.)
#[verifier::external_body]
pub(crate) fn storage_map_insert(map: &mut StorageMap, storage: AtlasStorage) -> (r: u64)
    requires
        storage_map_items(*old(map)).len() < u32::MAX - 1,
    ensures
        key_form(r),
        !storage_keys(storage_map_items(*old(map))).contains(r),
        0 <= storage_map_insert_position(*old(map)) <= storage_map_items(*old(map)).len(),
        storage_map_items(*final(map)) == storage_map_items(*old(map)).insert(
            storage_map_insert_position(*old(map)),
            (r, storage),
        ),
{
    map.inner.insert(storage).data().as_ffi()
}

/// `SlotMap::remove`: the storage under `k` is dropped.
#[verifier::external_body]
pub(crate) fn storage_map_remove(map: &mut StorageMap, k: u64)
    requires
        has_key(storage_map_items(*old(map)), k),
        key_form(k),
    ensures
        storage_map_items(*final(map)) == storage_map_items(*old(map)).remove(
            key_position(storage_map_items(*old(map)), k),
        ),
{
    map.inner.remove(DefaultKey::from(KeyData::from_ffi(k)));
}

} // verus!
