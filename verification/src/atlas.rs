//! Rectangle packing into texture atlases, done by the guillotiere atlas
//! allocator.
//!
//! The allocator is opaque here: what it holds is named by
//! [`atlas_allocations`] (the live allocations by id),
//! [`atlas_extent`] (the size it was made with), [`atlas_node_slots`]
//! (the length of its node table) and [`atlas_nodes_in_use`] (the slots
//! in its tree, the others being on its list of unused nodes), and what
//! it decides by [`atlas_allocation`].
//!
//! An allocation id is the index of the allocation's node plus a
//! generation shifted left by 24 bits, so ids are unique only while the
//! node table has at most 2^24 slots; every wrapper below keeps to that.
//! The table grows only when no unused node is left, so it stays within
//! that bound as long as the nodes in use do.

use vstd::prelude::*;
use guillotiere::AtlasAllocator;

verus! {

#[verifier::external_type_specification]
#[verifier::external_body]
pub struct ExAtlasAllocator(AtlasAllocator);

/// A rectangle of an atlas by its corners: `x0, y0` inclusive, `x1, y1`
/// exclusive.
#[derive(Clone, Copy, Debug, PartialEq, Eq, Structural)]
pub struct AtlasRect {
    pub x0: i32,
    pub y0: i32,
    pub x1: i32,
    pub y1: i32,
}

/// The live allocations of an atlas allocator, by serialized allocation id
/// (one id per allocated node, while the node table has at most
/// [`ATLAS_ID_SLOTS`] slots).
pub uninterp spec fn atlas_allocations(atlas: AtlasAllocator) -> Map<u32, AtlasRect>;

/// The width and height an atlas allocator was made with.
pub uninterp spec fn atlas_extent(atlas: AtlasAllocator) -> (i32, i32);

/// The length of an atlas allocator's node table. It never shrinks: freed
/// nodes are kept for reuse.
pub uninterp spec fn atlas_node_slots(atlas: AtlasAllocator) -> nat;

/// The number of node-table slots in an atlas allocator's tree; the other
/// slots are on its list of unused nodes, which new nodes are taken from
/// first.
pub uninterp spec fn atlas_nodes_in_use(atlas: AtlasAllocator) -> nat;

/// What `AtlasAllocator::allocate` returns for an allocator in this state
/// and a `width` by `height` request (the allocator is deterministic): the
/// serialized id and rectangle of the allocation, or none.
pub uninterp spec fn atlas_allocation(atlas: AtlasAllocator, width: i32, height: i32) -> Option<
    (u32, AtlasRect),
>;

/// Node slots whose indices fit in the 24 bits of an allocation id.
pub const ATLAS_ID_SLOTS: u64 = 0x100_0000;

/// The most nodes one allocation adds to an atlas's node table.
pub const NODES_PER_ALLOCATION: u64 = 4;

/// No allocation.
pub open spec fn no_allocations() -> Map<u32, AtlasRect> {
    Map::empty()
}

/// Whether `r` has exactly the size `width` by `height` and lies within an
/// atlas of size `extent`.
pub open spec fn placed_within(r: AtlasRect, width: int, height: int, extent: (i32, i32)) -> bool {
    &&& r.x1 - r.x0 == width
    &&& r.y1 - r.y0 == height
    &&& 0 <= r.x0
    &&& 0 <= r.y0
    &&& r.x1 <= extent.0
    &&& r.y1 <= extent.1
}

/// `AtlasAllocator::new`: an allocator for an atlas of the given size,
/// with nothing allocated. (It panics unless both sides are positive.)
#[verifier::external_body]
pub(crate) fn atlas_new(width: i32, height: i32) -> (r: AtlasAllocator)
    requires
        width > 0,
        height > 0,
    ensures
        atlas_allocations(r) == no_allocations(),
        atlas_extent(r) == (width, height),
        atlas_node_slots(r) == 1,
        atlas_nodes_in_use(r) == 1,
{
    AtlasAllocator::new(guillotiere::size2(width, height))
}

/// `AtlasAllocator::size`: the size the atlas was made with.
#[verifier::external_body]
pub(crate) fn atlas_size(atlas: &AtlasAllocator) -> (r: (i32, i32))
    ensures
        r == atlas_extent(*atlas),
{
    let size = atlas.size();
    (size.width, size.height)
}

/// `AtlasAllocator::allocate`: place a `width` by `height` rectangle. The
/// result is [`atlas_allocation`] of the allocator before the call. On
/// success the rectangle has exactly the requested size (the default
/// alignment is one pixel), lies within the atlas and gets an id that no
/// live allocation has (the node table being small enough for ids to be
/// unique); on failure no allocation changes and no node is added. On
/// success at most four nodes come into use (split, container, allocated
/// and leftover nodes), taken from the unused ones first, so the table
/// grows only to the number of nodes in use. An
/// atlas with no live allocation is one free rectangle covering the whole
/// atlas (as made by `new`, and again once everything is freed, since freed
/// neighbours are merged), so it takes any rectangle that fits its size.
/// Otherwise, whether it succeeds depends on how the atlas is divided,
/// which only the name states.
#[verifier::external_body]
pub(crate) fn atlas_allocate(atlas: &mut AtlasAllocator, width: i32, height: i32) -> (r: Option<
    (u32, AtlasRect),
>)
    requires
        width > 0,
        height > 0,
        atlas_node_slots(*old(atlas)) <= ATLAS_ID_SLOTS,
        atlas_nodes_in_use(*old(atlas)) + NODES_PER_ALLOCATION <= ATLAS_ID_SLOTS,
    ensures
        r == atlas_allocation(*old(atlas), width, height),
        atlas_extent(*final(atlas)) == atlas_extent(*old(atlas)),
        atlas_nodes_in_use(*old(atlas)) <= atlas_nodes_in_use(*final(atlas)) <= atlas_nodes_in_use(
            *old(atlas),
        ) + NODES_PER_ALLOCATION,
        atlas_node_slots(*final(atlas)) == if atlas_node_slots(*old(atlas)) >= atlas_nodes_in_use(
            *final(atlas),
        ) {
            atlas_node_slots(*old(atlas))
        } else {
            atlas_nodes_in_use(*final(atlas))
        },
        match r {
            Some((id, rect)) => {
                &&& !atlas_allocations(*old(atlas)).contains_key(id)
                &&& atlas_allocations(*final(atlas)) == atlas_allocations(*old(atlas)).insert(
                    id,
                    rect,
                )
                &&& placed_within(rect, width as int, height as int, atlas_extent(*old(atlas)))
            },
            None => {
                &&& atlas_allocations(*final(atlas)) == atlas_allocations(*old(atlas))
                &&& atlas_node_slots(*final(atlas)) == atlas_node_slots(*old(atlas))
                &&& atlas_nodes_in_use(*final(atlas)) == atlas_nodes_in_use(*old(atlas))
            },
        },
        atlas_allocations(*old(atlas)) == no_allocations() && width <= atlas_extent(*old(atlas)).0
            && height <= atlas_extent(*old(atlas)).1 ==> r is Some,
{
    match atlas.allocate(guillotiere::size2(width, height)) {
        Some(allocation) => Some(
            (
                allocation.id.serialize(),
                AtlasRect {
                    x0: allocation.rectangle.min.x,
                    y0: allocation.rectangle.min.y,
                    x1: allocation.rectangle.max.x,
                    y1: allocation.rectangle.max.y,
                },
            ),
        ),
        None => None,
    }
}

/// `AtlasAllocator::deallocate`: free a live allocation; no node is added,
/// and nodes that freed neighbours merge away go to the unused list. Once
/// no allocation is left, the tree is the root alone. (It panics for an id
/// that is not live; with a node table small enough for ids to be unique,
/// a live id names exactly its node.)
#[verifier::external_body]
pub(crate) fn atlas_deallocate(atlas: &mut AtlasAllocator, id: u32)
    requires
        atlas_allocations(*old(atlas)).contains_key(id),
        atlas_node_slots(*old(atlas)) <= ATLAS_ID_SLOTS,
    ensures
        atlas_extent(*final(atlas)) == atlas_extent(*old(atlas)),
        atlas_node_slots(*final(atlas)) == atlas_node_slots(*old(atlas)),
        atlas_nodes_in_use(*final(atlas)) <= atlas_nodes_in_use(*old(atlas)),
        atlas_allocations(*final(atlas)) == atlas_allocations(*old(atlas)).remove(id),
        atlas_allocations(*final(atlas)) == no_allocations() ==> atlas_nodes_in_use(*final(atlas))
            == 1,
{
    atlas.deallocate(guillotiere::AllocId::deserialize(id))
}

} // verus!
