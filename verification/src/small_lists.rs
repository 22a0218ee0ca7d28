//! Short lists of the layout tree and the style registry, kept inline by
//! the smallvec crate.
//!
//! Each list is a `SmallVec` in a private field, opaque here; what it
//! holds is named by a spec function, and every operation the tree uses
//! is a wrapper whose contract speaks of that name.

use vstd::prelude::*;
use smallvec::SmallVec;
use crate::layout::UiElementId;
use crate::registry::StyleId;
use crate::style::StyleOverride;

verus! {

/// Node ids, eight of them inline.
#[verifier::external_body]
pub struct NodeIds {
    inner: SmallVec<[UiElementId; 8]>,
}

/// The ids a [`NodeIds`] holds, in order.
pub uninterp spec fn node_ids_items(list: NodeIds) -> Seq<UiElementId>;

/// `SmallVec::new`: no id.
#[verifier::external_body]
pub(crate) fn node_ids_new() -> (r: NodeIds)
    ensures
        node_ids_items(r) == Seq::<UiElementId>::empty(),
{
    NodeIds { inner: SmallVec::new() }
}

/// `SmallVec::push`: the id is added at the end.
#[verifier::external_body]
pub(crate) fn node_ids_push(list: &mut NodeIds, id: UiElementId)
    ensures
        node_ids_items(*final(list)) == node_ids_items(*old(list)).push(id),
{
    list.inner.push(id)
}

/// `SmallVec::as_slice`: the ids in order.
#[verifier::external_body]
pub(crate) fn node_ids_as_slice(list: &NodeIds) -> (r: &[UiElementId])
    ensures
        r@ == node_ids_items(*list),
{
    list.inner.as_slice()
}

impl NodeIds {
    /// The ids, in order.
    pub fn as_slice(&self) -> (r: &[UiElementId])
        ensures
            r@ == node_ids_items(*self),
    {
        node_ids_as_slice(self)
    }
}

/// Pairs of node ids, four of them inline.
#[verifier::external_body]
pub struct NodePairs {
    inner: SmallVec<[(UiElementId, UiElementId); 4]>,
}

/// The pairs a [`NodePairs`] holds, in order.
pub uninterp spec fn node_pairs_items(list: NodePairs) -> Seq<(UiElementId, UiElementId)>;

/// `SmallVec::new`: no pair.
#[verifier::external_body]
pub(crate) fn node_pairs_new() -> (r: NodePairs)
    ensures
        node_pairs_items(r) == Seq::<(UiElementId, UiElementId)>::empty(),
{
    NodePairs { inner: SmallVec::new() }
}

/// `SmallVec::push`: the pair is added at the end.
#[verifier::external_body]
pub(crate) fn node_pairs_push(list: &mut NodePairs, pair: (UiElementId, UiElementId))
    ensures
        node_pairs_items(*final(list)) == node_pairs_items(*old(list)).push(pair),
{
    list.inner.push(pair)
}

/// `SmallVec::clear`: no pair is left.
#[verifier::external_body]
pub(crate) fn node_pairs_clear(list: &mut NodePairs)
    ensures
        node_pairs_items(*final(list)) == Seq::<(UiElementId, UiElementId)>::empty(),
{
    list.inner.clear()
}

/// `SmallVec::as_slice`: the pairs in order.
#[verifier::external_body]
pub(crate) fn node_pairs_as_slice(list: &NodePairs) -> (r: &[(UiElementId, UiElementId)])
    ensures
        r@ == node_pairs_items(*list),
{
    list.inner.as_slice()
}

/// Lists of node ids by rendering layer: two layers inline, sixty-four
/// ids inline in each.
#[verifier::external_body]
pub struct LayerBuckets {
    inner: SmallVec<[SmallVec<[UiElementId; 64]>; 2]>,
}

/// The ids of each layer a [`LayerBuckets`] holds, by layer.
pub uninterp spec fn layer_buckets_items(buckets: LayerBuckets) -> Seq<Seq<UiElementId>>;

/// `SmallVec::new`: no layer.
#[verifier::external_body]
pub(crate) fn layer_buckets_new() -> (r: LayerBuckets)
    ensures
        layer_buckets_items(r) == Seq::<Seq<UiElementId>>::empty(),
{
    LayerBuckets { inner: SmallVec::new() }
}

/// `SmallVec::len`: the number of layers.
#[verifier::external_body]
pub(crate) fn layer_buckets_len(buckets: &LayerBuckets) -> (r: usize)
    ensures
        r == layer_buckets_items(*buckets).len(),
{
    buckets.inner.len()
}

/// `SmallVec::push` of a new `SmallVec`: one more layer, with no id.
#[verifier::external_body]
pub(crate) fn layer_buckets_push_layer(buckets: &mut LayerBuckets)
    ensures
        layer_buckets_items(*final(buckets)) == layer_buckets_items(*old(buckets)).push(
            Seq::<UiElementId>::empty(),
        ),
{
    buckets.inner.push(SmallVec::new())
}

/// `SmallVec::push` on one layer's list: the id is added at its end.
#[verifier::external_body]
pub(crate) fn layer_buckets_push(buckets: &mut LayerBuckets, layer: usize, id: UiElementId)
    requires
        layer < layer_buckets_items(*old(buckets)).len(),
    ensures
        layer_buckets_items(*final(buckets)) == layer_buckets_items(*old(buckets)).update(
            layer as int,
            layer_buckets_items(*old(buckets))[layer as int].push(id),
        ),
{
    buckets.inner[layer].push(id)
}

/// `SmallVec::clear`: no layer is left.
#[verifier::external_body]
pub(crate) fn layer_buckets_clear(buckets: &mut LayerBuckets)
    ensures
        layer_buckets_items(*final(buckets)) == Seq::<Seq<UiElementId>>::empty(),
{
    buckets.inner.clear()
}

/// `SmallVec::as_slice` of one layer's list: its ids in order.
#[verifier::external_body]
pub(crate) fn layer_buckets_layer(buckets: &LayerBuckets, layer: usize) -> (r: &[UiElementId])
    requires
        layer < layer_buckets_items(*buckets).len(),
    ensures
        r@ == layer_buckets_items(*buckets)[layer as int],
{
    buckets.inner[layer].as_slice()
}

/// Style ids, four of them inline.
#[verifier::external_body]
pub struct StyleIds {
    inner: SmallVec<[StyleId; 4]>,
}

/// The ids a [`StyleIds`] holds, in order.
pub uninterp spec fn style_ids_items(list: StyleIds) -> Seq<StyleId>;

/// `SmallVec::new`: no id.
#[verifier::external_body]
pub(crate) fn style_ids_new() -> (r: StyleIds)
    ensures
        style_ids_items(r) == Seq::<StyleId>::empty(),
{
    StyleIds { inner: SmallVec::new() }
}

/// `SmallVec::push`: the id is added at the end.
#[verifier::external_body]
pub(crate) fn style_ids_push(list: &mut StyleIds, id: StyleId)
    ensures
        style_ids_items(*final(list)) == style_ids_items(*old(list)).push(id),
{
    list.inner.push(id)
}

/// `SmallVec::len`: the number of ids.
#[verifier::external_body]
pub(crate) fn style_ids_len(list: &StyleIds) -> (r: usize)
    ensures
        r == style_ids_items(*list).len(),
{
    list.inner.len()
}

/// Indexing: the id at position `k`.
#[verifier::external_body]
pub(crate) fn style_ids_get(list: &StyleIds, k: usize) -> (r: StyleId)
    requires
        k < style_ids_items(*list).len(),
    ensures
        r == style_ids_items(*list)[k as int],
{
    list.inner[k]
}

/// Style overrides, sixteen of them inline.
#[verifier::external_body]
pub struct OverrideList {
    inner: SmallVec<[StyleOverride; 16]>,
}

/// The overrides an [`OverrideList`] holds, in order.
pub uninterp spec fn override_list_items(list: OverrideList) -> Seq<StyleOverride>;

/// `SmallVec::new`: no override.
#[verifier::external_body]
pub(crate) fn override_list_new() -> (r: OverrideList)
    ensures
        override_list_items(r) == Seq::<StyleOverride>::empty(),
{
    OverrideList { inner: SmallVec::new() }
}

/// `SmallVec::push`: the override is added at the end.
#[verifier::external_body]
pub(crate) fn override_list_push(list: &mut OverrideList, o: StyleOverride)
    ensures
        override_list_items(*final(list)) == override_list_items(*old(list)).push(o),
{
    list.inner.push(o)
}

/// `SmallVec::as_slice`: the overrides in order.
#[verifier::external_body]
pub(crate) fn override_list_as_slice(list: &OverrideList) -> (r: &[StyleOverride])
    ensures
        r@ == override_list_items(*list),
{
    list.inner.as_slice()
}

} // verus!
