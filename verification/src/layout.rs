//! Layout vocabulary and the layout tree's topology.
//!
//! The tree records, for every node, its parent, children, rendering layer
//! and whether it takes part in its parent's flow; sizes and positions are
//! carried in the node payload `N`, which this module never inspects.

use vstd::prelude::*;
use crate::small_lists::layer_buckets_clear;
use crate::small_lists::layer_buckets_items;
use crate::small_lists::layer_buckets_layer;
use crate::small_lists::layer_buckets_len;
use crate::small_lists::layer_buckets_new;
use crate::small_lists::layer_buckets_push;
use crate::small_lists::layer_buckets_push_layer;
use crate::small_lists::node_ids_as_slice;
use crate::small_lists::node_ids_items;
use crate::small_lists::node_ids_new;
use crate::small_lists::node_ids_push;
use crate::small_lists::node_pairs_as_slice;
use crate::small_lists::node_pairs_clear;
use crate::small_lists::node_pairs_items;
use crate::small_lists::node_pairs_new;
use crate::small_lists::node_pairs_push;
use crate::small_lists::LayerBuckets;
use crate::small_lists::NodeIds;
use crate::small_lists::NodePairs;

verus! {

/// Which point along one axis to use when anchoring an overlay to its parent.
#[derive(Clone, Copy, Debug, Default, PartialEq, Eq, Structural)]
pub enum AxisAnchor {
    /// Left edge (x) or top edge (y).
    #[default]
    Start,
    /// Center.
    Center,
    /// Right edge (x) or bottom edge (y).
    End,
}

/// The mirrored anchor: start and end swap, the center stays.
pub fn flip(anchor: AxisAnchor) -> (r: AxisAnchor)
    ensures
        anchor == AxisAnchor::Start ==> r == AxisAnchor::End,
        anchor == AxisAnchor::End ==> r == AxisAnchor::Start,
        anchor == AxisAnchor::Center ==> r == AxisAnchor::Center,
{
    match anchor {
        AxisAnchor::Start => AxisAnchor::End,
        AxisAnchor::End => AxisAnchor::Start,
        AxisAnchor::Center => AxisAnchor::Center,
    }
}

/// Flipping twice gives back the anchor.
pub proof fn lemma_flip_involutive(anchor: AxisAnchor)
    ensures
        spec_flip(spec_flip(anchor)) == anchor,
{
}

/// The mirrored anchor.
pub open spec fn spec_flip(anchor: AxisAnchor) -> AxisAnchor {
    match anchor {
        AxisAnchor::Start => AxisAnchor::End,
        AxisAnchor::End => AxisAnchor::Start,
        AxisAnchor::Center => AxisAnchor::Center,
    }
}

/// Direction in which a container lays out its children.
#[derive(Clone, Copy, Debug, Default, PartialEq, Eq, Hash, Structural)]
pub enum LayoutDirection {
    #[default]
    Horizontal,
    Vertical,
}

/// Alignment of children within a container, along one axis.
#[derive(Clone, Copy, Debug, Default, PartialEq, Eq, Hash, Structural)]
pub enum Alignment {
    #[default]
    Start,
    Center,
    End,
    Justify,
}

/// Index of a node in a layout tree.
#[derive(Clone, Copy, Debug, Default, PartialEq, Eq, Hash, Structural)]
pub struct UiElementId(pub u16);

/// Largest number of nodes a layout tree holds (ids are 16-bit).
pub const MAX_LAYOUT_NODES: usize = 65536;

/// The nodes (in creation order) whose value in `z` is `layer`.
pub open spec fn layer_members(z: Seq<u8>, layer: int) -> Seq<UiElementId>
    decreases z.len(),
{
    if z.len() == 0 {
        Seq::empty()
    } else {
        let pre = layer_members(z.drop_last(), layer);
        if z.last() == layer {
            pre.push(UiElementId((z.len() - 1) as u16))
        } else {
            pre
        }
    }
}

/// The nodes (in creation order) whose parent is `p`.
pub open spec fn children_of(parents: Seq<Option<UiElementId>>, p: int) -> Seq<UiElementId>
    decreases parents.len(),
{
    if parents.len() == 0 {
        Seq::empty()
    } else {
        let pre = children_of(parents.drop_last(), p);
        if parents.last() matches Some(q) && q.0 == p {
            pre.push(UiElementId((parents.len() - 1) as u16))
        } else {
            pre
        }
    }
}

/// `(parent, node)` for every out-of-flow node that has a parent, in
/// creation order.
pub open spec fn out_of_flow_pairs(parents: Seq<Option<UiElementId>>, in_flow: Seq<bool>) -> Seq<
    (UiElementId, UiElementId),
>
    decreases parents.len(),
{
    if parents.len() == 0 {
        Seq::empty()
    } else {
        let pre = out_of_flow_pairs(parents.drop_last(), in_flow.drop_last());
        if !in_flow.last() && parents.last() is Some {
            pre.push((parents.last()->0, UiElementId((parents.len() - 1) as u16)))
        } else {
            pre
        }
    }
}

/// Abstract topology of a [`LayoutTree`].
pub struct TreeModel {
    pub parents: Seq<Option<UiElementId>>,
    pub z_layers: Seq<u8>,
    pub in_flow: Seq<bool>,
    pub children: Seq<Seq<UiElementId>>,
    pub out_of_flow: Seq<(UiElementId, UiElementId)>,
    pub layer_buckets: Seq<Seq<UiElementId>>,
}

/// The topology's invariant: every list is exactly what the parents,
/// layers and flow flags say it is.
pub open spec fn tree_wf(m: TreeModel) -> bool {
    let n = m.parents.len();
    &&& n <= MAX_LAYOUT_NODES
    &&& m.z_layers.len() == n
    &&& m.in_flow.len() == n
    &&& m.children.len() == n
    &&& forall|i: int| 0 <= i < n ==> ((#[trigger] m.parents[i]) matches Some(p) ==> p.0 < i)
    &&& forall|p: int| 0 <= p < n ==> #[trigger] m.children[p] == children_of(m.parents, p)
    &&& forall|i: int| 0 <= i < n ==> #[trigger] m.z_layers[i] < m.layer_buckets.len()
    &&& forall|l: int|
        0 <= l < m.layer_buckets.len() ==> #[trigger] m.layer_buckets[l] == layer_members(
            m.z_layers,
            l,
        )
    &&& m.out_of_flow == out_of_flow_pairs(m.parents, m.in_flow)
}

/// A tree of layout nodes with payload `N` and content `T`.
pub struct LayoutTree<N, T> {
    nodes: Vec<N>,
    content: Vec<T>,
    children: Vec<NodeIds>,
    parents: Vec<Option<UiElementId>>,
    z_layers: Vec<u8>,
    in_flow: Vec<bool>,
    /// (parent, child) for every out-of-flow node, in insertion order.
    /// Parents always come before their children.
    out_of_flow_nodes: NodePairs,
    /// Node ids grouped by z_layer (0 = base layer), creation order in each.
    layer_buckets: LayerBuckets,
}

impl<N, T> View for LayoutTree<N, T> {
    type V = TreeModel;

    closed spec fn view(&self) -> TreeModel {
        TreeModel {
            parents: self.parents@,
            z_layers: self.z_layers@,
            in_flow: self.in_flow@,
            children: self.children@.map_values(|c: NodeIds| node_ids_items(c)),
            out_of_flow: node_pairs_items(self.out_of_flow_nodes),
            layer_buckets: layer_buckets_items(self.layer_buckets),
        }
    }
}

impl<N, T> LayoutTree<N, T> {
    /// The payloads of the nodes, by id.
    pub closed spec fn nodes(&self) -> Seq<N> {
        self.nodes@
    }

    /// The contents of the nodes, by id.
    pub closed spec fn contents(&self) -> Seq<T> {
        self.content@
    }

    /// The tree's invariant.
    pub open spec fn wf(&self) -> bool {
        &&& tree_wf(self@)
        &&& self.nodes().len() == self@.parents.len()
        &&& self.contents().len() == self@.parents.len()
    }

    /// An empty tree.
    pub fn new() -> (r: Self)
        ensures
            r.wf(),
            r@.parents.len() == 0,
            r@.layer_buckets.len() == 0,
    {
        let r = LayoutTree {
            nodes: Vec::new(),
            content: Vec::new(),
            children: Vec::new(),
            parents: Vec::new(),
            z_layers: Vec::new(),
            in_flow: Vec::new(),
            out_of_flow_nodes: node_pairs_new(),
            layer_buckets: layer_buckets_new(),
        };
        assert(r@.out_of_flow =~= out_of_flow_pairs(r@.parents, r@.in_flow));
        r
    }

    /// Number of nodes.
    pub fn len(&self) -> (r: usize)
        requires
            self.wf(),
        ensures
            r == self@.parents.len(),
    {
        self.nodes.len()
    }

    /// Remove every node.
    pub fn clear(&mut self)
        ensures
            final(self).wf(),
            final(self)@.parents.len() == 0,
            final(self)@.layer_buckets.len() == 0,
    {
        self.nodes.clear();
        self.children.clear();
        self.content.clear();
        self.parents.clear();
        self.z_layers.clear();
        self.in_flow.clear();
        node_pairs_clear(&mut self.out_of_flow_nodes);
        layer_buckets_clear(&mut self.layer_buckets);
        assert(self@.out_of_flow =~= out_of_flow_pairs(self@.parents, self@.in_flow));
    }

    /// The payload of a node.
    pub fn atom(&self, node: UiElementId) -> (r: &N)
        requires
            self.wf(),
            (node.0 as int) < self@.parents.len(),
        ensures
            *r == self.nodes()[node.0 as int],
    {
        &self.nodes[node.0 as usize]
    }

    /// The content of a node.
    pub fn content(&self, node: UiElementId) -> (r: &T)
        requires
            self.wf(),
            (node.0 as int) < self@.parents.len(),
        ensures
            *r == self.contents()[node.0 as int],
    {
        &self.content[node.0 as usize]
    }

    /// The children of a node, in creation order.
    pub fn children(&self, node: UiElementId) -> (r: &[UiElementId])
        requires
            self.wf(),
            (node.0 as int) < self@.parents.len(),
        ensures
            r@ == children_of(self@.parents, node.0 as int),
    {
        assert(self@.children[node.0 as int] == node_ids_items(self.children@[node.0 as int]));
        node_ids_as_slice(&self.children[node.0 as usize])
    }

    /// Number of rendering layers seen (one more than the highest z_layer).
    pub fn layer_count(&self) -> (r: usize)
        requires
            self.wf(),
        ensures
            r == self@.layer_buckets.len(),
    {
        layer_buckets_len(&self.layer_buckets)
    }

    /// The nodes on rendering layer `layer`, in creation order.
    pub fn layer_nodes(&self, layer: usize) -> (r: &[UiElementId])
        requires
            self.wf(),
            layer < self@.layer_buckets.len(),
        ensures
            r@ == layer_members(self@.z_layers, layer as int),
    {
        layer_buckets_layer(&self.layer_buckets, layer)
    }

    /// The rendering layer of a node.
    pub fn z_layer(&self, node: UiElementId) -> (r: u8)
        requires
            self.wf(),
            (node.0 as int) < self@.parents.len(),
        ensures
            r == self@.z_layers[node.0 as int],
    {
        self.z_layers[node.0 as usize]
    }

    /// The payload of a node, to change; nothing else changes.
    pub fn atom_mut(&mut self, node: UiElementId) -> (r: &mut N)
        requires
            old(self).wf(),
            (node.0 as int) < old(self)@.parents.len(),
        ensures
            *r == old(self).nodes()[node.0 as int],
            final(self).wf(),
            final(self)@ == old(self)@,
            final(self).contents() == old(self).contents(),
            final(self).nodes() == old(self).nodes().update(node.0 as int, *final(r)),
    {
        &mut self.nodes[node.0 as usize]
    }

    /// The content of a node, to change; nothing else changes.
    pub fn content_mut(&mut self, node: UiElementId) -> (r: &mut T)
        requires
            old(self).wf(),
            (node.0 as int) < old(self)@.parents.len(),
        ensures
            *r == old(self).contents()[node.0 as int],
            final(self).wf(),
            final(self)@ == old(self)@,
            final(self).nodes() == old(self).nodes(),
            final(self).contents() == old(self).contents().update(node.0 as int, *final(r)),
    {
        &mut self.content[node.0 as usize]
    }

    /// All payloads and contents, to change in place (by node id), with the
    /// children lists and the out-of-flow pairs to read meanwhile. The
    /// topology does not change.
    pub fn split_mut(&mut self) -> (r: (
        &mut [N],
        &mut [T],
        &[NodeIds],
        &[(UiElementId, UiElementId)],
    ))
        requires
            old(self).wf(),
        ensures
            r.0@ == old(self).nodes(),
            r.1@ == old(self).contents(),
            r.2@.len() == old(self)@.parents.len(),
            forall|p: int|
                0 <= p < r.2@.len() ==> node_ids_items(#[trigger] r.2@[p]) == children_of(
                    old(self)@.parents,
                    p,
                ),
            r.3@ == out_of_flow_pairs(old(self)@.parents, old(self)@.in_flow),
            final(self)@ == old(self)@,
            final(self).nodes() == final(r.0)@,
            final(self).contents() == final(r.1)@,
    {
        proof {
            assert forall|p: int| 0 <= p < self.children@.len() implies node_ids_items(
                #[trigger] self.children@[p],
            ) == children_of(self@.parents, p) by {
                assert(self@.children[p] == node_ids_items(self.children@[p]));
            }
        }
        (
            self.nodes.as_mut_slice(),
            self.content.as_mut_slice(),
            self.children.as_slice(),
            node_pairs_as_slice(&self.out_of_flow_nodes),
        )
    }

    /// `(parent, node)` for every out-of-flow node, parents before children.
    pub fn out_of_flow_nodes(&self) -> (r: &[(UiElementId, UiElementId)])
        requires
            self.wf(),
        ensures
            r@ == out_of_flow_pairs(self@.parents, self@.in_flow),
    {
        node_pairs_as_slice(&self.out_of_flow_nodes)
    }
}


/// A layer no node is on has no members.
pub proof fn lemma_layer_members_empty(z: Seq<u8>, layer: int)
    requires
        forall|i: int| 0 <= i < z.len() ==> z[i] != layer,
    ensures
        layer_members(z, layer) == Seq::<UiElementId>::empty(),
    decreases z.len(),
{
    if z.len() > 0 {
        let pre = z.drop_last();
        assert forall|i: int| 0 <= i < pre.len() implies pre[i] != layer by {
            assert(pre[i] == z[i]);
        }
        lemma_layer_members_empty(pre, layer);
    }
}

impl<N, T> LayoutTree<N, T> {
    /// Add a node under `parent` (or as a root) on rendering layer
    /// `z_layer`, and return its id. `in_flow` says whether it takes part in
    /// its parent's flow; an out-of-flow node with a parent is recorded for
    /// overlay positioning.
    pub fn add(
        &mut self,
        parent: Option<UiElementId>,
        atom: N,
        z_layer: u8,
        in_flow: bool,
        content: T,
    ) -> (r: UiElementId)
        requires
            old(self).wf(),
            old(self)@.parents.len() < MAX_LAYOUT_NODES,
            parent matches Some(p) ==> (p.0 as int) < old(self)@.parents.len(),
        ensures
            final(self).wf(),
            r.0 as int == old(self)@.parents.len(),
            final(self)@.parents == old(self)@.parents.push(parent),
            final(self)@.z_layers == old(self)@.z_layers.push(z_layer),
            final(self)@.in_flow == old(self)@.in_flow.push(in_flow),
            final(self).nodes() == old(self).nodes().push(atom),
            final(self).contents() == old(self).contents().push(content),
            final(self)@.layer_buckets.len() == if (z_layer as int) < old(
                self,
            )@.layer_buckets.len() {
                old(self)@.layer_buckets.len() as int
            } else {
                z_layer + 1
            },
    {
        let ghost m0 = self@;
        let ghost n = m0.parents.len();
        let node_id = UiElementId(self.nodes.len() as u16);
        let layer = z_layer as usize;
        while layer_buckets_len(&self.layer_buckets) <= layer
            invariant
                self@.parents == m0.parents,
                self@.z_layers == m0.z_layers,
                self@.in_flow == m0.in_flow,
                self@.children == m0.children,
                self@.out_of_flow == m0.out_of_flow,
                self.nodes() == old(self).nodes(),
                self.contents() == old(self).contents(),
                m0 == old(self)@,
                tree_wf(m0),
                m0.layer_buckets.len() <= self@.layer_buckets.len(),
                m0.layer_buckets.len() <= layer + 1 || self@.layer_buckets.len() == m0.layer_buckets.len(),
                self@.layer_buckets.len() <= layer + 1 || self@.layer_buckets.len() == m0.layer_buckets.len(),
                forall|l: int|
                    0 <= l < self@.layer_buckets.len() ==> #[trigger] self@.layer_buckets[l]
                        == layer_members(m0.z_layers, l),
            decreases layer + 1 - self@.layer_buckets.len(),
        {
            let ghost l = self@.layer_buckets.len() as int;
            let ghost before = self@.layer_buckets;
            proof {
                assert forall|i: int| 0 <= i < m0.z_layers.len() implies m0.z_layers[i] != l by {
                    assert(m0.z_layers[i] < m0.layer_buckets.len());
                }
                lemma_layer_members_empty(m0.z_layers, l);
            }
            layer_buckets_push_layer(&mut self.layer_buckets);
            assert forall|k: int|
                0 <= k < self@.layer_buckets.len() implies #[trigger] self@.layer_buckets[k]
                == layer_members(m0.z_layers, k) by {
                if k < l {
                    assert(self@.layer_buckets[k] == before[k]);
                } else {
                    assert(self@.layer_buckets[k] =~= Seq::<UiElementId>::empty());
                }
            }
        }
        let ghost mb = self@;
        layer_buckets_push(&mut self.layer_buckets, layer, node_id);
        if !in_flow {
            if let Some(p) = parent {
                node_pairs_push(&mut self.out_of_flow_nodes, (p, node_id));
            }
        }
        self.nodes.push(atom);
        self.content.push(content);
        self.children.push(node_ids_new());
        self.parents.push(parent);
        self.z_layers.push(z_layer);
        self.in_flow.push(in_flow);
        let ghost mc = self@;
        if let Some(p) = parent {
            node_ids_push(&mut self.children[p.0 as usize], node_id);
        }
        proof {
            let m = self@;
            assert(m.parents.drop_last() =~= m0.parents);
            assert(m.z_layers.drop_last() =~= m0.z_layers);
            assert(m.in_flow.drop_last() =~= m0.in_flow);
            assert(m.out_of_flow =~= out_of_flow_pairs(m.parents, m.in_flow));
            assert forall|l: int|
                0 <= l < m.layer_buckets.len() implies #[trigger] m.layer_buckets[l]
                == layer_members(m.z_layers, l) by {
                assert(mb.layer_buckets[l] == layer_members(m0.z_layers, l));
                if l == layer {
                    assert(m.layer_buckets[l] =~= mb.layer_buckets[l].push(node_id));
                } else {
                    assert(m.layer_buckets[l] == mb.layer_buckets[l]);
                }
            }
            assert forall|q: int| 0 <= q < m.parents.len() implies #[trigger] m.children[q]
                == children_of(m.parents, q) by {
                if q < n {
                    assert(m0.children[q] == children_of(m0.parents, q));
                    if parent matches Some(p) && p.0 == q {
                        assert(m.children[q] =~= m0.children[q].push(node_id));
                    } else {
                        assert(m.children[q] == m0.children[q]);
                    }
                } else {
                    assert(q == n);
                    if let Some(pp) = parent {
                        assert(pp.0 < n);
                    }
                    assert(children_of(m0.parents, n as int) == Seq::<UiElementId>::empty()) by {
                        lemma_children_of_empty(m0.parents, n as int);
                    }
                    assert(m.children[q] =~= Seq::<UiElementId>::empty());
                }
            }
            assert forall|i: int| 0 <= i < m.parents.len() implies #[trigger] m.z_layers[i]
                < m.layer_buckets.len() by {
                if i < n {
                    assert(m.z_layers[i] == m0.z_layers[i]);
                }
            }
            assert forall|i: int|
                0 <= i < m.parents.len() implies ((#[trigger] m.parents[i]) matches Some(p)
                ==> p.0 < i) by {
                if i < n {
                    assert(m.parents[i] == m0.parents[i]);
                }
            }
        }
        node_id
    }
}

/// A node no earlier node names as parent has no children.
pub proof fn lemma_children_of_empty(parents: Seq<Option<UiElementId>>, p: int)
    requires
        forall|i: int| 0 <= i < parents.len() ==> ((#[trigger] parents[i]) matches Some(q) ==> q.0 < i),
        p >= parents.len(),
    ensures
        children_of(parents, p) == Seq::<UiElementId>::empty(),
    decreases parents.len(),
{
    if parents.len() > 0 {
        let pre = parents.drop_last();
        assert forall|i: int| 0 <= i < pre.len() implies ((#[trigger] pre[i]) matches Some(q) ==> q.0 < i) by {
            assert(pre[i] == parents[i]);
        }
        lemma_children_of_empty(pre, p);
        assert(parents[parents.len() - 1] == parents.last());
    }
}


/// Node `a` renders before node `b`: on a lower layer, or on the same
/// layer and created earlier.
pub open spec fn renders_before(z: Seq<u8>, a: UiElementId, b: UiElementId) -> bool {
    z[a.0 as int] < z[b.0 as int] || (z[a.0 as int] == z[b.0 as int] && a.0 < b.0)
}

/// The members of a layer are nodes on that layer, in increasing id order,
/// and every node on the layer is a member.
pub proof fn lemma_layer_members_props(z: Seq<u8>, layer: int)
    requires
        z.len() <= MAX_LAYOUT_NODES,
    ensures
        forall|k: int|
            0 <= k < layer_members(z, layer).len() ==> (#[trigger] layer_members(z, layer)[k]).0
                < z.len() && z[layer_members(z, layer)[k].0 as int] == layer,
        forall|j: int, k: int|
            0 <= j < k < layer_members(z, layer).len() ==> (#[trigger] layer_members(
                z,
                layer,
            )[j]).0 < (#[trigger] layer_members(z, layer)[k]).0,
        forall|i: int|
            0 <= i < z.len() && z[i] == layer ==> #[trigger] layer_members(z, layer).contains(
                UiElementId(i as u16),
            ),
    decreases z.len(),
{
    if z.len() > 0 {
        let pre = z.drop_last();
        lemma_layer_members_props(pre, layer);
        let m = layer_members(z, layer);
        let mp = layer_members(pre, layer);
        let last = (z.len() - 1) as int;
        assert forall|k: int| 0 <= k < mp.len() implies (#[trigger] mp[k]).0 < z.len() && z[mp[k].0 as int] == layer by {
            assert(z[mp[k].0 as int] == pre[mp[k].0 as int]);
        }
        assert forall|i: int| 0 <= i < z.len() && z[i] == layer implies #[trigger] m.contains(
            UiElementId(i as u16),
        ) by {
            if i < last {
                assert(pre[i] == z[i]);
                assert(mp.contains(UiElementId(i as u16)));
                let k = choose|k: int| 0 <= k < mp.len() && mp[k] == UiElementId(i as u16);
                if z.last() == layer {
                    assert(m[k] == mp[k]);
                }
            } else {
                assert(m[m.len() - 1] == UiElementId(i as u16));
            }
        }
    }
}

impl<N, T> LayoutTree<N, T> {
    /// All node ids in rendering order: ascending layer, creation order
    /// within a layer.
    pub fn nodes_by_layer(&self) -> (r: Vec<UiElementId>)
        requires
            self.wf(),
        ensures
            forall|a: int| 0 <= a < r@.len() ==> (#[trigger] r@[a]).0 < self@.parents.len(),
            forall|a: int, b: int|
                0 <= a < b < r@.len() ==> renders_before(
                    self@.z_layers,
                    #[trigger] r@[a],
                    #[trigger] r@[b],
                ),
            forall|i: int|
                0 <= i < self@.parents.len() ==> #[trigger] r@.contains(UiElementId(i as u16)),
    {
        let ghost m = self@;
        let ghost z = m.z_layers;
        let ghost n = m.parents.len();
        let mut r: Vec<UiElementId> = Vec::new();
        let nb = layer_buckets_len(&self.layer_buckets);
        let mut l: usize = 0;
        while l < nb
            invariant
                self@ == m,
                tree_wf(m),
                z == m.z_layers,
                n == m.parents.len(),
                nb == m.layer_buckets.len(),
                l <= nb,
                forall|a: int| 0 <= a < r@.len() ==> (#[trigger] r@[a]).0 < n && z[r@[a].0 as int]
                    < l,
                forall|a: int, b: int|
                    0 <= a < b < r@.len() ==> renders_before(z, #[trigger] r@[a], #[trigger] r@[b]),
                forall|i: int| 0 <= i < n && z[i] < l ==> #[trigger] r@.contains(UiElementId(i as u16)),
            decreases nb - l,
        {
            proof {
                lemma_layer_members_props(z, l as int);
            }
            let bucket = layer_buckets_layer(&self.layer_buckets, l);
            let ghost members = layer_members(z, l as int);
            let ghost base = r@.len();
            let cnt = bucket.len();
            let mut k: usize = 0;
            while k < cnt
                invariant
                    bucket@ == members,
                    members == layer_members(z, l as int),
                    cnt == members.len(),
                    k <= cnt,
                    r@.len() == base + k,
                    z == m.z_layers,
                    n == m.parents.len(),
                    n <= MAX_LAYOUT_NODES,
                    forall|kk: int|
                        0 <= kk < members.len() ==> (#[trigger] members[kk]).0 < n && z[members[kk].0 as int] == l,
                    forall|j: int, kk: int|
                        0 <= j < kk < members.len() ==> (#[trigger] members[j]).0 < (#[trigger] members[kk]).0,
                    forall|a: int| 0 <= a < base ==> (#[trigger] r@[a]).0 < n && z[r@[a].0 as int] < l,
                    forall|a: int| base <= a < base + k ==> #[trigger] r@[a] == members[a - base],
                    forall|a: int, b: int|
                        0 <= a < b < r@.len() ==> renders_before(z, #[trigger] r@[a], #[trigger] r@[b]),
                    forall|i: int| 0 <= i < n && z[i] < l ==> #[trigger] r@.contains(UiElementId(i as u16)),
                decreases cnt - k,
            {
                let x = bucket[k];
                let ghost prev = r@;
                r.push(x);
                proof {
                    assert forall|a: int, b: int|
                        0 <= a < b < r@.len() implies renders_before(z, #[trigger] r@[a], #[trigger] r@[b]) by {
                        if b == r@.len() - 1 {
                            if a >= base {
                                assert(r@[a] == members[a - base]);
                            }
                        } else {
                            assert(r@[a] == prev[a] && r@[b] == prev[b]);
                        }
                    }
                    assert forall|i: int| 0 <= i < n && z[i] < l implies #[trigger] r@.contains(UiElementId(i as u16)) by {
                        assert(prev.contains(UiElementId(i as u16)));
                        let w = choose|w: int| 0 <= w < prev.len() && prev[w] == UiElementId(i as u16);
                        assert(r@[w] == prev[w]);
                    }
                }
                k += 1;
            }
            proof {
                assert forall|i: int| 0 <= i < n && z[i] < l + 1 implies #[trigger] r@.contains(UiElementId(i as u16)) by {
                    if z[i] == l {
                        assert(members.contains(UiElementId(i as u16)));
                        let j = choose|j: int| 0 <= j < members.len() && members[j] == UiElementId(i as u16);
                        assert(r@[base + j] == members[j]);
                        assert(r@.contains(UiElementId(i as u16)));
                    }
                }
                assert forall|a: int| 0 <= a < r@.len() implies (#[trigger] r@[a]).0 < n && z[r@[a].0 as int] < l + 1 by {
                    if a >= base {
                        assert(r@[a] == members[a - base]);
                    }
                }
            }
            l += 1;
        }
        r
    }

    /// The children of a node that take part in its flow, in creation order.
    pub fn in_flow_children(&self, node: UiElementId) -> (r: Vec<UiElementId>)
        requires
            self.wf(),
            (node.0 as int) < self@.parents.len(),
        ensures
            r@ == children_of(self@.parents, node.0 as int).filter(
                |c: UiElementId| self@.in_flow[c.0 as int],
            ),
    {
        let ghost m = self@;
        let ghost pred = |c: UiElementId| m.in_flow[c.0 as int];
        let children = self.children(node);
        let cnt = children.len();
        let mut r: Vec<UiElementId> = Vec::new();
        let mut k: usize = 0;
        proof {
            lemma_children_bounded(m.parents, node.0 as int);
        }
        while k < cnt
            invariant
                self@ == m,
                tree_wf(m),
                cnt == children@.len(),
                k <= cnt,
                forall|j: int| 0 <= j < cnt ==> (#[trigger] children@[j]).0 < m.parents.len(),
                r@ == children@.subrange(0, k as int).filter(pred),
                pred == (|c: UiElementId| m.in_flow[c.0 as int]),
            decreases cnt - k,
        {
            let c = children[k];
            assert(self.in_flow@.len() == m.parents.len());
            let f = self.in_flow[c.0 as usize];
            if f {
                r.push(c);
            }
            proof {
                let s = children@.subrange(0, k + 1);
                assert(s.drop_last() == children@.subrange(0, k as int));
                assert(s.last() == c);
                assert(pred(c) == f);
                reveal(Seq::filter);
                assert(s.filter(pred) == (if pred(s.last()) {
                    s.drop_last().filter(pred).push(s.last())
                } else {
                    s.drop_last().filter(pred)
                }));
            }
            k += 1;
        }
        assert(children@.subrange(0, cnt as int) == children@);
        assert(pred =~= (|c: UiElementId| self@.in_flow[c.0 as int]));
        r
    }
}

/// Children are nodes of the tree.
pub proof fn lemma_children_bounded(parents: Seq<Option<UiElementId>>, p: int)
    requires
        parents.len() <= MAX_LAYOUT_NODES,
    ensures
        forall|j: int|
            0 <= j < children_of(parents, p).len() ==> (#[trigger] children_of(parents, p)[j]).0
                < parents.len(),
    decreases parents.len(),
{
    if parents.len() > 0 {
        let pre = parents.drop_last();
        lemma_children_bounded(pre, p);
        let id = UiElementId((parents.len() - 1) as u16);
        assert(id.0 == parents.len() - 1);
        assert forall|j: int| 0 <= j < children_of(parents, p).len() implies (
        #[trigger] children_of(parents, p)[j]).0 < parents.len() by {
            if j < children_of(pre, p).len() {
                assert(children_of(parents, p)[j] == children_of(pre, p)[j]);
            }
        }
    }
}

} // verus!
