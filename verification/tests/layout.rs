use plinth::layout::flip;
use plinth::layout::AxisAnchor;
use plinth::layout::LayoutTree;
use plinth::layout::UiElementId;

/// Fixed node size used as the node payload in these tests.
type Size = (f32, f32);

fn out_of_flow_stash(tree: &mut LayoutTree<Size, ()>) {
    let root = tree.add(None, (400.0, 300.0), 0, true, ());
    tree.add(Some(root), (50.0, 20.0), 0, true, ()); // in-flow
    tree.add(Some(root), (80.0, 40.0), 1, false, ());
    tree.add(Some(root), (60.0, 30.0), 1, false, ());
}

#[test]
fn tree_out_of_flow_stash_populated() {
    let mut tree: LayoutTree<Size, ()> = LayoutTree::new();
    out_of_flow_stash(&mut tree);
    assert_eq!(tree.out_of_flow_nodes().len(), 2, "two out-of-flow children should be stashed");
    assert_eq!(tree.layer_count(), 2, "two z_layers (0 and 1) should exist");
    assert_eq!(tree.layer_nodes(0).len(), 2, "root + in-flow child in base layer");
    assert_eq!(tree.layer_nodes(1).len(), 2, "two overlay nodes in layer 1");
}

#[test]
fn layout_out_of_flow_stash_populated() {
    let mut tree: LayoutTree<Size, ()> = LayoutTree::new();
    out_of_flow_stash(&mut tree);
    assert_eq!(tree.out_of_flow_nodes().len(), 2, "two out-of-flow children should be stashed");
    assert_eq!(tree.layer_count(), 2, "two z_layers (0 and 1) should exist");
    assert_eq!(tree.layer_nodes(0).len(), 2, "root + in-flow child in base layer");
    assert_eq!(tree.layer_nodes(1).len(), 2, "two overlay nodes in layer 1");
}

#[test]
fn nodes_by_layer_orders_layers_then_creation() {
    let mut tree: LayoutTree<Size, &str> = LayoutTree::new();
    let root = tree.add(None, (100.0, 100.0), 0, true, "root");
    let a = tree.add(Some(root), (10.0, 10.0), 2, false, "a");
    let b = tree.add(Some(root), (10.0, 10.0), 0, true, "b");
    let c = tree.add(Some(a), (10.0, 10.0), 1, false, "c");
    let d = tree.add(Some(a), (10.0, 10.0), 2, true, "d");
    assert_eq!(tree.nodes_by_layer(), vec![root, b, c, a, d]);
    assert_eq!(tree.layer_count(), 3);
    assert_eq!(*tree.layer_nodes(1), vec![c]);
    assert_eq!(*tree.children(root), vec![a, b]);
    assert_eq!(*tree.children(a), vec![c, d]);
    assert_eq!(tree.in_flow_children(root), vec![b]);
    assert_eq!(tree.in_flow_children(a), vec![d]);
    assert_eq!(*tree.out_of_flow_nodes(), vec![(root, a), (a, c)]);
    assert_eq!(*tree.content(c), "c");
    assert_eq!(*tree.atom(d), (10.0, 10.0));
    assert_eq!(tree.len(), 5);
    tree.clear();
    assert_eq!(tree.len(), 0);
    assert_eq!(tree.layer_count(), 0);
    assert_eq!(tree.nodes_by_layer(), Vec::<UiElementId>::new());
}

#[test]
fn root_out_of_flow_node_is_not_stashed() {
    let mut tree: LayoutTree<Size, ()> = LayoutTree::new();
    tree.add(None, (1.0, 1.0), 0, false, ());
    assert!(tree.out_of_flow_nodes().is_empty());
}

#[test]
fn flip_mirrors_anchor() {
    assert_eq!(flip(AxisAnchor::Start), AxisAnchor::End);
    assert_eq!(flip(AxisAnchor::End), AxisAnchor::Start);
    assert_eq!(flip(AxisAnchor::Center), AxisAnchor::Center);
    assert_eq!(flip(flip(AxisAnchor::Start)), AxisAnchor::Start);
}

#[test]
fn payloads_and_contents_change_in_place() {
    let mut tree: LayoutTree<Size, u32> = LayoutTree::new();
    let root = tree.add(None, (10.0, 10.0), 0, true, 1);
    let child = tree.add(Some(root), (5.0, 5.0), 0, true, 2);
    *tree.atom_mut(child) = (7.0, 8.0);
    *tree.content_mut(root) = 9;
    assert_eq!(*tree.atom(child), (7.0, 8.0));
    assert_eq!(*tree.content(root), 9);
    {
        let (nodes, contents, children, out_of_flow) = tree.split_mut();
        assert_eq!(nodes.len(), 2);
        assert_eq!(children[0].as_slice(), &[child]);
        assert!(children[1].as_slice().is_empty());
        assert!(out_of_flow.is_empty());
        nodes[0].0 = 20.0;
        contents[1] = 3;
    }
    assert_eq!(*tree.atom(root), (20.0, 10.0));
    assert_eq!(*tree.content(child), 3);
    assert_eq!(tree.children(root), &vec![child]);
}

/// A base node with an overlay above it: the rendering order goes up the
/// layers and holds both layers.
#[test]
fn layout_snapshot_preserves_layer_order() {
    let mut tree: LayoutTree<Size, ()> = LayoutTree::new();
    let root = tree.add(None, (640.0, 480.0), 0, true, ());
    let base = tree.add(Some(root), (200.0, 60.0), 0, true, ());
    tree.add(Some(base), (150.0, 40.0), 1, false, ());
    let order = tree.nodes_by_layer();
    assert!(!order.is_empty());
    let layers: Vec<u8> = order.iter().map(|id| tree.z_layer(*id)).collect();
    let mut last_layer = 0u8;
    for layer in &layers {
        assert!(*layer >= last_layer);
        last_layer = *layer;
    }
    assert!(layers.iter().any(|l| *l == 0));
    assert!(layers.iter().any(|l| *l > 0));
}
