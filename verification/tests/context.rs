use plinth::context::Focus;
use plinth::context::WidgetStates;
use plinth::id::WidgetId;
use plinth::registry::StyleId;
use plinth::state_flags::StateFlags;
use plinth::text::text_needs_rebuild;
use plinth::text::TextLayoutKey;
use plinth::widget::compute_layer_gates;
use plinth::widget::LayerSample;
use plinth::text::StaticTextLayoutId;
use plinth::text::TextLayoutId;

#[test]
fn state_is_created_fresh_on_first_use() {
    let mut states: WidgetStates<(i32, i32)> = WidgetStates::new((0, 0));
    let id = WidgetId::new("button");
    assert_eq!(states.len(), 0);
    {
        let state = states.state_mut(id);
        assert!(!state.was_active);
        assert_eq!(state.layer, 0);
        assert!(!state.is_modal);
        assert!(state.text_layout.is_none());
        assert!(!state.has_custom_data());
        state.was_active = true;
    }
    assert_eq!(states.len(), 1);
    let container = states.get(id).unwrap();
    assert!(container.state.was_active);
    assert_eq!(container.frame_last_used, 0);
    assert_eq!(container.placement, (0, 0));
}

#[test]
fn state_used_each_frame_survives_and_unused_state_is_dropped() {
    let mut states: WidgetStates<u32> = WidgetStates::new(0);
    let kept = WidgetId::new("kept");
    let dropped = WidgetId::new("dropped");

    states.state_mut(kept).was_active = true;
    states.state_mut(dropped).was_active = true;
    assert!(states.end_frame().is_empty());
    assert_eq!(states.frame_counter(), 1);
    assert_eq!(states.len(), 2);

    // Only `kept` is laid out in frame 1.
    states.record_layout(kept, 42, 3, true);
    let released = states.end_frame();
    assert!(released.is_empty());
    assert_eq!(states.frame_counter(), 2);
    assert_eq!(states.len(), 1);
    assert!(states.get(dropped).is_none());
    let container = states.get(kept).unwrap();
    assert!(container.state.was_active);
    assert_eq!(container.placement, 42);
    assert_eq!(container.state.layer, 3);
    assert!(container.state.is_modal);
    assert_eq!(container.frame_last_used, 1);
}

#[test]
fn static_text_layout_is_created_once_and_released_with_its_widget() {
    let mut states: WidgetStates<u8> = WidgetStates::new(0);
    let label = WidgetId::new("label");
    let mut created = 0;

    let first = states.static_text_layout(label, || {
        created += 1;
        StaticTextLayoutId { key: 17 }
    });
    assert_eq!(first, StaticTextLayoutId { key: 17 });
    states.record_layout(label, 1, 0, false);
    assert!(states.end_frame().is_empty());

    let second = states.static_text_layout(label, || {
        created += 1;
        StaticTextLayoutId { key: 99 }
    });
    assert_eq!(second, StaticTextLayoutId { key: 17 });
    assert_eq!(created, 1);
    states.record_layout(label, 1, 0, false);
    assert!(states.end_frame().is_empty());

    // Not built in this frame: its layout is handed back.
    let released = states.end_frame();
    assert_eq!(released, vec![TextLayoutId::Static(StaticTextLayoutId { key: 17 })]);
    assert_eq!(states.len(), 0);
}

#[test]
fn placements_list_every_widget_once() {
    let mut states: WidgetStates<i64> = WidgetStates::new(-1);
    let a = WidgetId::new("a");
    let b = WidgetId::new("b");
    states.record_layout(a, 10, 1, false);
    states.record_layout(b, 20, 2, true);
    let mut placements = states.placements();
    placements.sort();
    assert_eq!(placements, vec![(10, 1, false), (20, 2, true)]);
}

#[test]
fn recorded_layout_keeps_custom_data_of_existing_state() {
    let mut states: WidgetStates<u8> = WidgetStates::new(0);
    let id = WidgetId::new("edit");
    states.state_mut(id).set_custom_data_bytes(&[1, 2, 3]);
    states.record_layout(id, 5, 4, false);
    let container = states.get(id).unwrap();
    assert_eq!(container.state.custom_data_slice(3), Some(&[1u8, 2, 3][..]));
    assert_eq!(container.state.layer, 4);
    assert_eq!(container.placement, 5);
}

#[test]
fn set_active_only_touches_existing_state() {
    let mut states: WidgetStates<u8> = WidgetStates::new(0);
    let id = WidgetId::new("toggle");
    states.set_active(id, true);
    assert!(states.get(id).is_none());
    states.state_mut(id);
    states.set_active(id, true);
    assert!(states.get(id).unwrap().state.was_active);
    states.set_active(id, false);
    assert!(!states.get(id).unwrap().state.was_active);
}

#[test]
fn focus_moves_between_widgets() {
    let a = WidgetId::new("a");
    let b = WidgetId::new("b");
    let mut focus = Focus::default();
    assert!(!focus.is_focused(a));
    focus.request_focus(a);
    assert!(focus.is_focused(a));
    focus.release_focus(b);
    assert!(focus.is_focused(a));
    focus.request_focus(b);
    assert!(!focus.is_focused(a));
    assert!(focus.is_focused(b));
    focus.release_focus(b);
    assert_eq!(focus.focused_widget, None);
}

/// Two frames that each build `root/counter` (120 by 28 pixels) and add one
/// to its custom data.
#[test]
fn custom_data_persists_with_stable_widget_id() {
    let mut states: WidgetStates<(f32, f32)> = WidgetStates::new((0.0, 0.0));
    let expected_id = WidgetId::new("root").then("counter");

    for expected in 1u32..=2 {
        let id = WidgetId::new("root").then("counter");
        let state = states.state_mut(id);
        let value = state
            .custom_data_slice(4)
            .map(|b| u32::from_ne_bytes(b.try_into().unwrap()))
            .unwrap_or(0)
            + 1;
        state.set_custom_data_bytes(&value.to_ne_bytes());
        states.record_layout(id, (120.0, 28.0), 0, false);
        states.end_frame();

        let widget = states.get(expected_id).unwrap();
        assert!(widget.state.has_custom_data());
        let bytes = widget.state.custom_data_bytes().unwrap();
        assert_eq!(u32::from_ne_bytes(bytes[..4].try_into().unwrap()), expected);
        assert_eq!(states.frame_counter(), expected as u64);
    }
}

#[test]
fn widget_state_cleans_up_when_not_rendered() {
    let mut states: WidgetStates<(f32, f32)> = WidgetStates::new((0.0, 0.0));
    let kept_id = WidgetId::new("root").then("kept");
    let removed_id = WidgetId::new("root").then("removed");

    states.state_mut(kept_id).set_custom_data_bytes(&11u32.to_ne_bytes());
    states.record_layout(kept_id, (80.0, 20.0), 0, false);
    states.state_mut(removed_id).set_custom_data_bytes(&77u32.to_ne_bytes());
    states.record_layout(removed_id, (80.0, 20.0), 0, false);
    states.end_frame();

    states.state_mut(kept_id).set_custom_data_bytes(&12u32.to_ne_bytes());
    states.record_layout(kept_id, (80.0, 20.0), 0, false);
    states.end_frame();

    assert!(states.get(kept_id).is_some());
    assert!(states.get(removed_id).is_none());
}

/// Two frames that build the same label: one layout is made, and its text
/// is built once.
#[test]
fn static_text_layout_is_cached_across_frames() {

    let mut states: WidgetStates<u8> = WidgetStates::new(0);
    let label = WidgetId::new("root").then("label");
    let mut layout_count = 0;
    let mut rebuild_count = 0;
    let mut built: Option<TextLayoutKey> = None;
    let key = TextLayoutKey {
        style_id: StyleId { index: 0 },
        state: StateFlags::empty(),
        text_hash: plinth::id::hash_string("hello"),
    };

    for _ in 0..2 {
        states.static_text_layout(label, || {
            layout_count += 1;
            StaticTextLayoutId { key: 0 }
        });
        if built.map_or(true, |cached| text_needs_rebuild(cached, key)) {
            rebuild_count += 1;
            built = Some(key);
        }
        states.record_layout(label, 1, 0, false);
        states.end_frame();
    }

    assert_eq!(layout_count, 1);
    assert_eq!(rebuild_count, 1);
}

/// A base widget and a modal overlay above it: the overlay's layer blocks
/// input to the base widget's layer.
#[test]
fn modal_overlay_blocks_lower_layer_hover() {

    let mut states: WidgetStates<u8> = WidgetStates::new(0);
    let base_id = WidgetId::new("root").then("base");
    let modal_id = base_id.then("modal");
    states.record_layout(base_id, 1, 0, false);
    states.record_layout(modal_id, 2, 1, true);
    states.end_frame();

    // The pointer is over the base widget only.
    let samples: Vec<LayerSample> = states
        .placements()
        .into_iter()
        .map(|(placement, layer, is_modal)| LayerSample {
            contains_pointer: placement == 1,
            layer,
            is_modal,
        })
        .collect();
    let (_, input_block_layer) = compute_layer_gates(&samples);
    assert!(input_block_layer.is_some());
    let block_layer = input_block_layer.unwrap();
    let base_layer = states.get(base_id).unwrap().state.layer;
    assert!(base_layer < block_layer);
}
