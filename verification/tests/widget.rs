use plinth::input::ClickCounter;
use plinth::input::ElementState;
use plinth::input::MouseButton;
use plinth::input::MouseButtonState;
use plinth::state_flags::StateFlags;
use plinth::widget::compute_layer_gates;
use plinth::widget::ClickBehavior;
use plinth::widget::Interaction;
use plinth::widget::LayerSample;
use plinth::widget::PreviousFrame;
use plinth::widget::WidgetState;

fn read_u64(state: &WidgetState) -> Option<u64> {
    state
        .custom_data_slice(8)
        .map(|b| u64::from_ne_bytes(b.try_into().unwrap()))
}

#[test]
fn custom_data_no_write_returns_none() {
    let state = WidgetState::new();
    assert_eq!(read_u64(&state), None);
    assert_eq!(state.custom_data_slice(8), None);
}

#[test]
fn custom_data_u64_roundtrip() {
    let mut state = WidgetState::new();
    state.set_custom_data_bytes(&0xDEAD_BEEF_DEAD_BEEFu64.to_ne_bytes());
    assert_eq!(read_u64(&state), Some(0xDEAD_BEEF_DEAD_BEEFu64));
    assert_eq!(
        state.custom_data_slice(8),
        Some(&0xDEAD_BEEF_DEAD_BEEFu64.to_ne_bytes()[..])
    );
}

#[test]
fn custom_data_f64_roundtrip() {
    let mut state = WidgetState::new();
    state.set_custom_data_bytes(&std::f64::consts::PI.to_ne_bytes());
    let read = state
        .custom_data_slice(8)
        .map(|b| f64::from_ne_bytes(b.try_into().unwrap()));
    assert_eq!(read, Some(std::f64::consts::PI));
    assert_eq!(state.custom_data_slice(8), Some(&std::f64::consts::PI.to_ne_bytes()[..]));
}

#[test]
fn custom_data_i64_roundtrip() {
    let mut state = WidgetState::new();
    state.set_custom_data_bytes(&i64::MIN.to_ne_bytes());
    let read = state
        .custom_data_slice(8)
        .map(|b| i64::from_ne_bytes(b.try_into().unwrap()));
    assert_eq!(read, Some(i64::MIN));
    assert_eq!(state.custom_data_slice(8), Some(&i64::MIN.to_ne_bytes()[..]));
}

#[test]
fn custom_data_u32_roundtrip() {
    let mut state = WidgetState::new();
    state.set_custom_data_bytes(&0xDEAD_BEEFu32.to_ne_bytes());
    let read = state
        .custom_data_slice(4)
        .map(|b| u32::from_ne_bytes(b.try_into().unwrap()));
    assert_eq!(read, Some(0xDEAD_BEEFu32));
}

#[test]
fn custom_data_size_mismatch_returns_none() {
    let mut state = WidgetState::new();
    state.set_custom_data_bytes(&42u32.to_ne_bytes());
    // Reads with mismatched sizes must return None.
    assert_eq!(read_u64(&state), None);
    assert_eq!(state.custom_data_slice(std::mem::size_of::<[u32; 2]>()), None);
    assert_eq!(state.custom_data_slice(1), None);
    // Same-size read still works.
    let read = state
        .custom_data_slice(4)
        .map(|b| u32::from_ne_bytes(b.try_into().unwrap()));
    assert_eq!(read, Some(42u32));
}

#[test]
fn custom_data_overwrite() {
    let mut state = WidgetState::new();
    state.set_custom_data_bytes(&1u64.to_ne_bytes());
    state.set_custom_data_bytes(&0xDEADu64.to_ne_bytes());
    assert_eq!(read_u64(&state), Some(0xDEADu64));
}

#[test]
fn custom_data_mut_ref() {
    let mut state = WidgetState::new();
    state.set_custom_data_bytes(&42u64.to_ne_bytes());
    assert!(state.custom_data.size() == 8);
    state.set_custom_data_bytes(&100u64.to_ne_bytes());
    assert_eq!(read_u64(&state), Some(100u64));
}

#[test]
fn custom_data_bytes_zero_padded_after_smaller_overwrite() {
    let mut state = WidgetState::new();
    state.set_custom_data_bytes(&0x1122_3344_5566_7788u64.to_ne_bytes());
    state.set_custom_data_bytes(&0xAABB_CCDDu32.to_ne_bytes());

    let mut expected = [0u8; 8];
    expected[..4].copy_from_slice(&0xAABB_CCDDu32.to_ne_bytes());
    assert_eq!(state.custom_data_bytes(), Some(expected));
}

#[test]
fn custom_data_presence() {
    let mut state = WidgetState::new();
    assert!(!state.has_custom_data());
    assert_eq!(state.custom_data_bytes(), None);
    state.set_custom_data_bytes(&[7u8]);
    assert!(state.has_custom_data());
    assert_eq!(state.custom_data_bytes(), Some([7, 0, 0, 0, 0, 0, 0, 0]));
}

fn mouse(left: u8) -> MouseButtonState {
    MouseButtonState { left_click_count: left, right_click_count: 0, middle_click_count: 0 }
}

fn all_states() -> StateFlags {
    StateFlags::from_bits_retain(0xff)
}

#[test]
fn interaction_press_activates_hovered_widget() {
    let prev = Some(PreviousFrame { was_active: false, contains_pointer: true });
    let (interaction, state) = Interaction::compute(
        false,
        0,
        0,
        None,
        prev,
        mouse(1),
        ClickBehavior::OnPress,
        all_states(),
    );
    assert!(interaction.is_activated);
    assert!(interaction.is_hovered);
    assert!(interaction.is_focused);
    assert_eq!(state.bits(), 1 | 2 | 16);
}

#[test]
fn interaction_release_activates_on_release_behavior() {
    let prev = Some(PreviousFrame { was_active: true, contains_pointer: true });
    let (pressing, _) = Interaction::compute(
        false,
        0,
        0,
        None,
        prev,
        mouse(1),
        ClickBehavior::OnRelease,
        all_states(),
    );
    assert!(!pressing.is_activated);
    let (released, state) = Interaction::compute(
        false,
        0,
        0,
        None,
        prev,
        mouse(0),
        ClickBehavior::OnRelease,
        all_states(),
    );
    assert!(released.is_activated);
    assert_eq!(state.bits(), 1 | 16);
}

#[test]
fn interaction_modal_blocks_lower_layer() {
    let prev = Some(PreviousFrame { was_active: false, contains_pointer: true });
    let (interaction, state) = Interaction::compute(
        false,
        0,
        0,
        Some(1),
        prev,
        mouse(1),
        ClickBehavior::OnPress,
        all_states(),
    );
    assert!(!interaction.is_hovered);
    assert!(!interaction.is_activated);
    assert_eq!(state.bits(), 0);
    // The modal's own layer is not blocked.
    let (on_modal, _) = Interaction::compute(
        false,
        1,
        1,
        Some(1),
        prev,
        mouse(0),
        ClickBehavior::OnPress,
        all_states(),
    );
    assert!(on_modal.is_hovered);
}

#[test]
fn interaction_interest_masks_states_and_focus_persists() {
    let prev = Some(PreviousFrame { was_active: false, contains_pointer: true });
    let (interaction, state) = Interaction::compute(
        true,
        0,
        0,
        None,
        prev,
        mouse(0),
        ClickBehavior::OnPress,
        StateFlags::hovered(),
    );
    assert_eq!(state.bits(), 1);
    assert!(!interaction.is_focused);
    // Without a previous frame the widget is never hovered.
    let (first_frame, _) = Interaction::compute(
        false,
        0,
        0,
        None,
        None,
        mouse(1),
        ClickBehavior::OnPress,
        all_states(),
    );
    assert!(!first_frame.is_hovered && !first_frame.is_activated);
}

#[test]
fn layer_gates_take_highest_layers() {
    let samples = vec![
        LayerSample { contains_pointer: true, layer: 1, is_modal: false },
        LayerSample { contains_pointer: true, layer: 3, is_modal: false },
        LayerSample { contains_pointer: false, layer: 7, is_modal: true },
        LayerSample { contains_pointer: false, layer: 2, is_modal: true },
    ];
    assert_eq!(compute_layer_gates(&samples), (3, Some(7)));
    assert_eq!(compute_layer_gates(&Vec::new()), (0, None));
    let mut reversed = samples.clone();
    reversed.reverse();
    assert_eq!(compute_layer_gates(&reversed), (3, Some(7)));
}

#[test]
fn mouse_and_element_state() {
    let m = MouseButtonState { left_click_count: 0, right_click_count: 2, middle_click_count: 1 };
    assert!(!m.is_left_down());
    assert!(m.is_right_down());
    assert!(m.is_middle_down());
    assert!(ElementState::Pressed.is_pressed());
    assert!(!ElementState::Pressed.is_released());
    assert!(ElementState::Released.is_released());
}

#[test]
fn click_counter_counts_consecutive_clicks() {
    let mut counter = ClickCounter::default();
    assert_eq!(counter.on_click(true, true, true, true), 1);
    assert_eq!(counter.on_click(false, true, true, true), 0);
    assert_eq!(counter.on_click(true, true, true, true), 2);
    assert_eq!(counter.on_click(true, true, true, true), 3);
    // Moving away, waiting too long or another button restarts the count.
    assert_eq!(counter.on_click(true, true, false, true), 1);
    assert_eq!(counter.on_click(true, true, true, false), 1);
    assert_eq!(counter.on_click(true, false, true, true), 1);
    counter.on_activate();
    assert_eq!(counter.on_click(true, true, true, true), 1);
}

#[test]
fn button_events_set_the_click_count_of_their_button() {
    let mut state = MouseButtonState::default();
    assert!(state.record(MouseButton::Left, 2));
    assert_eq!(state.left_click_count, 2);
    assert!(state.record(MouseButton::Right, 1));
    assert_eq!(state.right_click_count, 1);
    assert!(state.record(MouseButton::Middle, 3));
    assert_eq!(state.middle_click_count, 3);
    assert!(state.record(MouseButton::Left, 0));
    assert!(!state.is_left_down());
    let before = state;
    assert!(!state.record(MouseButton::Back, 5));
    assert!(!state.record(MouseButton::Other(9), 5));
    assert_eq!(state, before);
}
