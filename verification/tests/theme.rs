use plinth::id::hash_string;
use plinth::id::WidgetId;
use plinth::registry::StyleError;
use plinth::state_flags::StateFlags;
use plinth::style::PropertyKind;
use plinth::style::StyleProperty;
use plinth::style::TextColor;
use plinth::style::PROPERTY_COUNT;
use plinth::text::relayout_plan;
use plinth::text::text_needs_rebuild;
use plinth::text::TextLayoutKey;
use plinth::theme::StyleClass;
use plinth::theme::Theme;

fn defaults() -> Vec<u32> {
    (0..PROPERTY_COUNT as u32).collect()
}

fn text_color(v: u32) -> (StateFlags, StyleProperty<u32>) {
    (StateFlags::normal(), StyleProperty { kind: PropertyKind::TextColor, value: v })
}

#[test]
fn theme_classes_default_to_base_style() {
    let mut theme = Theme::new(defaults());
    let base = theme.get_id(StyleClass::Button);
    assert_eq!(base.index, 0);
    assert_eq!(*theme.resolve::<TextColor>(StyleClass::Button, StateFlags::normal()), 19);
    theme.set_base_style(vec![text_color(500)]);
    assert_eq!(*theme.resolve::<TextColor>(StyleClass::Label, StateFlags::hovered()), 500);
}

#[test]
fn set_style_class_registers_then_updates() {
    let mut theme = Theme::new(defaults());
    let first = theme.set_style_class(StyleClass::Label, None, vec![text_color(7)]).unwrap();
    assert_eq!(theme.get_id(StyleClass::Label), first);
    assert_eq!(*theme.resolve::<TextColor>(StyleClass::Label, StateFlags::normal()), 7);
    // Other classes are unaffected.
    assert_eq!(*theme.resolve::<TextColor>(StyleClass::Panel, StateFlags::normal()), 19);
    let second = theme.set_style_class(StyleClass::Label, None, vec![text_color(8)]).unwrap();
    assert_eq!(first, second);
    assert_eq!(*theme.resolve_style::<TextColor>(first, StateFlags::normal()), 8);
    // Styles created through the theme inherit base style changes.
    theme.set_base_style(vec![(StateFlags::normal(), StyleProperty { kind: PropertyKind::Width, value: 99 })]);
    let width = theme.styles().resolve_kind(first, PropertyKind::Width, StateFlags::normal());
    assert_eq!(*width, 99);
    assert!(theme.get(StyleClass::Label).get(PropertyKind::TextColor).get(StateFlags::normal()).index > 0);
}

#[test]
fn create_style_reports_depth_limit() {
    let mut theme = Theme::new(defaults());
    let mut current = theme.create_style(None, vec![]).unwrap();
    // The default style is one ancestor already.
    for _ in 0..29 {
        current = theme.create_style(Some(current), vec![]).unwrap();
    }
    let last = theme.create_style(Some(current), vec![]).unwrap();
    assert_eq!(theme.create_style(Some(last), vec![]), Err(StyleError::StyleTreeDepthLimitExceeded));
    theme.set(StyleClass::TextEdit, last);
    assert_eq!(theme.get_id(StyleClass::TextEdit), last);
    theme.update_style(last, vec![text_color(3)]);
    assert_eq!(*theme.resolve::<TextColor>(StyleClass::TextEdit, StateFlags::normal()), 3);
}

#[test]
fn widget_ids_are_stable_and_nonzero() {
    let root = WidgetId::new("root");
    assert_eq!(root, WidgetId::new("root"));
    assert_ne!(root.value(), 0);
    let counter = root.then("counter");
    assert_eq!(counter, WidgetId::new("root").then("counter"));
    assert_ne!(counter, root.then("other"));
    assert_ne!(root.then_index(1), root.then_index(2));
    assert_eq!(WidgetId::from_hash(0).value(), 1);
    assert_eq!(WidgetId::from_hash(77).value(), 77);
}

#[test]
fn hash_string_matches_rapidhash_v3() {
    assert_eq!(hash_string("hello"), rapidhash::v3::rapidhash_v3(b"hello"));
    assert_ne!(hash_string("hello"), hash_string("bye"));
}

#[test]
fn text_rebuild_follows_style_state_and_text() {
    let theme = Theme::new(defaults());
    let style = theme.get_id(StyleClass::Label);
    let key = TextLayoutKey { style_id: style, state: StateFlags::normal(), text_hash: hash_string("a") };
    assert!(!text_needs_rebuild(key, key));
    assert!(text_needs_rebuild(key, TextLayoutKey { text_hash: hash_string("b"), ..key }));
    assert!(text_needs_rebuild(key, TextLayoutKey { state: StateFlags::hovered(), ..key }));
}

#[test]
fn relayout_plan_breaks_and_aligns_as_needed() {
    let nothing = relayout_plan(false, false, false, false);
    assert!(!nothing.break_lines && !nothing.realign);
    let align_only = relayout_plan(false, false, true, false);
    assert!(!align_only.break_lines && align_only.realign);
    let width = relayout_plan(false, true, false, false);
    assert!(width.break_lines && width.realign);
    let rebuilt = relayout_plan(true, false, false, false);
    assert!(rebuilt.break_lines && rebuilt.realign);
    let overflow = relayout_plan(false, false, false, true);
    assert!(overflow.break_lines && overflow.realign);
}
