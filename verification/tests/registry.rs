use plinth::registry::StyleError;
use plinth::registry::StyleId;
use plinth::registry::StyleRegistry;
use plinth::state_flags::StateFlags;
use plinth::style::Background;
use plinth::style::PropertyKind;
use plinth::style::StyleProperty;
use plinth::style::TextColor;
use plinth::style::PROPERTY_COUNT;

#[derive(Clone, Copy, Debug, PartialEq)]
struct Color {
    r: f32,
    g: f32,
    b: f32,
    a: f32,
}

const WHITE: Color = Color { r: 1.0, g: 1.0, b: 1.0, a: 1.0 };
const BLACK: Color = Color { r: 0.0, g: 0.0, b: 0.0, a: 1.0 };

/// Style values used by these tests: a solid paint, a color, or anything else.
#[derive(Clone, Debug, PartialEq)]
enum Value {
    Solid(Color),
    Color(Color),
    Other,
}

// Helper to create colors from 0-255 RGB values
fn rgb(r: u8, g: u8, b: u8) -> Color {
    Color { r: r as f32 / 255.0, g: g as f32 / 255.0, b: b as f32 / 255.0, a: 1.0 }
}

fn solid(c: Color) -> Value {
    Value::Solid(c)
}

fn background(flags: StateFlags, c: Color) -> (StateFlags, StyleProperty<Value>) {
    (flags, StyleProperty { kind: PropertyKind::Background, value: Value::Solid(c) })
}

fn text_color(flags: StateFlags, c: Color) -> (StateFlags, StyleProperty<Value>) {
    (flags, StyleProperty { kind: PropertyKind::TextColor, value: Value::Color(c) })
}

fn defaults() -> Vec<Value> {
    let mut values = vec![Value::Other; PROPERTY_COUNT];
    values[PropertyKind::Background.index()] = Value::Solid(WHITE);
    values[PropertyKind::TextColor.index()] = Value::Color(BLACK);
    values
}

fn new_registry() -> StyleRegistry<Value> {
    StyleRegistry::new(defaults())
}

fn bg(registry: &StyleRegistry<Value>, id: StyleId, state: StateFlags) -> Value {
    registry.resolve::<Background>(id, state).clone()
}

fn text(registry: &StyleRegistry<Value>, id: StyleId, state: StateFlags) -> Value {
    registry.resolve::<TextColor>(id, state).clone()
}

#[test]
fn style_system_integration() {
    let mut registry = new_registry();

    // Base button style
    let button_base = registry
        .register(
            None,
            vec![
                background(StateFlags::normal(), Color { r: 0.2, g: 0.2, b: 0.2, a: 1.0 }),
                text_color(StateFlags::normal(), WHITE),
                background(StateFlags::hovered(), Color { r: 0.3, g: 0.3, b: 0.3, a: 1.0 }),
                background(StateFlags::pressed(), Color { r: 0.1, g: 0.1, b: 0.1, a: 1.0 }),
            ],
        )
        .unwrap();

    // Primary button variant inherits from base, overrides colors
    let button_primary = registry
        .register(
            Some(button_base),
            vec![
                background(StateFlags::normal(), Color { r: 0.0, g: 0.4, b: 0.8, a: 1.0 }),
                background(StateFlags::hovered(), Color { r: 0.0, g: 0.5, b: 1.0, a: 1.0 }),
            ],
        )
        .unwrap();

    assert_eq!(
        bg(&registry, button_base, StateFlags::normal()),
        solid(Color { r: 0.2, g: 0.2, b: 0.2, a: 1.0 })
    );
    assert_eq!(
        bg(&registry, button_base, StateFlags::hovered()),
        solid(Color { r: 0.3, g: 0.3, b: 0.3, a: 1.0 })
    );
    assert_eq!(
        bg(&registry, button_primary, StateFlags::normal()),
        solid(Color { r: 0.0, g: 0.4, b: 0.8, a: 1.0 })
    );
    assert_eq!(text(&registry, button_primary, StateFlags::normal()), Value::Color(WHITE));
}

#[test]
fn basic_registration_and_resolution() {
    let mut registry = new_registry();

    let style = registry
        .register(
            None,
            vec![
                background(StateFlags::normal(), rgb(255, 0, 0)),
                text_color(StateFlags::normal(), rgb(0, 0, 255)),
            ],
        )
        .unwrap();

    assert_eq!(bg(&registry, style, StateFlags::normal()), solid(rgb(255, 0, 0)));
    assert_eq!(text(&registry, style, StateFlags::normal()), Value::Color(rgb(0, 0, 255)));
}

#[test]
fn depth_limit_enforcement() {
    let mut registry = new_registry();

    let mut current = registry.register(None, vec![]).unwrap();

    // MAX_STYLE_TREE_DEPTH is 32; we can have 31 levels of children
    for _ in 0..31 {
        current = registry.register(Some(current), vec![]).unwrap();
    }

    let result = registry.register(Some(current), vec![]);
    assert_eq!(result, Err(StyleError::StyleTreeDepthLimitExceeded));
}

#[test]
fn default_style_is_accessible() {
    let registry = new_registry();

    let default_id = registry.default_style_id();

    assert_eq!(bg(&registry, default_id, StateFlags::normal()), solid(WHITE));
    assert_eq!(text(&registry, default_id, StateFlags::normal()), Value::Color(BLACK));
    assert!(registry.get(default_id).is_some());
}

#[test]
fn child_can_use_default_as_parent() {
    let mut registry = new_registry();

    let default_id = registry.default_style_id();

    let child = registry
        .register(Some(default_id), vec![background(StateFlags::normal(), rgb(100, 100, 100))])
        .unwrap();

    assert_eq!(bg(&registry, child, StateFlags::normal()), solid(rgb(100, 100, 100)));
    assert_eq!(text(&registry, child, StateFlags::normal()), Value::Color(BLACK));
}

#[test]
fn child_inherits_from_parent() {
    let mut registry = new_registry();

    let parent = registry
        .register(
            None,
            vec![
                background(StateFlags::normal(), rgb(50, 50, 50)),
                text_color(StateFlags::normal(), rgb(255, 255, 255)),
            ],
        )
        .unwrap();

    let child = registry
        .register(Some(parent), vec![background(StateFlags::normal(), rgb(100, 100, 100))])
        .unwrap();

    // Background from child, text inherited from parent
    assert_eq!(bg(&registry, child, StateFlags::normal()), solid(rgb(100, 100, 100)));
    assert_eq!(text(&registry, child, StateFlags::normal()), Value::Color(rgb(255, 255, 255)));
}

#[test]
fn sibling_independence() {
    let mut registry = new_registry();

    let parent = registry
        .register(None, vec![background(StateFlags::normal(), rgb(50, 50, 50))])
        .unwrap();

    let sibling1 = registry
        .register(Some(parent), vec![background(StateFlags::normal(), rgb(100, 100, 100))])
        .unwrap();

    let sibling2 = registry
        .register(Some(parent), vec![background(StateFlags::normal(), rgb(200, 200, 200))])
        .unwrap();

    registry.update(sibling1, vec![background(StateFlags::normal(), rgb(150, 150, 150))]);

    assert_eq!(bg(&registry, sibling1, StateFlags::normal()), solid(rgb(150, 150, 150)));
    assert_eq!(bg(&registry, sibling2, StateFlags::normal()), solid(rgb(200, 200, 200)));
}

#[test]
fn state_specific_resolution() {
    let mut registry = new_registry();

    let style = registry
        .register(
            None,
            vec![
                background(StateFlags::normal(), rgb(100, 100, 100)),
                background(StateFlags::hovered(), rgb(150, 150, 150)),
                background(StateFlags::pressed(), rgb(200, 200, 200)),
            ],
        )
        .unwrap();

    assert_eq!(bg(&registry, style, StateFlags::normal()), solid(rgb(100, 100, 100)));
    assert_eq!(bg(&registry, style, StateFlags::hovered()), solid(rgb(150, 150, 150)));
    assert_eq!(bg(&registry, style, StateFlags::pressed()), solid(rgb(200, 200, 200)));
}

#[test]
fn default_fallback() {
    let mut registry = new_registry();
    let style = registry.register(None, vec![]).unwrap();

    assert_eq!(bg(&registry, style, StateFlags::normal()), solid(WHITE));
    assert_eq!(text(&registry, style, StateFlags::normal()), Value::Color(BLACK));
}

#[test]
fn exact_match_priority() {
    let mut registry = new_registry();

    let style = registry
        .register(
            None,
            vec![
                background(StateFlags::hovered(), rgb(100, 100, 100)),
                background(StateFlags::hovered().union(StateFlags::pressed()), rgb(200, 200, 200)),
            ],
        )
        .unwrap();

    assert_eq!(
        bg(&registry, style, StateFlags::hovered().union(StateFlags::pressed())),
        solid(rgb(200, 200, 200))
    );
    assert_eq!(bg(&registry, style, StateFlags::hovered()), solid(rgb(100, 100, 100)));
}

#[test]
fn most_specific_subset_match() {
    let mut registry = new_registry();

    let style = registry
        .register(
            None,
            vec![
                background(StateFlags::normal(), rgb(50, 50, 50)),
                background(StateFlags::hovered(), rgb(100, 100, 100)),
                background(StateFlags::hovered().union(StateFlags::pressed()), rgb(150, 150, 150)),
            ],
        )
        .unwrap();

    // 2-bit match beats 1-bit match
    assert_eq!(
        bg(&registry, style, StateFlags::hovered().union(StateFlags::pressed())),
        solid(rgb(150, 150, 150))
    );
}

#[test]
fn state_fallback_to_normal() {
    let mut registry = new_registry();

    let style = registry
        .register(None, vec![background(StateFlags::normal(), rgb(50, 50, 50))])
        .unwrap();

    // NORMAL is empty flags, so it matches any state as a subset
    assert_eq!(bg(&registry, style, StateFlags::hovered()), solid(rgb(50, 50, 50)));
    assert_eq!(bg(&registry, style, StateFlags::pressed()), solid(rgb(50, 50, 50)));
}

#[test]
fn hovered_does_not_match_normal_query() {
    let mut registry = new_registry();

    let style = registry
        .register(None, vec![background(StateFlags::hovered(), rgb(100, 100, 100))])
        .unwrap();

    // HOVERED is not a subset of NORMAL (empty), so falls back to default
    assert_eq!(bg(&registry, style, StateFlags::normal()), solid(WHITE));
    assert_eq!(bg(&registry, style, StateFlags::hovered()), solid(rgb(100, 100, 100)));
}

#[test]
fn empty_state_returns_default() {
    let mut registry = new_registry();

    let style = registry
        .register(
            None,
            vec![
                background(StateFlags::hovered(), rgb(100, 100, 100)),
                background(StateFlags::pressed(), rgb(150, 150, 150)),
            ],
        )
        .unwrap();

    assert_eq!(bg(&registry, style, StateFlags::empty()), solid(WHITE));
}

#[test]
fn compound_state_selected_and_hovered() {
    let mut registry = new_registry();

    let style = registry
        .register(
            None,
            vec![
                background(StateFlags::normal(), rgb(50, 50, 50)),
                background(StateFlags::selected(), rgb(100, 100, 100)),
                background(StateFlags::hovered(), rgb(150, 150, 150)),
                background(StateFlags::selected().union(StateFlags::hovered()), rgb(200, 200, 200)),
            ],
        )
        .unwrap();

    assert_eq!(bg(&registry, style, StateFlags::normal()), solid(rgb(50, 50, 50)));
    assert_eq!(bg(&registry, style, StateFlags::selected()), solid(rgb(100, 100, 100)));
    assert_eq!(bg(&registry, style, StateFlags::hovered()), solid(rgb(150, 150, 150)));
    assert_eq!(
        bg(&registry, style, StateFlags::selected().union(StateFlags::hovered())),
        solid(rgb(200, 200, 200))
    );
}

#[test]
fn multiple_properties_same_state() {
    let mut registry = new_registry();

    let style = registry
        .register(
            None,
            vec![
                background(StateFlags::hovered(), rgb(100, 100, 100)),
                text_color(StateFlags::hovered(), rgb(255, 255, 255)),
            ],
        )
        .unwrap();

    assert_eq!(bg(&registry, style, StateFlags::hovered()), solid(rgb(100, 100, 100)));
    assert_eq!(text(&registry, style, StateFlags::hovered()), Value::Color(rgb(255, 255, 255)));
}

#[test]
fn style_update_regenerates() {
    let mut registry = new_registry();

    let style = registry
        .register(None, vec![background(StateFlags::normal(), rgb(100, 100, 100))])
        .unwrap();

    registry.update(style, vec![background(StateFlags::normal(), rgb(200, 200, 200))]);

    assert_eq!(bg(&registry, style, StateFlags::normal()), solid(rgb(200, 200, 200)));
}

#[test]
fn parent_update_regenerates_children() {
    let mut registry = new_registry();

    let parent = registry
        .register(None, vec![background(StateFlags::normal(), rgb(50, 50, 50))])
        .unwrap();

    let child = registry
        .register(Some(parent), vec![text_color(StateFlags::normal(), rgb(255, 255, 255))])
        .unwrap();

    registry.update(parent, vec![background(StateFlags::normal(), rgb(100, 100, 100))]);

    assert_eq!(bg(&registry, child, StateFlags::normal()), solid(rgb(100, 100, 100)));
    assert_eq!(text(&registry, child, StateFlags::normal()), Value::Color(rgb(255, 255, 255)));
}

#[test]
fn deep_regeneration() {
    let mut registry = new_registry();

    let root = registry
        .register(None, vec![background(StateFlags::normal(), rgb(50, 50, 50))])
        .unwrap();

    let child1 = registry.register(Some(root), vec![]).unwrap();
    let child2 = registry.register(Some(child1), vec![]).unwrap();
    let child3 = registry.register(Some(child2), vec![]).unwrap();

    registry.update(root, vec![background(StateFlags::normal(), rgb(200, 200, 200))]);

    assert_eq!(bg(&registry, child1, StateFlags::normal()), solid(rgb(200, 200, 200)));
    assert_eq!(bg(&registry, child2, StateFlags::normal()), solid(rgb(200, 200, 200)));
    assert_eq!(bg(&registry, child3, StateFlags::normal()), solid(rgb(200, 200, 200)));
}

#[test]
fn update_replaces_all_overrides() {
    let mut registry = new_registry();

    let style = registry
        .register(
            None,
            vec![
                background(StateFlags::normal(), rgb(50, 50, 50)),
                background(StateFlags::hovered(), rgb(100, 100, 100)),
                text_color(StateFlags::normal(), rgb(255, 255, 255)),
            ],
        )
        .unwrap();

    registry.update(style, vec![background(StateFlags::normal(), rgb(200, 200, 200))]);

    assert_eq!(bg(&registry, style, StateFlags::normal()), solid(rgb(200, 200, 200)));
    // Old hovered override gone
    assert_eq!(bg(&registry, style, StateFlags::hovered()), solid(rgb(200, 200, 200)));
    // TextColor override removed
    assert_eq!(text(&registry, style, StateFlags::normal()), Value::Color(BLACK));
}

#[test]
fn get_returns_none_for_invalid_id() {
    let registry = new_registry();

    let mut other_registry = new_registry();
    let fake_id = other_registry.register(None, vec![]).unwrap();

    assert!(registry.get(fake_id).is_none());
}

#[test]
fn direct_style_access() {
    let mut registry = new_registry();

    let style_id = registry
        .register(
            None,
            vec![
                background(StateFlags::normal(), rgb(100, 100, 100)),
                background(StateFlags::hovered(), rgb(150, 150, 150)),
            ],
        )
        .unwrap();

    let style = registry.get(style_id).unwrap();

    let normal = style.get(PropertyKind::Background).get(StateFlags::normal());
    let hovered = style.get(PropertyKind::Background).get(StateFlags::hovered());
    assert_eq!(registry.value(normal).clone(), solid(rgb(100, 100, 100)));
    assert_eq!(registry.value(hovered).clone(), solid(rgb(150, 150, 150)));
}

#[test]
fn parentless_style_ignores_base_style_updates() {
    // A style registered without a parent starts from the built-in
    // defaults, not from the default style.
    let mut registry = new_registry();
    let style = registry.register(None, vec![]).unwrap();
    let default_id = registry.default_style_id();
    registry.update(default_id, vec![background(StateFlags::normal(), rgb(1, 2, 3))]);
    assert_eq!(bg(&registry, default_id, StateFlags::normal()), solid(rgb(1, 2, 3)));
    assert_eq!(bg(&registry, style, StateFlags::normal()), solid(WHITE));
    assert_eq!(registry.len(), 2);
}

#[test]
fn depth_limit_counts_only_ancestors_of_parent() {
    let mut registry = new_registry();
    let mut current = registry.register(None, vec![]).unwrap();
    for _ in 0..30 {
        current = registry.register(Some(current), vec![]).unwrap();
    }
    // `current` has 30 ancestors: one more level is still allowed.
    let deepest = registry.register(Some(current), vec![]);
    assert!(deepest.is_ok());
    assert_eq!(
        registry.register(Some(deepest.unwrap()), vec![]),
        Err(StyleError::StyleTreeDepthLimitExceeded)
    );
}
