use plinth::state_flags::StateFlags;
use plinth::stateful_property::StatefulProperty;

#[test]
fn default_value_returned_for_any_state() {
    let prop: StatefulProperty<i32> = StatefulProperty::new(42);
    assert_eq!(prop.get(StateFlags::normal()), 42);
    assert_eq!(prop.get(StateFlags::hovered()), 42);
    assert_eq!(prop.get(StateFlags::pressed()), 42);
}

#[test]
fn override_matches_exact_state() {
    let mut prop = StatefulProperty::new(0);
    prop.set(StateFlags::hovered(), 100);

    assert_eq!(prop.get(StateFlags::normal()), 0);
    assert_eq!(prop.get(StateFlags::hovered()), 100);
}

#[test]
fn override_matches_superset_state() {
    let mut prop = StatefulProperty::new(0);
    prop.set(StateFlags::hovered(), 100);

    // HOVERED | PRESSED is a superset of HOVERED, so it matches
    assert_eq!(prop.get(StateFlags::hovered().union(StateFlags::pressed())), 100);
}

#[test]
fn set_overwrites_existing_flags() {
    let mut prop = StatefulProperty::new(0);
    prop.set(StateFlags::hovered(), 100);
    prop.set(StateFlags::hovered(), 200);

    assert_eq!(prop.get(StateFlags::hovered()), 200);
}

#[test]
fn specificity_ordering_most_specific_wins() {
    let mut prop = StatefulProperty::new(0);
    // Insert in arbitrary order
    prop.set(StateFlags::hovered(), 1);
    prop.set(StateFlags::hovered().union(StateFlags::pressed()), 2);
    prop.set(StateFlags::normal(), 0);

    // Most specific (2 bits) should win over less specific (1 bit)
    assert_eq!(prop.get(StateFlags::hovered().union(StateFlags::pressed())), 2);
    assert_eq!(prop.get(StateFlags::hovered()), 1);
    assert_eq!(prop.get(StateFlags::normal()), 0);
}

#[test]
fn normal_state_is_subset_of_all() {
    let mut prop = StatefulProperty::new(0);
    prop.set(StateFlags::normal(), 42);

    // NORMAL (empty flags) is a subset of everything
    assert_eq!(prop.get(StateFlags::hovered()), 42);
    assert_eq!(prop.get(StateFlags::pressed()), 42);
    assert_eq!(prop.get(StateFlags::hovered().union(StateFlags::pressed())), 42);
}

#[test]
fn multiple_overrides_correct_precedence() {
    let mut prop = StatefulProperty::new(0);
    prop.set(StateFlags::normal(), 1);
    prop.set(StateFlags::hovered(), 2);
    prop.set(StateFlags::pressed(), 3);
    prop.set(StateFlags::hovered().union(StateFlags::pressed()), 4);

    assert_eq!(prop.get(StateFlags::normal()), 1);
    assert_eq!(prop.get(StateFlags::hovered()), 2);
    assert_eq!(prop.get(StateFlags::pressed()), 3);
    assert_eq!(prop.get(StateFlags::hovered().union(StateFlags::pressed())), 4);
    // With an extra flag, still matches the 2-bit override
    assert_eq!(
        prop.get(
            StateFlags::hovered()
                .union(StateFlags::pressed())
                .union(StateFlags::focused())
        ),
        4
    );
}

#[test]
fn state_flags_bits_and_count() {
    let f = StateFlags::hovered().union(StateFlags::selected()).union(StateFlags::expanded());
    assert_eq!(f.bits(), 0b1000_0101);
    assert_eq!(f.count_ones(), 3);
    assert!(f.contains(StateFlags::selected()));
    assert!(!f.contains(StateFlags::pressed()));
    assert!(f.contains(StateFlags::normal()));
    assert_eq!(f.intersection(StateFlags::hovered()).bits(), 1);
    assert!(StateFlags::empty().is_empty());
    assert_eq!(StateFlags::from_bits_retain(0xff).count_ones(), 8);
    let mut g = StateFlags::disabled();
    g.insert(StateFlags::checked());
    g.insert(StateFlags::invalid());
    assert_eq!(g.bits(), 0b0110_1000);
}

#[test]
fn get_after_set_reads_back_each_combination() {
    // Read after write: the value set for exactly some states comes back
    // for those states, whatever else was set before.
    let mut prop = StatefulProperty::new(0u8);
    prop.set(StateFlags::hovered().union(StateFlags::pressed()), 9);
    prop.set(StateFlags::normal(), 7);
    prop.set(StateFlags::pressed(), 5);
    assert_eq!(prop.get(StateFlags::pressed()), 5);
    assert_eq!(prop.get(StateFlags::normal()), 7);
    assert_eq!(prop.get(StateFlags::hovered().union(StateFlags::pressed())), 9);
    // A query not containing all of `pressed` is unaffected by that write.
    assert_eq!(prop.get(StateFlags::hovered()), 7);
    assert_eq!(*prop.get_ref(StateFlags::focused()), 7);
}
