//! The theme: a style registry plus the styles assigned to the well-known
//! widget classes.

use vstd::prelude::*;
use crate::registry::DefModel;
use crate::registry::StyleError;
use crate::registry::StyleId;
use crate::registry::StyleRegistry;
use crate::registry::converted;
use crate::registry::depth;
use crate::registry::resolved_value;
use crate::state_flags::StateFlags;
use crate::style::PROPERTY_COUNT;
use crate::style::PropertyKey;
use crate::style::Style;
use crate::style::StyleProperty;

verus! {

/// The widget classes a theme assigns styles to.
#[derive(Clone, Copy, Debug, PartialEq, Eq, Hash, Structural)]
pub enum StyleClass {
    Panel,
    Button,
    Label,
    TextEdit,
}

impl StyleClass {
    /// Number of style class variants.
    pub const COUNT: usize = 4;

    /// Position of the class among the well-known classes.
    pub open spec fn slot(self) -> int {
        match self {
            StyleClass::Panel => 0,
            StyleClass::Button => 1,
            StyleClass::Label => 2,
            StyleClass::TextEdit => 3,
        }
    }

    /// Position of the class among the well-known classes.
    pub fn index(self) -> (r: usize)
        ensures
            r == self.slot(),
            r < Self::COUNT,
    {
        match self {
            StyleClass::Panel => 0,
            StyleClass::Button => 1,
            StyleClass::Label => 2,
            StyleClass::TextEdit => 3,
        }
    }
}

/// Each class has a slot of its own among the well-known classes: distinct
/// classes never share one, so assigning a style to one class leaves every
/// other class as it was.
pub proof fn lemma_class_slots_distinct(a: StyleClass, b: StyleClass)
    ensures
        0 <= a.slot() < StyleClass::COUNT,
        a != b ==> a.slot() != b.slot(),
{
}

/// A style registry together with the styles assigned to each widget class.
pub struct Theme<V> {
    well_known_classes: Vec<Option<StyleId>>,
    styles: StyleRegistry<V>,
}

impl<V> Theme<V> {
    /// The style registered for each class, if one was assigned.
    pub closed spec fn classes(&self) -> Seq<Option<StyleId>> {
        self.well_known_classes@
    }

    /// The theme's registry.
    pub closed spec fn registry(&self) -> StyleRegistry<V> {
        self.styles
    }

    /// The style a class resolves through: its assigned style, or the
    /// registry's default style.
    pub open spec fn class_style(&self, class: StyleClass) -> StyleId {
        match self.classes()[class.slot()] {
            Some(id) => id,
            None => StyleId { index: 0 },
        }
    }

    /// The theme's invariant: a valid registry, and every assigned style
    /// belongs to it.
    pub open spec fn wf(&self) -> bool {
        &&& self.registry().wf()
        &&& self.classes().len() == StyleClass::COUNT
        &&& forall|k: int|
            0 <= k < StyleClass::COUNT ==> (#[trigger] self.classes()[k] matches Some(id)
                ==> id.index < self.registry()@.defs.len())
    }

    /// A theme whose registry holds only the default style, built from the
    /// given default property values (in the order the kinds are declared),
    /// and no class assignments: every class resolves each kind to its
    /// default value.
    pub fn new(defaults: Vec<V>) -> (r: Self)
        requires
            defaults@.len() == PROPERTY_COUNT,
        ensures
            r.wf(),
            r.registry()@.values == defaults@,
            r.registry()@.defs.len() == 1,
            forall|k: int| 0 <= k < StyleClass::COUNT ==> #[trigger] r.classes()[k] is None,
            forall|class: StyleClass, i: int, state: StateFlags|
                0 <= i < PROPERTY_COUNT ==> #[trigger] resolved_value(
                    r.registry()@,
                    r.class_style(class),
                    crate::style::declared_kinds()[i],
                    state,
                ) == defaults@[i],
    {
        let styles = StyleRegistry::new(defaults);
        let mut well_known_classes: Vec<Option<StyleId>> = Vec::new();
        let mut i: usize = 0;
        while i < Self::count()
            invariant
                i <= StyleClass::COUNT,
                well_known_classes@.len() == i,
                forall|k: int| 0 <= k < i ==> #[trigger] well_known_classes@[k] is None,
            decreases StyleClass::COUNT - i,
        {
            well_known_classes.push(None);
            i += 1;
        }
        Theme { well_known_classes, styles }
    }

    fn count() -> (r: usize)
        ensures
            r == StyleClass::COUNT,
    {
        StyleClass::COUNT
    }

    /// The theme's registry.
    pub fn styles(&self) -> (r: &StyleRegistry<V>)
        ensures
            *r == self.registry(),
    {
        &self.styles
    }

    /// Gets the style ID assigned to a style class (the default style when
    /// none is assigned).
    pub fn get_id(&self, class: StyleClass) -> (r: StyleId)
        requires
            self.wf(),
        ensures
            r == self.class_style(class),
            r.index < self.registry()@.defs.len(),
    {
        match self.well_known_classes[class.index()] {
            Some(id) => id,
            None => self.styles.default_style_id(),
        }
    }

    /// Gets the resolved style assigned to a style class.
    pub fn get(&self, class: StyleClass) -> (r: &Style)
        requires
            self.wf(),
        ensures
            r@ == self.registry()@.resolved[self.class_style(class).index as int],
    {
        let style_id = self.get_id(class);
        self.styles.get(style_id).unwrap()
    }

    /// Assigns a style to a style class.
    pub fn set(&mut self, class: StyleClass, style_id: StyleId)
        requires
            old(self).wf(),
            style_id.index < old(self).registry()@.defs.len(),
        ensures
            final(self).wf(),
            final(self).registry() == old(self).registry(),
            final(self).classes() == old(self).classes().update(class.slot(), Some(style_id)),
            final(self).class_style(class) == style_id,
            forall|other: StyleClass|
                other != class ==> #[trigger] final(self).class_style(other) == old(
                    self,
                ).class_style(other),
    {
        let i = class.index();
        self.well_known_classes.set(i, Some(style_id));
        proof {
            assert forall|other: StyleClass| other != class implies #[trigger] self.class_style(other)
                == old(self).class_style(other) by {
                lemma_class_slots_distinct(other, class);
            }
        }
    }

    /// Sets properties on the default style. All styles created through the
    /// theme inherit from the default style, so this sets global defaults.
    pub fn set_base_style(&mut self, properties: Vec<(StateFlags, StyleProperty<V>)>)
        requires
            old(self).wf(),
            old(self).registry()@.values.len() + properties@.len() <= usize::MAX,
        ensures
            final(self).wf(),
            final(self).classes() == old(self).classes(),
            final(self).registry()@.defs == old(self).registry()@.defs.update(
                0,
                DefModel {
                    parent: None,
                    overrides: converted(properties@, old(self).registry()@.values.len()),
                },
            ),
    {
        let default_style_id = self.styles.default_style_id();
        self.styles.update(default_style_id, properties);
    }

    /// Creates a new style with the given parent (the default style when
    /// `None`) and properties. The style can then be assigned to classes
    /// with [`Theme::set`].
    pub fn create_style(
        &mut self,
        parent: Option<StyleId>,
        properties: Vec<(StateFlags, StyleProperty<V>)>,
    ) -> (r: Result<StyleId, StyleError>)
        requires
            old(self).wf(),
            parent matches Some(p) ==> p.index < old(self).registry()@.defs.len(),
            old(self).registry()@.defs.len() < usize::MAX,
            old(self).registry()@.values.len() + properties@.len() <= usize::MAX,
        ensures
            final(self).wf(),
            final(self).classes() == old(self).classes(),
            r is Err <==> depth(
                old(self).registry()@.defs,
                match parent {
                    Some(p) => p.index as int,
                    None => 0,
                },
            ) + 1 >= crate::registry::MAX_STYLE_TREE_DEPTH,
            r is Err ==> final(self).registry()@ == old(self).registry()@,
            r matches Ok(id) ==> {
                &&& id.index == old(self).registry()@.defs.len()
                &&& final(self).registry()@.defs == old(self).registry()@.defs.push(
                    DefModel {
                        parent: Some(
                            match parent {
                                Some(p) => p,
                                None => StyleId { index: 0 },
                            },
                        ),
                        overrides: converted(properties@, old(self).registry()@.values.len()),
                    },
                )
            },
    {
        let parent = match parent {
            Some(p) => p,
            None => self.styles.default_style_id(),
        };
        self.styles.register(Some(parent), properties)
    }

    /// Replaces the properties of an existing style.
    pub fn update_style(&mut self, style_id: StyleId, properties: Vec<(StateFlags, StyleProperty<V>)>)
        requires
            old(self).wf(),
            style_id.index < old(self).registry()@.defs.len(),
            old(self).registry()@.values.len() + properties@.len() <= usize::MAX,
        ensures
            final(self).wf(),
            final(self).classes() == old(self).classes(),
            final(self).registry()@.defs == old(self).registry()@.defs.update(
                style_id.index as int,
                DefModel {
                    parent: old(self).registry()@.defs[style_id.index as int].parent,
                    overrides: converted(properties@, old(self).registry()@.values.len()),
                },
            ),
    {
        self.styles.update(style_id, properties)
    }

    /// Modifies a style class by replacing its properties, registering a
    /// new style (with `parent`, see [`Theme::create_style`]) if the class
    /// does not have one assigned yet.
    pub fn set_style_class(
        &mut self,
        class: StyleClass,
        parent: Option<StyleId>,
        properties: Vec<(StateFlags, StyleProperty<V>)>,
    ) -> (r: Result<StyleId, StyleError>)
        requires
            old(self).wf(),
            parent matches Some(p) ==> p.index < old(self).registry()@.defs.len(),
            old(self).registry()@.defs.len() < usize::MAX,
            old(self).registry()@.values.len() + properties@.len() <= usize::MAX,
        ensures
            final(self).wf(),
            r matches Ok(id) ==> final(self).class_style(class) == id,
            forall|other: StyleClass|
                other != class ==> #[trigger] final(self).class_style(other) == old(
                    self,
                ).class_style(other),
            old(self).classes()[class.slot()] matches Some(current) ==> {
                &&& r == Ok::<StyleId, StyleError>(current)
                &&& final(self).classes() == old(self).classes()
                &&& final(self).registry()@.defs == old(self).registry()@.defs.update(
                    current.index as int,
                    DefModel {
                        parent: old(self).registry()@.defs[current.index as int].parent,
                        overrides: converted(properties@, old(self).registry()@.values.len()),
                    },
                )
            },
            old(self).classes()[class.slot()] is None ==> {
                &&& r is Err <==> depth(
                    old(self).registry()@.defs,
                    match parent {
                        Some(p) => p.index as int,
                        None => 0,
                    },
                ) + 1 >= crate::registry::MAX_STYLE_TREE_DEPTH
                &&& r is Err ==> final(self).classes() == old(self).classes()
                    && final(self).registry()@ == old(self).registry()@
                &&& r matches Ok(id) ==> id.index == old(self).registry()@.defs.len()
                    && final(self).classes() == old(self).classes().update(
                    class.slot(),
                    Some(id),
                )
            },
    {
        let i = class.index();
        let style = match self.well_known_classes[i] {
            Some(current) => {
                self.update_style(current, properties);
                current
            },
            None => {
                match self.create_style(parent, properties) {
                    Ok(id) => id,
                    Err(e) => {
                        return Err(e);
                    },
                }
            },
        };
        self.set(class, style);
        Ok(style)
    }

    /// Resolves a property for a style class and state combination.
    pub fn resolve<K: PropertyKey>(&self, class: StyleClass, state: StateFlags) -> (r: &V)
        requires
            self.wf(),
        ensures
            *r == resolved_value(self.registry()@, self.class_style(class), K::spec_kind(), state),
    {
        let style_id = self.get_id(class);
        self.styles.resolve::<K>(style_id, state)
    }

    /// Resolves a property for a style ID and state combination.
    pub fn resolve_style<K: PropertyKey>(&self, style_id: StyleId, state: StateFlags) -> (r: &V)
        requires
            self.wf(),
            style_id.index < self.registry()@.defs.len(),
        ensures
            *r == resolved_value(self.registry()@, style_id, K::spec_kind(), state),
    {
        self.styles.resolve::<K>(style_id, state)
    }
}

} // verus!
