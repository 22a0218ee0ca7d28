//! The style registry: styles with optional parents, resolved eagerly.
//!
//! Each registered style keeps its definition (parent and overrides) so
//! that it can be rebuilt when an ancestor changes, and a resolved
//! [`Style`] used at runtime for direct property access. A style resolves
//! to its parent's resolved style (or the default template when it has no
//! parent) with its own overrides applied in order.

use vstd::prelude::*;
use crate::state_flags::StateFlags;
use crate::stateful_property::PropertyModel;
use crate::style::PROPERTY_COUNT;
use crate::style::PropertyKey;
use crate::style::PropertyKind;
use crate::style::Style;
use crate::style::StyleOverride;
use crate::small_lists::override_list_as_slice;
use crate::small_lists::override_list_items;
use crate::small_lists::override_list_new;
use crate::small_lists::override_list_push;
use crate::small_lists::style_ids_get;
use crate::small_lists::style_ids_items;
use crate::small_lists::style_ids_len;
use crate::small_lists::style_ids_new;
use crate::small_lists::style_ids_push;
use crate::small_lists::OverrideList;
use crate::small_lists::StyleIds;
use crate::style::StyleProperty;
use crate::style::ValueId;
use crate::style::apply_overrides;
use crate::style::lemma_apply_overrides_bounded;
use crate::style::lemma_apply_overrides_other_kind;
use crate::style::overrides_ids_below;
use crate::style::property_ids_below;
use crate::style::style_ids_below;
use crate::style::style_lookup;
use crate::style::style_wf;

verus! {

/// Styles may be nested at most this deep (a style and its ancestors).
pub const MAX_STYLE_TREE_DEPTH: usize = 32;

/// Identifies a style registered with a [`StyleRegistry`].
#[derive(Clone, Copy, Debug, PartialEq, Eq, Hash, Structural)]
pub struct StyleId {
    pub index: usize,
}

/// Why a style could not be registered.
#[derive(Clone, Copy, Debug, PartialEq, Eq, Structural)]
pub enum StyleError {
    StyleTreeDepthLimitExceeded,
}

/// Source definition of a style, kept to rebuild it when its parent changes.
pub struct StyleDef {
    parent: Option<StyleId>,
    overrides: OverrideList,
}

/// Abstract contents of a [`StyleDef`].
pub struct DefModel {
    pub parent: Option<StyleId>,
    pub overrides: Seq<StyleOverride>,
}

impl View for StyleDef {
    type V = DefModel;

    closed spec fn view(&self) -> DefModel {
        DefModel { parent: self.parent, overrides: override_list_items(self.overrides) }
    }
}

/// Abstract contents of a [`StyleRegistry`].
pub struct RegistryModel<V> {
    /// The style every parentless style starts from.
    pub template: Seq<PropertyModel<ValueId>>,
    /// Property values, addressed by [`ValueId`].
    pub values: Seq<V>,
    /// Definitions, addressed by [`StyleId`].
    pub defs: Seq<DefModel>,
    /// Resolved styles, addressed by [`StyleId`].
    pub resolved: Seq<Seq<PropertyModel<ValueId>>>,
    /// The styles registered with each style as parent, in registration order.
    pub children: Seq<Seq<StyleId>>,
}

/// What style `i` resolves to: its parent's resolution, or the template,
/// with its own overrides applied.
pub open spec fn target(
    defs: Seq<DefModel>,
    template: Seq<PropertyModel<ValueId>>,
    i: int,
) -> Seq<PropertyModel<ValueId>>
    decreases i,
{
    let base = match defs[i].parent {
        Some(p) => if 0 <= p.index < i {
            target(defs, template, p.index as int)
        } else {
            template
        },
        None => template,
    };
    apply_overrides(base, defs[i].overrides)
}

/// Number of ancestors of style `i`.
pub open spec fn depth(defs: Seq<DefModel>, i: int) -> nat
    decreases i,
{
    match defs[i].parent {
        Some(p) => if 0 <= p.index < i {
            1 + depth(defs, p.index as int)
        } else {
            0
        },
        None => 0,
    }
}

/// Style `i` is `root` or a descendant of `root`.
pub open spec fn in_subtree(defs: Seq<DefModel>, i: int, root: int) -> bool
    decreases i,
{
    i == root || match defs[i].parent {
        Some(p) => 0 <= p.index < i && in_subtree(defs, p.index as int, root),
        None => false,
    }
}

/// Style `c` has style `p` as its parent.
pub open spec fn is_parent_of(defs: Seq<DefModel>, p: int, c: int) -> bool {
    defs[c].parent matches Some(q) && q.index == p
}

/// Everything the registry keeps consistent, except that resolved styles
/// match their definitions.
pub open spec fn structure_wf<V>(m: RegistryModel<V>) -> bool {
    let n = m.defs.len();
    &&& n >= 1
    &&& n <= usize::MAX
    &&& m.resolved.len() == n
    &&& m.children.len() == n
    &&& m.defs[0].parent is None
    &&& style_wf(m.template)
    &&& style_ids_below(m.template, m.values.len())
    &&& forall|i: int|
        0 <= i < n ==> ((#[trigger] m.defs[i]).parent matches Some(p) ==> p.index < i)
    &&& forall|i: int|
        0 <= i < n ==> overrides_ids_below((#[trigger] m.defs[i]).overrides, m.values.len())
    &&& forall|i: int|
        0 <= i < n ==> style_wf(#[trigger] m.resolved[i]) && style_ids_below(
            m.resolved[i],
            m.values.len(),
        )
    &&& forall|p: int, k: int|
        0 <= p < n && 0 <= k < m.children[p].len() ==> {
            &&& (#[trigger] m.children[p][k]).index < n
            &&& is_parent_of(m.defs, p, m.children[p][k].index as int)
        }
    &&& forall|c: int|
        0 <= c < n && (#[trigger] m.defs[c]).parent is Some ==> m.children[m.defs[c].parent->0.index as int].contains(
            StyleId { index: c as usize },
        )
}

/// The resolved style of `i` matches its definition.
pub open spec fn resolved_ok<V>(m: RegistryModel<V>, i: int) -> bool {
    m.resolved[i] == target(m.defs, m.template, i)
}

/// The registry's invariant.
pub open spec fn registry_wf<V>(m: RegistryModel<V>) -> bool {
    &&& structure_wf(m)
    &&& forall|i: int| 0 <= i < m.defs.len() ==> #[trigger] resolved_ok(m, i)
}

/// The value property `kind` of style `id` has in `state`.
pub open spec fn resolved_value<V>(
    m: RegistryModel<V>,
    id: StyleId,
    kind: PropertyKind,
    state: StateFlags,
) -> V {
    m.values[style_lookup(m.resolved[id.index as int], kind, state).index as int]
}

/// Overrides made from a list of properties whose values were appended to
/// the value store starting at handle `base`.
pub open spec fn converted<V>(
    props: Seq<(StateFlags, StyleProperty<V>)>,
    base: nat,
) -> Seq<StyleOverride> {
    Seq::new(
        props.len(),
        |k: int| (props[k].0, props[k].1.kind, ValueId { index: (base + k) as usize }),
    )
}

/// The values of a list of properties.
pub open spec fn property_values<V>(props: Seq<(StateFlags, StyleProperty<V>)>) -> Seq<V> {
    Seq::new(props.len(), |k: int| props[k].1.value)
}

/// What a style with the given parent is built on: the parent's resolved
/// style when the parent belongs to the registry, otherwise the template.
pub open spec fn base_style<V>(m: RegistryModel<V>, parent: Option<StyleId>) -> Seq<
    PropertyModel<ValueId>,
> {
    match parent {
        Some(p) => if p.index < m.defs.len() {
            m.resolved[p.index as int]
        } else {
            m.template
        },
        None => m.template,
    }
}

/// Registry of styles, their inheritance and their resolved forms.
pub struct StyleRegistry<V> {
    default_style: StyleId,
    template: Style,
    values: Vec<V>,
    definitions: Vec<StyleDef>,
    resolved: Vec<Style>,
    children: Vec<StyleIds>,
}

impl<V> View for StyleRegistry<V> {
    type V = RegistryModel<V>;

    closed spec fn view(&self) -> RegistryModel<V> {
        RegistryModel {
            template: self.template@,
            values: self.values@,
            defs: self.definitions@.map_values(|d: StyleDef| d@),
            resolved: self.resolved@.map_values(|s: Style| s@),
            children: self.children@.map_values(|c: StyleIds| style_ids_items(c)),
        }
    }
}


/// Handles below a bound are below any larger bound.
pub proof fn lemma_style_ids_mono(s: Seq<PropertyModel<ValueId>>, b1: nat, b2: nat)
    requires
        style_ids_below(s, b1),
        b1 <= b2,
    ensures
        style_ids_below(s, b2),
{
    assert forall|k: int| 0 <= k < s.len() implies property_ids_below(#[trigger] s[k], b2) by {
        assert(property_ids_below(s[k], b1));
        assert forall|j: int| 0 <= j < s[k].overrides.len() implies (
        #[trigger] s[k].overrides[j]).1.index < b2 by {}
    }
}

/// Appending definitions leaves the resolution of existing styles alone.
pub proof fn lemma_target_prefix(
    defs: Seq<DefModel>,
    defs2: Seq<DefModel>,
    template: Seq<PropertyModel<ValueId>>,
    i: int,
)
    requires
        0 <= i < defs.len(),
        defs.len() <= defs2.len(),
        forall|j: int| 0 <= j < defs.len() ==> defs2[j] == defs[j],
    ensures
        target(defs2, template, i) == target(defs, template, i),
    decreases i,
{
    assert(defs2[i] == defs[i]);
    if let Some(p) = defs[i].parent {
        if 0 <= p.index < i {
            lemma_target_prefix(defs, defs2, template, p.index as int);
        }
    }
}

/// Changing the overrides of style `id` leaves the resolution of every
/// style outside the subtree of `id` alone.
pub proof fn lemma_target_frame(
    defs: Seq<DefModel>,
    defs2: Seq<DefModel>,
    template: Seq<PropertyModel<ValueId>>,
    i: int,
    id: int,
)
    requires
        0 <= i < defs.len(),
        0 <= id < defs.len(),
        defs2.len() == defs.len(),
        forall|j: int| 0 <= j < defs.len() && j != id ==> defs2[j] == defs[j],
        defs2[id].parent == defs[id].parent,
        !in_subtree(defs, i, id),
    ensures
        target(defs2, template, i) == target(defs, template, i),
    decreases i,
{
    assert(defs2[i] == defs[i]);
    if let Some(p) = defs[i].parent {
        if 0 <= p.index < i {
            lemma_target_frame(defs, defs2, template, p.index as int, id);
        }
    }
}

/// Members of a subtree come no earlier than its root.
pub proof fn lemma_subtree_ge(defs: Seq<DefModel>, i: int, root: int)
    requires
        in_subtree(defs, i, root),
    ensures
        i >= root,
    decreases i,
{
    if i != root {
        let p = defs[i].parent->0;
        lemma_subtree_ge(defs, p.index as int, root);
    }
}

/// A subtree of a subtree is part of the larger subtree.
pub proof fn lemma_subtree_trans(defs: Seq<DefModel>, i: int, c: int, r: int)
    requires
        in_subtree(defs, i, c),
        in_subtree(defs, c, r),
    ensures
        in_subtree(defs, i, r),
    decreases i,
{
    if i != c {
        let p = defs[i].parent->0;
        lemma_subtree_trans(defs, p.index as int, c, r);
    }
}

/// A proper member of a subtree lies below one of the root's children.
pub proof fn lemma_subtree_child(defs: Seq<DefModel>, i: int, id: int)
    requires
        in_subtree(defs, i, id),
        i != id,
    ensures
        exists|c: int|
            #![trigger is_parent_of(defs, id, c)]
            0 <= c <= i && is_parent_of(defs, id, c) && in_subtree(defs, i, c),
    decreases i,
{
    let p = defs[i].parent->0;
    let pi = p.index as int;
    if pi == id {
        assert(0 <= i && is_parent_of(defs, id, i) && in_subtree(defs, i, i));
    } else {
        lemma_subtree_child(defs, pi, id);
        let c = choose|c: int| 0 <= c <= pi && is_parent_of(defs, id, c) && in_subtree(defs, pi, c);
        assert(in_subtree(defs, i, c));
    }
}

impl<V> StyleRegistry<V> {
    /// The registry's invariant (see [`registry_wf`]).
    pub open spec fn wf(&self) -> bool {
        registry_wf(self@)
    }

    /// A registry holding only the default style. `defaults` holds the
    /// default value of each property kind, in the order the kinds are
    /// declared; a style without a parent starts from these values, and the
    /// default style resolves each kind, in every state, to its own.
    pub fn new(defaults: Vec<V>) -> (r: Self)
        requires
            defaults@.len() == PROPERTY_COUNT,
        ensures
            r.wf(),
            forall|i: int, state: StateFlags|
                0 <= i < PROPERTY_COUNT ==> #[trigger] resolved_value(
                    r@,
                    StyleId { index: 0 },
                    crate::style::declared_kinds()[i],
                    state,
                ) == defaults@[i],
            r@.values == defaults@,
            r@.defs.len() == 1,
            r@.defs[0].overrides.len() == 0,
            forall|k: int|
                0 <= k < PROPERTY_COUNT ==> #[trigger] r@.template[k] == (PropertyModel {
                    default: ValueId { index: k as usize },
                    overrides: Seq::<(StateFlags, ValueId)>::empty(),
                }),
    {
        let template = Style::with_defaults(0);
        let default_resolved = template.duplicate();
        let mut definitions: Vec<StyleDef> = Vec::new();
        definitions.push(StyleDef { parent: None, overrides: override_list_new() });
        let mut resolved: Vec<Style> = Vec::new();
        resolved.push(default_resolved);
        let mut children: Vec<StyleIds> = Vec::new();
        children.push(style_ids_new());
        let r = StyleRegistry {
            default_style: StyleId { index: 0 },
            template,
            values: defaults,
            definitions,
            resolved,
            children,
        };
        proof {
            let m = r@;
            assert(m.defs[0].overrides =~= Seq::<StyleOverride>::empty());
            assert(style_ids_below(m.template, m.values.len())) by {
                assert forall|k: int| 0 <= k < m.template.len() implies property_ids_below(
                    #[trigger] m.template[k],
                    m.values.len(),
                ) by {}
            }
            assert(resolved_ok(m, 0));
            assert(m.children[0] =~= Seq::<StyleId>::empty());
        }
        r
    }

    /// The style every registry starts with. All styles created through a
    /// theme inherit from it.
    pub fn default_style_id(&self) -> (r: StyleId)
        requires
            self.wf(),
        ensures
            r.index == 0,
    {
        StyleId { index: 0 }
    }

    /// Number of registered styles.
    pub fn len(&self) -> (r: usize)
        requires
            self.wf(),
        ensures
            r == self@.defs.len(),
    {
        self.definitions.len()
    }

    /// Get the resolved style for a StyleId, if it belongs to this registry.
    pub fn get(&self, style_id: StyleId) -> (r: Option<&Style>)
        requires
            self.wf(),
        ensures
            r is Some <==> style_id.index < self@.defs.len(),
            r matches Some(s) ==> s@ == self@.resolved[style_id.index as int],
    {
        if style_id.index < self.resolved.len() {
            Some(&self.resolved[style_id.index])
        } else {
            None
        }
    }

    /// The property value a handle refers to.
    pub fn value(&self, id: ValueId) -> (r: &V)
        requires
            id.index < self@.values.len(),
        ensures
            *r == self@.values[id.index as int],
    {
        &self.values[id.index]
    }

    /// The value of property `kind` of a style in `state`.
    pub fn resolve_kind(&self, style_id: StyleId, kind: PropertyKind, state: StateFlags) -> (r: &V)
        requires
            self.wf(),
            style_id.index < self@.defs.len(),
        ensures
            *r == resolved_value(self@, style_id, kind, state),
    {
        let style = &self.resolved[style_id.index];
        assert(self@.resolved[style_id.index as int] == style@);
        assert(style_wf(self@.resolved[style_id.index as int]));
        let id = style.resolve(kind, state);
        proof {
            let s = self@.resolved[style_id.index as int];
            crate::style::lemma_slot_bounds(kind);
            assert(property_ids_below(s[kind.slot()], self@.values.len()));
            crate::stateful_property::lemma_first_index_props(
                s[kind.slot()].overrides,
                crate::stateful_property::applies_in::<ValueId>(state),
            );
        }
        &self.values[id.index]
    }

    /// Type-directed property resolution: the value of the property named
    /// by key `K` of a style in `state`.
    pub fn resolve<K: PropertyKey>(&self, style_id: StyleId, state: StateFlags) -> (r: &V)
        requires
            self.wf(),
            style_id.index < self@.defs.len(),
        ensures
            *r == resolved_value(self@, style_id, K::spec_kind(), state),
    {
        self.resolve_kind(style_id, K::kind(), state)
    }
}


impl<V> StyleRegistry<V> {
    /// Move the values of `properties` into the value store and return the
    /// overrides that refer to them, in the same order.
    fn store_properties(&mut self, properties: Vec<(StateFlags, StyleProperty<V>)>) -> (r:
        OverrideList)
        requires
            old(self)@.values.len() + properties@.len() <= usize::MAX,
        ensures
            final(self)@.values == old(self)@.values + property_values(properties@),
            override_list_items(r) == converted(properties@, old(self)@.values.len()),
            final(self).template == old(self).template,
            final(self).definitions == old(self).definitions,
            final(self).resolved == old(self).resolved,
            final(self).children == old(self).children,
            final(self).default_style == old(self).default_style,
    {
        let ghost orig = properties@;
        let ghost n = orig.len();
        let mut props = properties;
        let mut rev: Vec<(StateFlags, StyleProperty<V>)> = Vec::new();
        while props.len() > 0
            invariant
                props@ == orig.subrange(0, props@.len() as int),
                rev@.len() + props@.len() == n,
                n == orig.len(),
                forall|j: int| 0 <= j < rev@.len() ==> #[trigger] rev@[j] == orig[n - 1 - j],
            decreases props@.len(),
        {
            let x = props.pop().unwrap();
            rev.push(x);
            assert(props@ =~= orig.subrange(0, props@.len() as int));
        }
        let base = self.values.len();
        let mut overrides = override_list_new();
        while rev.len() > 0
            invariant
                n == orig.len(),
                rev@.len() + override_list_items(overrides).len() == n,
                forall|j: int| 0 <= j < rev@.len() ==> #[trigger] rev@[j] == orig[n - 1 - j],
                base == old(self)@.values.len(),
                base + n <= usize::MAX,
                override_list_items(overrides) == converted(orig.subrange(0, override_list_items(overrides).len() as int), base as nat),
                self@.values == old(self)@.values + property_values(
                    orig.subrange(0, override_list_items(overrides).len() as int),
                ),
                self.template == old(self).template,
                self.definitions == old(self).definitions,
                self.resolved == old(self).resolved,
                self.children == old(self).children,
                self.default_style == old(self).default_style,
            decreases rev@.len(),
        {
            let ghost k = override_list_items(overrides).len() as int;
            let (flags, prop) = rev.pop().unwrap();
            assert((flags, prop) == orig[k]);
            let StyleProperty { kind, value } = prop;
            let id = self.values.len();
            self.values.push(value);
            override_list_push(&mut overrides, (flags, kind, ValueId { index: id }));
            proof {
                let pre = orig.subrange(0, k + 1);
                assert(override_list_items(overrides) =~= converted(pre, base as nat));
                assert(self@.values =~= old(self)@.values + property_values(pre));
            }
        }
        proof {
            assert(orig.subrange(0, n as int) == orig);
        }
        overrides
    }

    /// Build the resolved style of a definition: the base it inherits
    /// (see [`base_style`]) with its overrides applied.
    fn build_resolved(&self, parent: Option<StyleId>, overrides: &OverrideList) -> (r: Style)
        requires
            structure_wf(self@),
        ensures
            r@ == apply_overrides(base_style(self@, parent), override_list_items(*overrides)),
            style_wf(base_style(self@, parent)),
            style_ids_below(base_style(self@, parent), self@.values.len()),
    {
        let mut style = match parent {
            Some(p) => if p.index < self.resolved.len() {
                assert(self@.resolved[p.index as int] == self.resolved@[p.index as int]@);
                self.resolved[p.index].duplicate()
            } else {
                self.template.duplicate()
            },
            None => self.template.duplicate(),
        };
        style.apply_all(override_list_as_slice(overrides));
        style
    }
}


impl<V> StyleRegistry<V> {
    /// Register a new style with an optional parent and property overrides,
    /// and return its id. A style whose parent already has
    /// `MAX_STYLE_TREE_DEPTH - 1` ancestors is refused.
    pub fn register(
        &mut self,
        parent: Option<StyleId>,
        properties: Vec<(StateFlags, StyleProperty<V>)>,
    ) -> (r: Result<StyleId, StyleError>)
        requires
            old(self).wf(),
            parent matches Some(p) ==> p.index < old(self)@.defs.len(),
            old(self)@.defs.len() < usize::MAX,
            old(self)@.values.len() + properties@.len() <= usize::MAX,
        ensures
            final(self).wf(),
            r is Err <==> (parent matches Some(p) && depth(old(self)@.defs, p.index as int) + 1
                >= MAX_STYLE_TREE_DEPTH),
            r is Err ==> final(self)@ == old(self)@,
            r matches Ok(id) ==> {
                &&& id.index == old(self)@.defs.len()
                &&& final(self)@.defs == old(self)@.defs.push(
                    DefModel {
                        parent,
                        overrides: converted(properties@, old(self)@.values.len()),
                    },
                )
                &&& final(self)@.values == old(self)@.values + property_values(properties@)
                &&& final(self)@.template == old(self)@.template
                &&& forall|i: int|
                    0 <= i < old(self)@.defs.len() ==> #[trigger] final(self)@.resolved[i]
                        == old(self)@.resolved[i]
            },
    {
        let ghost m0 = self@;
        if let Some(p) = parent {
            let mut current = p.index;
            let mut d: usize = 1;
            while self.definitions[current].parent.is_some()
                invariant
                    self@ == m0,
                    m0 == old(self)@,
                    parent == Some(p),
                    registry_wf(m0),
                    current < m0.defs.len(),
                    1 <= d < MAX_STYLE_TREE_DEPTH,
                    d + depth(m0.defs, current as int) == 1 + depth(m0.defs, p.index as int),
                decreases current,
            {
                assert(self.definitions@[current as int]@ == m0.defs[current as int]);
                let q = self.definitions[current].parent.unwrap();
                assert(q.index < current);
                assert(depth(m0.defs, current as int) == 1 + depth(m0.defs, q.index as int));
                d += 1;
                assert(d + depth(m0.defs, q.index as int) == 1 + depth(m0.defs, p.index as int));
                if d >= MAX_STYLE_TREE_DEPTH {
                    return Err(StyleError::StyleTreeDepthLimitExceeded);
                }
                current = q.index;
            }
            assert(self.definitions@[current as int]@ == m0.defs[current as int]);
            assert(depth(m0.defs, current as int) == 0);
        }
        let overrides = self.store_properties(properties);
        let ghost m1 = self@;
        proof {
            lemma_style_ids_mono(m1.template, m0.values.len(), m1.values.len());
            assert forall|i: int| 0 <= i < m1.defs.len() implies overrides_ids_below(
                (#[trigger] m1.defs[i]).overrides,
                m1.values.len(),
            ) && style_wf(m1.resolved[i]) && style_ids_below(m1.resolved[i], m1.values.len()) by {
                assert(m1.defs[i] == m0.defs[i]);
                assert(m1.resolved[i] == m0.resolved[i]);
                lemma_style_ids_mono(m1.resolved[i], m0.values.len(), m1.values.len());
            }
            assert(structure_wf(m1));
            assert(overrides_ids_below(override_list_items(overrides), m1.values.len()));
        }
        let resolved = self.build_resolved(parent, &overrides);
        proof {
            lemma_apply_overrides_bounded(base_style(m1, parent), override_list_items(overrides), m1.values.len());
        }
        let id = StyleId { index: self.definitions.len() };
        self.definitions.push(StyleDef { parent, overrides });
        self.resolved.push(resolved);
        self.children.push(style_ids_new());
        if let Some(p) = parent {
            style_ids_push(&mut self.children[p.index], id);
        }
        proof {
            let m2 = self@;
            let n = m0.defs.len();
            let nd = DefModel { parent, overrides: converted(properties@, m0.values.len()) };
            assert(m2.defs =~= m0.defs.push(nd));
            assert(m2.resolved.len() == n + 1);
            assert forall|i: int| 0 <= i < n implies #[trigger] m2.resolved[i] == m0.resolved[i] by {}
            assert forall|i: int| 0 <= i <= n implies #[trigger] resolved_ok(m2, i) by {
                if i < n {
                    lemma_target_prefix(m0.defs, m2.defs, m2.template, i);
                    assert(resolved_ok(m0, i));
                } else {
                    if let Some(p) = parent {
                        lemma_target_prefix(m0.defs, m2.defs, m2.template, p.index as int);
                        assert(resolved_ok(m0, p.index as int));
                    }
                }
            }
            assert forall|c: int|
                0 <= c < m2.defs.len() && (#[trigger] m2.defs[c]).parent is Some implies m2.children[m2.defs[c].parent->0.index as int].contains(
                StyleId { index: c as usize },
            ) by {
                if c < n {
                    assert(m2.defs[c] == m0.defs[c]);
                    let q = m0.defs[c].parent->0.index as int;
                    let k = choose|k: int|
                        0 <= k < m0.children[q].len() && m0.children[q][k] == StyleId {
                            index: c as usize,
                        };
                    assert(m2.children[q][k] == m0.children[q][k]);
                } else {
                    let q = parent->0.index as int;
                    assert(m2.children[q].last() == id);
                }
            }
            assert forall|q: int, k: int|
                0 <= q < m2.defs.len() && 0 <= k < m2.children[q].len() implies {
                &&& (#[trigger] m2.children[q][k]).index < m2.defs.len()
                &&& is_parent_of(m2.defs, q, m2.children[q][k].index as int)
            } by {
                if q < n && !(parent matches Some(p) && p.index == q && k == m2.children[q].len()
                    - 1) {
                    assert(m2.children[q][k] == m0.children[q][k]);
                    assert(m2.defs[m0.children[q][k].index as int] == m0.defs[m0.children[
                        q][k].index as int]);
                }
            }
            assert forall|i: int| 0 <= i < m2.defs.len() implies overrides_ids_below(
                (#[trigger] m2.defs[i]).overrides,
                m2.values.len(),
            ) && style_wf(m2.resolved[i]) && style_ids_below(m2.resolved[i], m2.values.len()) by {
                if i < n {
                    assert(m2.defs[i] == m1.defs[i]);
                    assert(m2.resolved[i] == m1.resolved[i]);
                }
            }
            assert forall|i: int|
                0 <= i < m2.defs.len() implies ((#[trigger] m2.defs[i]).parent matches Some(p)
                ==> p.index < i) by {
                if i < n {
                    assert(m2.defs[i] == m0.defs[i]);
                }
            }
        }
        Ok(id)
    }
}


impl<V> StyleRegistry<V> {
    /// Rebuild the resolved form of a style and of all its descendants.
    fn regenerate(&mut self, style_id: usize)
        requires
            structure_wf(old(self)@),
            style_id < old(self)@.defs.len(),
            old(self)@.defs[style_id as int].parent matches Some(p) ==> resolved_ok(
                old(self)@,
                p.index as int,
            ),
        ensures
            structure_wf(final(self)@),
            final(self)@.defs == old(self)@.defs,
            final(self)@.template == old(self)@.template,
            final(self)@.values == old(self)@.values,
            final(self)@.children == old(self)@.children,
            final(self)@.resolved.len() == old(self)@.resolved.len(),
            forall|i: int|
                0 <= i < old(self)@.defs.len() && in_subtree(old(self)@.defs, i, style_id as int)
                    ==> #[trigger] resolved_ok(final(self)@, i),
            forall|i: int|
                0 <= i < old(self)@.defs.len() && !in_subtree(old(self)@.defs, i, style_id as int)
                    ==> #[trigger] final(self)@.resolved[i] == old(self)@.resolved[i],
        decreases old(self)@.defs.len() - style_id,
    {
        let ghost m0 = self@;
        let ghost n = m0.defs.len();
        let ghost id = style_id as int;
        assert(self.definitions@[id]@ == m0.defs[id]);
        let parent = self.definitions[style_id].parent;
        let rebuilt = self.build_resolved(parent, &self.definitions[style_id].overrides);
        proof {
            lemma_apply_overrides_bounded(base_style(m0, parent), m0.defs[id].overrides, m0.values.len());
            if let Some(p) = parent {
                assert(resolved_ok(m0, p.index as int));
            }
        }
        self.resolved.set(style_id, rebuilt);
        let ghost m1 = self@;
        proof {
            assert(resolved_ok(m1, id));
            assert forall|i: int| 0 <= i < n && i != id implies #[trigger] m1.resolved[i]
                == m0.resolved[i] by {}
            assert forall|i: int| 0 <= i < n implies style_wf(#[trigger] m1.resolved[i])
                && style_ids_below(m1.resolved[i], m1.values.len()) by {}
            assert(structure_wf(m1));
        }
        let count = style_ids_len(&self.children[style_id]);
        let mut k: usize = 0;
        while k < count
            invariant
                k <= count,
                count == m0.children[id].len(),
                0 <= id < n,
                id == style_id as int,
                m0 == old(self)@,
                n == m0.defs.len(),
                structure_wf(m0),
                structure_wf(self@),
                self@.defs == m0.defs,
                self@.template == m0.template,
                self@.values == m0.values,
                self@.children == m0.children,
                self@.resolved.len() == n,
                resolved_ok(self@, id),
                forall|i: int|
                    0 <= i < n && in_subtree(m0.defs, i, id) && (exists|j: int|
                        0 <= j < k && in_subtree(
                            m0.defs,
                            i,
                            #[trigger] m0.children[id][j].index as int,
                        )) ==> #[trigger] resolved_ok(self@, i),
                forall|i: int|
                    0 <= i < n && !in_subtree(m0.defs, i, id) ==> #[trigger] self@.resolved[i]
                        == m0.resolved[i],
            decreases count - k,
        {
            assert(style_ids_items(self.children@[id]) == m0.children[id]);
            assert(self.children@.len() == n);
            let child = style_ids_get(&self.children[style_id], k);
            assert(m0.children[id][k as int] == child);
            let ghost c = child.index as int;
            let ghost before = self@;
            proof {
                assert(is_parent_of(m0.defs, id, c));
                assert(m0.defs[c].parent->0.index == id);
                assert(m0.defs[c].parent->0.index < c);
                assert(in_subtree(m0.defs, id, id));
                assert(in_subtree(m0.defs, c, id));
                lemma_subtree_ge(m0.defs, c, id);
                assert(c < n);
                assert(self@.defs.len() - c < m0.defs.len() - id);
            }
            self.regenerate(child.index);
            proof {
                let after = self@;
                assert forall|i: int|
                    0 <= i < n && !in_subtree(m0.defs, i, id) implies #[trigger] after.resolved[i]
                    == m0.resolved[i] by {
                    if in_subtree(m0.defs, i, c) {
                        lemma_subtree_trans(m0.defs, i, c, id);
                    }
                }
                assert(!in_subtree(m0.defs, id, c)) by {
                    if in_subtree(m0.defs, id, c) {
                        lemma_subtree_ge(m0.defs, id, c);
                    }
                }
                assert(after.resolved[id] == before.resolved[id]);
                assert forall|i: int|
                    0 <= i < n && in_subtree(m0.defs, i, id) && (exists|j: int|
                        0 <= j < k + 1 && in_subtree(
                            m0.defs,
                            i,
                            #[trigger] m0.children[id][j].index as int,
                        )) implies #[trigger] resolved_ok(after, i) by {
                    if in_subtree(m0.defs, i, c) {
                    } else {
                        let j = choose|j: int|
                            0 <= j < k + 1 && in_subtree(
                                m0.defs,
                                i,
                                #[trigger] m0.children[id][j].index as int,
                            );
                        assert(j < k);
                        assert(resolved_ok(before, i));
                    }
                }
            }
            k += 1;
        }
        proof {
            assert forall|i: int| 0 <= i < n && in_subtree(m0.defs, i, id) implies #[trigger] resolved_ok(
                self@,
                i,
            ) by {
                if i != id {
                    lemma_subtree_child(m0.defs, i, id);
                    let c = choose|c: int|
                        #![trigger is_parent_of(m0.defs, id, c)]
                        0 <= c <= i && is_parent_of(m0.defs, id, c) && in_subtree(m0.defs, i, c);
                    assert(m0.defs[c].parent is Some);
                    assert(m0.children[id].contains(StyleId { index: c as usize }));
                    let j = choose|j: int|
                        0 <= j < m0.children[id].len() && m0.children[id][j] == StyleId {
                            index: c as usize,
                        };
                    assert(in_subtree(m0.defs, i, m0.children[id][j].index as int));
                }
            }
        }
    }

    /// Replace a style's overrides, then rebuild it and all its descendants.
    pub fn update(&mut self, style_id: StyleId, properties: Vec<(StateFlags, StyleProperty<V>)>)
        requires
            old(self).wf(),
            style_id.index < old(self)@.defs.len(),
            old(self)@.values.len() + properties@.len() <= usize::MAX,
        ensures
            final(self).wf(),
            final(self)@.defs == old(self)@.defs.update(
                style_id.index as int,
                DefModel {
                    parent: old(self)@.defs[style_id.index as int].parent,
                    overrides: converted(properties@, old(self)@.values.len()),
                },
            ),
            final(self)@.values == old(self)@.values + property_values(properties@),
            final(self)@.template == old(self)@.template,
            final(self)@.children == old(self)@.children,
            forall|j: int|
                0 <= j < old(self)@.defs.len() && !in_subtree(
                    old(self)@.defs,
                    j,
                    style_id.index as int,
                ) ==> #[trigger] final(self)@.resolved[j] == old(self)@.resolved[j],
    {
        let ghost m0 = self@;
        let ghost id = style_id.index as int;
        let overrides = self.store_properties(properties);
        let ghost m1 = self@;
        let parent = self.definitions[style_id.index].parent;
        assert(self.definitions@[id]@ == m0.defs[id]);
        self.definitions.set(style_id.index, StyleDef { parent, overrides });
        let ghost m2 = self@;
        proof {
            let n = m0.defs.len();
            let nd = DefModel { parent, overrides: converted(properties@, m0.values.len()) };
            assert(m2.defs =~= m0.defs.update(id, nd));
            lemma_style_ids_mono(m2.template, m0.values.len(), m2.values.len());
            assert forall|i: int| 0 <= i < n implies overrides_ids_below(
                (#[trigger] m2.defs[i]).overrides,
                m2.values.len(),
            ) && style_wf(m2.resolved[i]) && style_ids_below(m2.resolved[i], m2.values.len()) by {
                assert(m2.resolved[i] == m0.resolved[i]);
                lemma_style_ids_mono(m2.resolved[i], m0.values.len(), m2.values.len());
                if i != id {
                    assert(m2.defs[i] == m0.defs[i]);
                }
            }
            assert forall|i: int|
                0 <= i < n implies ((#[trigger] m2.defs[i]).parent matches Some(p) ==> p.index
                < i) by {
                if i != id {
                    assert(m2.defs[i] == m0.defs[i]);
                }
            }
            assert forall|q: int, k: int|
                0 <= q < n && 0 <= k < m2.children[q].len() implies {
                &&& (#[trigger] m2.children[q][k]).index < n
                &&& is_parent_of(m2.defs, q, m2.children[q][k].index as int)
            } by {
                let c = m0.children[q][k].index as int;
                if c != id {
                    assert(m2.defs[c] == m0.defs[c]);
                }
            }
            assert forall|c: int|
                0 <= c < n && (#[trigger] m2.defs[c]).parent is Some implies m2.children[m2.defs[c].parent->0.index as int].contains(
                StyleId { index: c as usize },
            ) by {
                if c != id {
                    assert(m2.defs[c] == m0.defs[c]);
                }
            }
            assert(structure_wf(m2));
            assert forall|i: int| 0 <= i < n && !in_subtree(m0.defs, i, id) implies #[trigger] resolved_ok(
                m2,
                i,
            ) by {
                lemma_target_frame(m0.defs, m2.defs, m2.template, i, id);
                assert(resolved_ok(m0, i));
            }
            assert(forall|i: int| 0 <= i < n ==> in_subtree(m0.defs, i, id) == in_subtree(m2.defs, i, id)) by {
                assert forall|i: int| 0 <= i < n implies in_subtree(m0.defs, i, id) == in_subtree(
                    m2.defs,
                    i,
                    id,
                ) by {
                    lemma_subtree_same_parents(m0.defs, m2.defs, i, id);
                }
            }
            if let Some(p) = parent {
                assert(!in_subtree(m0.defs, p.index as int, id)) by {
                    if in_subtree(m0.defs, p.index as int, id) {
                        lemma_subtree_ge(m0.defs, p.index as int, id);
                    }
                }
                assert(resolved_ok(m2, p.index as int));
            }
        }
        self.regenerate(style_id.index);
        proof {
            let m3 = self@;
            assert forall|i: int| 0 <= i < m3.defs.len() implies #[trigger] resolved_ok(m3, i) by {
                if !in_subtree(m2.defs, i, id) {
                    assert(resolved_ok(m2, i));
                }
            }
        }
    }
}

/// Membership in a subtree depends only on the parents of the styles.
pub proof fn lemma_subtree_same_parents(
    defs: Seq<DefModel>,
    defs2: Seq<DefModel>,
    i: int,
    root: int,
)
    requires
        0 <= i < defs.len(),
        defs2.len() == defs.len(),
        forall|j: int| 0 <= j < defs.len() ==> (#[trigger] defs2[j]).parent == defs[j].parent,
    ensures
        in_subtree(defs, i, root) == in_subtree(defs2, i, root),
    decreases i,
{
    assert(defs2[i].parent == defs[i].parent);
    if let Some(p) = defs[i].parent {
        if 0 <= p.index < i {
            lemma_subtree_same_parents(defs, defs2, p.index as int, root);
        }
    }
}


/// Inheritance: a style that overrides nothing of a property kind resolves
/// that property, in every state, exactly as its parent does.
pub proof fn lemma_inherits_from_parent<V>(
    m: RegistryModel<V>,
    child: StyleId,
    kind: PropertyKind,
    state: StateFlags,
)
    requires
        registry_wf(m),
        child.index < m.defs.len(),
        m.defs[child.index as int].parent is Some,
        forall|j: int|
            0 <= j < m.defs[child.index as int].overrides.len()
                ==> (#[trigger] m.defs[child.index as int].overrides[j]).1 != kind,
    ensures
        resolved_value(m, child, kind, state) == resolved_value(
            m,
            m.defs[child.index as int].parent->0,
            kind,
            state,
        ),
{
    let c = child.index as int;
    let p = m.defs[c].parent->0.index as int;
    assert(m.defs[c].parent->0.index < c);
    assert(resolved_ok(m, c));
    assert(resolved_ok(m, p));
    assert(style_wf(m.resolved[p]));
    lemma_apply_overrides_other_kind(m.resolved[p], m.defs[c].overrides, kind);
}

/// A style without a parent resolves to the default template with its own
/// overrides applied.
pub proof fn lemma_parentless_uses_template<V>(m: RegistryModel<V>, id: StyleId)
    requires
        registry_wf(m),
        id.index < m.defs.len(),
        m.defs[id.index as int].parent is None,
    ensures
        m.resolved[id.index as int] == apply_overrides(m.template, m.defs[id.index as int].overrides),
{
    assert(resolved_ok(m, id.index as int));
}

} // verus!
