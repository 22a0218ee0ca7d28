//! The style properties, and a style: one stateful property per kind.
//!
//! Property values are held by their owner (the registry) and referred to
//! here by [`ValueId`], so that styles can be copied and compared exactly.

use vstd::prelude::*;
use crate::state_flags::StateFlags;
use crate::stateful_property::PropertyModel;
use crate::stateful_property::StatefulProperty;
use crate::stateful_property::lookup;
use crate::stateful_property::model_set;
use crate::stateful_property::model_wf;

verus! {

/// Number of style properties.
pub const PROPERTY_COUNT: usize = 25;

/// The kinds of style property a [`Style`] holds.
#[derive(Clone, Copy, Debug, PartialEq, Eq, Hash, Structural)]
pub enum PropertyKind {
    /// The widget's background paint.
    Background,
    /// The border's gradient paint.
    Border,
    /// The widths of the four border edges.
    BorderWidths,
    /// The radii of the four corners.
    CornerRadii,
    /// The inner padding.
    Padding,
    /// Alignment of children along the layout direction.
    ChildMajorAlignment,
    /// Alignment of children across the layout direction.
    ChildMinorAlignment,
    /// Spacing between children.
    ChildSpacing,
    /// Direction in which children are laid out.
    ChildDirection,
    /// Whether children are clipped to the widget.
    ClipChildren,
    /// The width specification.
    Width,
    /// The height specification.
    Height,
    /// The font.
    Font,
    /// The font size.
    FontSize,
    /// The font style.
    FontStyle,
    /// The font weight.
    FontWeight,
    /// The strikethrough color.
    StrikethroughColor,
    /// The strikethrough offset.
    StrikethroughOffset,
    /// The text alignment.
    TextAlignment,
    /// The text color.
    TextColor,
    /// The underline color.
    UnderlineColor,
    /// The underline offset.
    UnderlineOffset,
    /// The color of selected text's background.
    SelectionColor,
    /// The color of selected text.
    SelectionTextColor,
    /// The text cursor's color.
    CursorColor,
}

impl PropertyKind {
    /// Position of this kind's property within a style.
    pub open spec fn slot(self) -> int {
        match self {
            PropertyKind::Background => 0,
            PropertyKind::Border => 1,
            PropertyKind::BorderWidths => 2,
            PropertyKind::CornerRadii => 3,
            PropertyKind::Padding => 4,
            PropertyKind::ChildMajorAlignment => 5,
            PropertyKind::ChildMinorAlignment => 6,
            PropertyKind::ChildSpacing => 7,
            PropertyKind::ChildDirection => 8,
            PropertyKind::ClipChildren => 9,
            PropertyKind::Width => 10,
            PropertyKind::Height => 11,
            PropertyKind::Font => 12,
            PropertyKind::FontSize => 13,
            PropertyKind::FontStyle => 14,
            PropertyKind::FontWeight => 15,
            PropertyKind::StrikethroughColor => 16,
            PropertyKind::StrikethroughOffset => 17,
            PropertyKind::TextAlignment => 18,
            PropertyKind::TextColor => 19,
            PropertyKind::UnderlineColor => 20,
            PropertyKind::UnderlineOffset => 21,
            PropertyKind::SelectionColor => 22,
            PropertyKind::SelectionTextColor => 23,
            PropertyKind::CursorColor => 24,
        }
    }

    /// Position of this kind's property within a style.
    pub fn index(self) -> (r: usize)
        ensures
            r == self.slot(),
            r < PROPERTY_COUNT,
    {
        match self {
            PropertyKind::Background => 0,
            PropertyKind::Border => 1,
            PropertyKind::BorderWidths => 2,
            PropertyKind::CornerRadii => 3,
            PropertyKind::Padding => 4,
            PropertyKind::ChildMajorAlignment => 5,
            PropertyKind::ChildMinorAlignment => 6,
            PropertyKind::ChildSpacing => 7,
            PropertyKind::ChildDirection => 8,
            PropertyKind::ClipChildren => 9,
            PropertyKind::Width => 10,
            PropertyKind::Height => 11,
            PropertyKind::Font => 12,
            PropertyKind::FontSize => 13,
            PropertyKind::FontStyle => 14,
            PropertyKind::FontWeight => 15,
            PropertyKind::StrikethroughColor => 16,
            PropertyKind::StrikethroughOffset => 17,
            PropertyKind::TextAlignment => 18,
            PropertyKind::TextColor => 19,
            PropertyKind::UnderlineColor => 20,
            PropertyKind::UnderlineOffset => 21,
            PropertyKind::SelectionColor => 22,
            PropertyKind::SelectionTextColor => 23,
            PropertyKind::CursorColor => 24,
        }
    }
}

/// Every kind sits at its own position, below `PROPERTY_COUNT`.
pub proof fn lemma_slot_bounds(k: PropertyKind)
    ensures
        0 <= k.slot() < PROPERTY_COUNT,
{
}

/// The property kinds in the order they are declared, which is the order
/// in which default values are given to a new registry.
pub open spec fn declared_kinds() -> Seq<PropertyKind> {
    seq![
        PropertyKind::Background,
        PropertyKind::Border,
        PropertyKind::BorderWidths,
        PropertyKind::CornerRadii,
        PropertyKind::Padding,
        PropertyKind::ChildMajorAlignment,
        PropertyKind::ChildMinorAlignment,
        PropertyKind::ChildSpacing,
        PropertyKind::ChildDirection,
        PropertyKind::ClipChildren,
        PropertyKind::Width,
        PropertyKind::Height,
        PropertyKind::Font,
        PropertyKind::FontSize,
        PropertyKind::FontStyle,
        PropertyKind::FontWeight,
        PropertyKind::StrikethroughColor,
        PropertyKind::StrikethroughOffset,
        PropertyKind::TextAlignment,
        PropertyKind::TextColor,
        PropertyKind::UnderlineColor,
        PropertyKind::UnderlineOffset,
        PropertyKind::SelectionColor,
        PropertyKind::SelectionTextColor,
        PropertyKind::CursorColor,
    ]
}

/// Each kind's slot is its position in the declared order, and distinct
/// kinds have distinct slots.
pub proof fn lemma_slot_is_declared_position(k: PropertyKind, other: PropertyKind)
    ensures
        declared_kinds().len() == PROPERTY_COUNT,
        declared_kinds()[k.slot()] == k,
        k != other ==> k.slot() != other.slot(),
        forall|i: int| 0 <= i < PROPERTY_COUNT ==> (#[trigger] declared_kinds()[i]).slot() == i,
{
    assert(declared_kinds()[k.slot()] == k);
}

/// A handle to a property value held by the value's owner.
#[derive(Clone, Copy, Debug, PartialEq, Eq, Hash, Structural)]
pub struct ValueId {
    pub index: usize,
}

/// A property value together with the kind of property it is for.
pub struct StyleProperty<V> {
    pub kind: PropertyKind,
    pub value: V,
}

/// One override of a style definition: for the states `.0`, property kind
/// `.1` takes value `.2`.
pub type StyleOverride = (StateFlags, PropertyKind, ValueId);

/// A resolved style: one stateful property per kind, in slot order.
pub struct Style {
    properties: Vec<StatefulProperty<ValueId>>,
}

impl View for Style {
    type V = Seq<PropertyModel<ValueId>>;

    closed spec fn view(&self) -> Seq<PropertyModel<ValueId>> {
        self.properties@.map_values(|p: StatefulProperty<ValueId>| p@)
    }
}

/// A style model has one well-formed property per kind.
pub open spec fn style_wf(s: Seq<PropertyModel<ValueId>>) -> bool {
    &&& s.len() == PROPERTY_COUNT
    &&& forall|k: int| 0 <= k < s.len() ==> model_wf(#[trigger] s[k])
}

/// A style model after one override.
pub open spec fn apply_override(
    s: Seq<PropertyModel<ValueId>>,
    o: StyleOverride,
) -> Seq<PropertyModel<ValueId>> {
    s.update(o.1.slot(), model_set(s[o.1.slot()], o.0, o.2))
}

/// A style model after a list of overrides, applied in order.
pub open spec fn apply_overrides(
    s: Seq<PropertyModel<ValueId>>,
    ovs: Seq<StyleOverride>,
) -> Seq<PropertyModel<ValueId>>
    decreases ovs.len(),
{
    if ovs.len() == 0 {
        s
    } else {
        apply_override(apply_overrides(s, ovs.drop_last()), ovs.last())
    }
}

/// The value handle of property `kind` of a style model in `state`.
pub open spec fn style_lookup(
    s: Seq<PropertyModel<ValueId>>,
    kind: PropertyKind,
    state: StateFlags,
) -> ValueId {
    lookup(s[kind.slot()], state)
}

/// Every value handle a property refers to is below `bound`.
pub open spec fn property_ids_below(m: PropertyModel<ValueId>, bound: nat) -> bool {
    &&& m.default.index < bound
    &&& forall|j: int| 0 <= j < m.overrides.len() ==> (#[trigger] m.overrides[j]).1.index < bound
}

/// Every value handle a style refers to is below `bound`.
pub open spec fn style_ids_below(s: Seq<PropertyModel<ValueId>>, bound: nat) -> bool {
    forall|k: int| 0 <= k < s.len() ==> property_ids_below(#[trigger] s[k], bound)
}

/// Every value handle a list of overrides refers to is below `bound`.
pub open spec fn overrides_ids_below(ovs: Seq<StyleOverride>, bound: nat) -> bool {
    forall|j: int| 0 <= j < ovs.len() ==> (#[trigger] ovs[j]).2.index < bound
}

impl Style {
    /// A style whose property of each kind has the default value `first + slot`
    /// and no overrides.
    pub fn with_defaults(first: usize) -> (r: Style)
        requires
            first + PROPERTY_COUNT <= usize::MAX,
        ensures
            style_wf(r@),
            forall|k: int|
                0 <= k < PROPERTY_COUNT ==> #[trigger] r@[k] == (PropertyModel {
                    default: ValueId { index: (first + k) as usize },
                    overrides: Seq::<(StateFlags, ValueId)>::empty(),
                }),
    {
        let mut properties: Vec<StatefulProperty<ValueId>> = Vec::new();
        let mut i: usize = 0;
        while i < PROPERTY_COUNT
            invariant
                i <= PROPERTY_COUNT,
                first + PROPERTY_COUNT <= usize::MAX,
                properties@.len() == i,
                forall|k: int|
                    0 <= k < i ==> (#[trigger] properties@[k])@ == (PropertyModel {
                        default: ValueId { index: (first + k) as usize },
                        overrides: Seq::<(StateFlags, ValueId)>::empty(),
                    }),
            decreases PROPERTY_COUNT - i,
        {
            properties.push(StatefulProperty::new(ValueId { index: first + i }));
            i += 1;
        }
        let r = Style { properties };
        assert(r@.len() == PROPERTY_COUNT);
        r
    }

    /// The property of the given kind.
    pub fn get(&self, kind: PropertyKind) -> (r: &StatefulProperty<ValueId>)
        requires
            style_wf(self@),
        ensures
            r@ == self@[kind.slot()],
    {
        let i = kind.index();
        &self.properties[i]
    }

    /// The value handle of property `kind` in `state`.
    pub fn resolve(&self, kind: PropertyKind, state: StateFlags) -> (r: ValueId)
        requires
            style_wf(self@),
        ensures
            r == style_lookup(self@, kind, state),
    {
        let i = kind.index();
        *self.properties[i].get_ref(state)
    }

    /// Apply a single property override for the given state.
    pub fn apply(&mut self, flags: StateFlags, kind: PropertyKind, value: ValueId)
        requires
            style_wf(old(self)@),
        ensures
            final(self)@ == apply_override(old(self)@, (flags, kind, value)),
            style_wf(final(self)@),
    {
        let i = kind.index();
        let ghost s = self@;
        assert(model_wf(s[i as int]));
        self.properties[i].set(flags, value);
        assert(self@ =~= apply_override(s, (flags, kind, value)));
    }

    /// Apply several overrides, in order.
    pub fn apply_all(&mut self, overrides: &[StyleOverride])
        requires
            style_wf(old(self)@),
        ensures
            final(self)@ == apply_overrides(old(self)@, overrides@),
            style_wf(final(self)@),
    {
        let ghost s0 = self@;
        let n = overrides.len();
        let mut i: usize = 0;
        while i < n
            invariant
                n == overrides@.len(),
                i <= n,
                style_wf(self@),
                self@ == apply_overrides(s0, overrides@.subrange(0, i as int)),
            decreases n - i,
        {
            let o = overrides[i];
            self.apply(o.0, o.1, o.2);
            proof {
                let pre = overrides@.subrange(0, i + 1);
                assert(pre.drop_last() == overrides@.subrange(0, i as int));
                assert(pre.last() == o);
            }
            i += 1;
        }
        assert(overrides@.subrange(0, n as int) == overrides@);
    }

    /// An exact copy of the style.
    pub fn duplicate(&self) -> (r: Style)
        ensures
            r@ == self@,
    {
        let n = self.properties.len();
        let mut properties: Vec<StatefulProperty<ValueId>> = Vec::new();
        let mut i: usize = 0;
        while i < n
            invariant
                n == self.properties@.len(),
                i <= n,
                properties@.len() == i,
                forall|k: int| 0 <= k < i ==> (#[trigger] properties@[k])@ == self.properties@[k]@,
            decreases n - i,
        {
            properties.push(self.properties[i].duplicate());
            i += 1;
        }
        let r = Style { properties };
        assert(r@ =~= self@);
        r
    }
}

/// Setting one override keeps every value handle below a bound that the
/// property and the new value are below.
pub proof fn lemma_set_ids_below(m: PropertyModel<ValueId>, f: StateFlags, v: ValueId, bound: nat)
    requires
        property_ids_below(m, bound),
        v.index < bound,
    ensures
        property_ids_below(model_set(m, f, v), bound),
{
    let r = model_set(m, f, v);
    let e = crate::stateful_property::first_index(
        m.overrides,
        crate::stateful_property::same_flags::<ValueId>(f),
    );
    crate::stateful_property::lemma_first_index_props(
        m.overrides,
        crate::stateful_property::same_flags::<ValueId>(f),
    );
    if e < m.overrides.len() {
        assert(r.overrides == m.overrides.update(e, (f, v)));
        assert forall|j: int| 0 <= j < r.overrides.len() implies (
        #[trigger] r.overrides[j]).1.index < bound by {
            if j != e {
                assert(r.overrides[j] == m.overrides[j]);
            }
        }
    } else {
        let p = crate::stateful_property::insert_position(m.overrides, f);
        crate::stateful_property::lemma_first_index_props(
            m.overrides,
            crate::stateful_property::less_specific::<ValueId>(f),
        );
        assert(r.overrides == m.overrides.insert(p, (f, v)));
        assert forall|j: int| 0 <= j < r.overrides.len() implies (
        #[trigger] r.overrides[j]).1.index < bound by {
            if j < p {
                assert(r.overrides[j] == m.overrides[j]);
            } else if j > p {
                assert(r.overrides[j] == m.overrides[j - 1]);
            }
        }
    }
}

/// Applying overrides whose handles are below a bound keeps a style's
/// handles below it, and keeps the style well formed.
pub proof fn lemma_apply_overrides_bounded(
    s: Seq<PropertyModel<ValueId>>,
    ovs: Seq<StyleOverride>,
    bound: nat,
)
    requires
        style_wf(s),
        style_ids_below(s, bound),
        overrides_ids_below(ovs, bound),
    ensures
        style_wf(apply_overrides(s, ovs)),
        style_ids_below(apply_overrides(s, ovs), bound),
    decreases ovs.len(),
{
    if ovs.len() > 0 {
        let pre = ovs.drop_last();
        assert(overrides_ids_below(pre, bound)) by {
            assert forall|j: int| 0 <= j < pre.len() implies (#[trigger] pre[j]).2.index
                < bound by {
                assert(pre[j] == ovs[j]);
            }
        }
        lemma_apply_overrides_bounded(s, pre, bound);
        let p = apply_overrides(s, pre);
        let o = ovs.last();
        assert(ovs[ovs.len() - 1] == o);
        lemma_slot_bounds(o.1);
        lemma_set_ids_below(p[o.1.slot()], o.0, o.2, bound);
        crate::stateful_property::lemma_set_keeps_wf(p[o.1.slot()], o.0, o.2);
        let r = apply_overrides(s, ovs);
        assert forall|k: int| 0 <= k < r.len() implies property_ids_below(#[trigger] r[k], bound)
            && model_wf(r[k]) by {
            if k != o.1.slot() {
                assert(r[k] == p[k]);
            }
        }
    }
}

/// Overrides for other kinds leave the property of kind `kind` as it was.
pub proof fn lemma_apply_overrides_other_kind(
    s: Seq<PropertyModel<ValueId>>,
    ovs: Seq<StyleOverride>,
    kind: PropertyKind,
)
    requires
        style_wf(s),
        forall|j: int| 0 <= j < ovs.len() ==> (#[trigger] ovs[j]).1 != kind,
    ensures
        apply_overrides(s, ovs)[kind.slot()] == s[kind.slot()],
        apply_overrides(s, ovs).len() == s.len(),
    decreases ovs.len(),
{
    if ovs.len() > 0 {
        let pre = ovs.drop_last();
        assert forall|j: int| 0 <= j < pre.len() implies (#[trigger] pre[j]).1 != kind by {
            assert(pre[j] == ovs[j]);
        }
        lemma_apply_overrides_other_kind(s, pre, kind);
        let o = ovs.last();
        assert(ovs[ovs.len() - 1] == o);
        lemma_slot_bounds(o.1);
        lemma_slot_bounds(kind);
        assert(o.1.slot() != kind.slot());
    }
}

/// Key types name a style property kind, for type-directed resolution.
pub trait PropertyKey {
    /// The kind this key names.
    spec fn spec_kind() -> PropertyKind;

    /// The kind this key names.
    fn kind() -> (k: PropertyKind)
        ensures
            k == Self::spec_kind(),
    ;
}

/// Key of the property holding the widget's background paint.
pub struct Background;

impl PropertyKey for Background {
    open spec fn spec_kind() -> PropertyKind {
        PropertyKind::Background
    }

    fn kind() -> (k: PropertyKind) {
        PropertyKind::Background
    }
}

/// Key of the property holding the border's gradient paint.
pub struct Border;

impl PropertyKey for Border {
    open spec fn spec_kind() -> PropertyKind {
        PropertyKind::Border
    }

    fn kind() -> (k: PropertyKind) {
        PropertyKind::Border
    }
}

/// Key of the property holding the widths of the four border edges.
pub struct BorderWidths;

impl PropertyKey for BorderWidths {
    open spec fn spec_kind() -> PropertyKind {
        PropertyKind::BorderWidths
    }

    fn kind() -> (k: PropertyKind) {
        PropertyKind::BorderWidths
    }
}

/// Key of the property holding the radii of the four corners.
pub struct CornerRadii;

impl PropertyKey for CornerRadii {
    open spec fn spec_kind() -> PropertyKind {
        PropertyKind::CornerRadii
    }

    fn kind() -> (k: PropertyKind) {
        PropertyKind::CornerRadii
    }
}

/// Key of the property holding the inner padding.
pub struct Padding;

impl PropertyKey for Padding {
    open spec fn spec_kind() -> PropertyKind {
        PropertyKind::Padding
    }

    fn kind() -> (k: PropertyKind) {
        PropertyKind::Padding
    }
}

/// Key of the property holding alignment of children along the layout direction.
pub struct ChildMajorAlignment;

impl PropertyKey for ChildMajorAlignment {
    open spec fn spec_kind() -> PropertyKind {
        PropertyKind::ChildMajorAlignment
    }

    fn kind() -> (k: PropertyKind) {
        PropertyKind::ChildMajorAlignment
    }
}

/// Key of the property holding alignment of children across the layout direction.
pub struct ChildMinorAlignment;

impl PropertyKey for ChildMinorAlignment {
    open spec fn spec_kind() -> PropertyKind {
        PropertyKind::ChildMinorAlignment
    }

    fn kind() -> (k: PropertyKind) {
        PropertyKind::ChildMinorAlignment
    }
}

/// Key of the property holding spacing between children.
pub struct ChildSpacing;

impl PropertyKey for ChildSpacing {
    open spec fn spec_kind() -> PropertyKind {
        PropertyKind::ChildSpacing
    }

    fn kind() -> (k: PropertyKind) {
        PropertyKind::ChildSpacing
    }
}

/// Key of the property holding direction in which children are laid out.
pub struct ChildDirection;

impl PropertyKey for ChildDirection {
    open spec fn spec_kind() -> PropertyKind {
        PropertyKind::ChildDirection
    }

    fn kind() -> (k: PropertyKind) {
        PropertyKind::ChildDirection
    }
}

/// Key of the property holding whether children are clipped to the widget.
pub struct ClipChildren;

impl PropertyKey for ClipChildren {
    open spec fn spec_kind() -> PropertyKind {
        PropertyKind::ClipChildren
    }

    fn kind() -> (k: PropertyKind) {
        PropertyKind::ClipChildren
    }
}

/// Key of the property holding the width specification.
pub struct Width;

impl PropertyKey for Width {
    open spec fn spec_kind() -> PropertyKind {
        PropertyKind::Width
    }

    fn kind() -> (k: PropertyKind) {
        PropertyKind::Width
    }
}

/// Key of the property holding the height specification.
pub struct Height;

impl PropertyKey for Height {
    open spec fn spec_kind() -> PropertyKind {
        PropertyKind::Height
    }

    fn kind() -> (k: PropertyKind) {
        PropertyKind::Height
    }
}

/// Key of the property holding the font.
pub struct Font;

impl PropertyKey for Font {
    open spec fn spec_kind() -> PropertyKind {
        PropertyKind::Font
    }

    fn kind() -> (k: PropertyKind) {
        PropertyKind::Font
    }
}

/// Key of the property holding the font size.
pub struct FontSize;

impl PropertyKey for FontSize {
    open spec fn spec_kind() -> PropertyKind {
        PropertyKind::FontSize
    }

    fn kind() -> (k: PropertyKind) {
        PropertyKind::FontSize
    }
}

/// Key of the property holding the font weight.
pub struct FontWeight;

impl PropertyKey for FontWeight {
    open spec fn spec_kind() -> PropertyKind {
        PropertyKind::FontWeight
    }

    fn kind() -> (k: PropertyKind) {
        PropertyKind::FontWeight
    }
}

/// Key of the property holding the strikethrough color.
pub struct StrikethroughColor;

impl PropertyKey for StrikethroughColor {
    open spec fn spec_kind() -> PropertyKind {
        PropertyKind::StrikethroughColor
    }

    fn kind() -> (k: PropertyKind) {
        PropertyKind::StrikethroughColor
    }
}

/// Key of the property holding the strikethrough offset.
pub struct StrikethroughOffset;

impl PropertyKey for StrikethroughOffset {
    open spec fn spec_kind() -> PropertyKind {
        PropertyKind::StrikethroughOffset
    }

    fn kind() -> (k: PropertyKind) {
        PropertyKind::StrikethroughOffset
    }
}

/// Key of the property holding the text color.
pub struct TextColor;

impl PropertyKey for TextColor {
    open spec fn spec_kind() -> PropertyKind {
        PropertyKind::TextColor
    }

    fn kind() -> (k: PropertyKind) {
        PropertyKind::TextColor
    }
}

/// Key of the property holding the underline color.
pub struct UnderlineColor;

impl PropertyKey for UnderlineColor {
    open spec fn spec_kind() -> PropertyKind {
        PropertyKind::UnderlineColor
    }

    fn kind() -> (k: PropertyKind) {
        PropertyKind::UnderlineColor
    }
}

/// Key of the property holding the underline offset.
pub struct UnderlineOffset;

impl PropertyKey for UnderlineOffset {
    open spec fn spec_kind() -> PropertyKind {
        PropertyKind::UnderlineOffset
    }

    fn kind() -> (k: PropertyKind) {
        PropertyKind::UnderlineOffset
    }
}

/// Key of the property holding the color of selected text's background.
pub struct SelectionColor;

impl PropertyKey for SelectionColor {
    open spec fn spec_kind() -> PropertyKind {
        PropertyKind::SelectionColor
    }

    fn kind() -> (k: PropertyKind) {
        PropertyKind::SelectionColor
    }
}

/// Key of the property holding the color of selected text.
pub struct SelectionTextColor;

impl PropertyKey for SelectionTextColor {
    open spec fn spec_kind() -> PropertyKind {
        PropertyKind::SelectionTextColor
    }

    fn kind() -> (k: PropertyKind) {
        PropertyKind::SelectionTextColor
    }
}

/// Key of the property holding the text cursor's color.
pub struct CursorColor;

impl PropertyKey for CursorColor {
    open spec fn spec_kind() -> PropertyKind {
        PropertyKind::CursorColor
    }

    fn kind() -> (k: PropertyKind) {
        PropertyKind::CursorColor
    }
}

impl PropertyKey for crate::graphics::FontStyle {
    open spec fn spec_kind() -> PropertyKind {
        PropertyKind::FontStyle
    }

    fn kind() -> (k: PropertyKind) {
        PropertyKind::FontStyle
    }
}

impl PropertyKey for crate::graphics::TextAlignment {
    open spec fn spec_kind() -> PropertyKind {
        PropertyKind::TextAlignment
    }

    fn kind() -> (k: PropertyKind) {
        PropertyKind::TextAlignment
    }
}

/// Each property key names the property kind of its own name, so that
/// resolving by a key reads that kind's property (and no two keys read the
/// same one).
pub proof fn lemma_keys_name_their_kinds()
    ensures
        <Background as PropertyKey>::spec_kind() == PropertyKind::Background,
        <Border as PropertyKey>::spec_kind() == PropertyKind::Border,
        <BorderWidths as PropertyKey>::spec_kind() == PropertyKind::BorderWidths,
        <CornerRadii as PropertyKey>::spec_kind() == PropertyKind::CornerRadii,
        <Padding as PropertyKey>::spec_kind() == PropertyKind::Padding,
        <ChildMajorAlignment as PropertyKey>::spec_kind() == PropertyKind::ChildMajorAlignment,
        <ChildMinorAlignment as PropertyKey>::spec_kind() == PropertyKind::ChildMinorAlignment,
        <ChildSpacing as PropertyKey>::spec_kind() == PropertyKind::ChildSpacing,
        <ChildDirection as PropertyKey>::spec_kind() == PropertyKind::ChildDirection,
        <ClipChildren as PropertyKey>::spec_kind() == PropertyKind::ClipChildren,
        <Width as PropertyKey>::spec_kind() == PropertyKind::Width,
        <Height as PropertyKey>::spec_kind() == PropertyKind::Height,
        <Font as PropertyKey>::spec_kind() == PropertyKind::Font,
        <FontSize as PropertyKey>::spec_kind() == PropertyKind::FontSize,
        <FontWeight as PropertyKey>::spec_kind() == PropertyKind::FontWeight,
        <StrikethroughColor as PropertyKey>::spec_kind() == PropertyKind::StrikethroughColor,
        <StrikethroughOffset as PropertyKey>::spec_kind() == PropertyKind::StrikethroughOffset,
        <TextColor as PropertyKey>::spec_kind() == PropertyKind::TextColor,
        <UnderlineColor as PropertyKey>::spec_kind() == PropertyKind::UnderlineColor,
        <UnderlineOffset as PropertyKey>::spec_kind() == PropertyKind::UnderlineOffset,
        <SelectionColor as PropertyKey>::spec_kind() == PropertyKind::SelectionColor,
        <SelectionTextColor as PropertyKey>::spec_kind() == PropertyKind::SelectionTextColor,
        <CursorColor as PropertyKey>::spec_kind() == PropertyKind::CursorColor,
        <crate::graphics::FontStyle as PropertyKey>::spec_kind() == PropertyKind::FontStyle,
        <crate::graphics::TextAlignment as PropertyKey>::spec_kind() == PropertyKind::TextAlignment,
{
}

} // verus!
