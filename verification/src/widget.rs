//! Widget interaction decisions and per-widget state kept across frames.

use vstd::prelude::*;
use crate::input::MouseButtonState;
use crate::state_flags::StateFlags;
use crate::text::TextLayoutId;

verus! {

/// The result of hit testing and click detection for one widget.
#[derive(Clone, Copy, Debug, PartialEq, Eq, Structural)]
pub struct Interaction {
    pub is_activated: bool,
    pub is_hovered: bool,
    pub is_focused: bool,
}

/// Controls when a click is registered.
#[derive(Clone, Copy, Debug, Default, PartialEq, Eq, Structural)]
pub enum ClickBehavior {
    /// Click fires immediately when the mouse is pressed.
    #[default]
    OnPress,
    /// Click fires when the mouse is released while still hovered.
    OnRelease,
}

/// What a widget remembers from the previous frame that interaction needs.
#[derive(Clone, Copy, Debug, PartialEq, Eq, Structural)]
pub struct PreviousFrame {
    /// Whether the widget was being pressed.
    pub was_active: bool,
    /// Whether its placement contains the current pointer position.
    pub contains_pointer: bool,
}

/// Whether input to a widget on `layer` is blocked: a higher layer has a
/// widget under the pointer, or a modal overlay sits on a higher layer.
pub open spec fn layer_blocked(
    layer: u8,
    active_pointer_layer: u8,
    input_block_layer: Option<u8>,
) -> bool {
    active_pointer_layer > layer || (input_block_layer matches Some(bl) && layer < bl)
}

/// Whether the widget is hovered this frame.
pub open spec fn hovered(
    layer: u8,
    active_pointer_layer: u8,
    input_block_layer: Option<u8>,
    prev: Option<PreviousFrame>,
) -> bool {
    match prev {
        Some(p) => !layer_blocked(layer, active_pointer_layer, input_block_layer)
            && p.contains_pointer,
        None => false,
    }
}

/// A widget is hovered only where its previous placement contains the
/// pointer and no higher layer or modal overlay takes the input: a widget
/// pressed last frame and dragged off is not hovered.
pub proof fn lemma_hover_needs_pointer(
    layer: u8,
    active_pointer_layer: u8,
    input_block_layer: Option<u8>,
    prev: Option<PreviousFrame>,
)
    ensures
        hovered(layer, active_pointer_layer, input_block_layer, prev) ==> (prev matches Some(p)
            && p.contains_pointer),
        hovered(layer, active_pointer_layer, input_block_layer, prev) ==> active_pointer_layer
            <= layer && !(input_block_layer matches Some(bl) && layer < bl),
        prev matches Some(p) && p.contains_pointer && active_pointer_layer <= layer
            && !(input_block_layer matches Some(bl) && layer < bl) ==> hovered(
            layer,
            active_pointer_layer,
            input_block_layer,
            prev,
        ),
{
}

/// Whether the widget was pressed last frame.
pub open spec fn was_active(prev: Option<PreviousFrame>) -> bool {
    match prev {
        Some(p) => p.was_active,
        None => false,
    }
}

/// Bits of `bit` kept by `interest` when `cond` holds, none otherwise.
pub open spec fn masked(cond: bool, bit: u8, interest: u8) -> u8 {
    if cond {
        bit & interest
    } else {
        0
    }
}

impl Interaction {
    /// Compute the interaction state of a widget, and the widget states
    /// (restricted to `interest`) it is in.
    ///
    /// A widget is hovered when its previous placement contains the pointer
    /// and its layer is not blocked; it is activated on a hovered press
    /// (`OnPress`) or a hovered release (`OnRelease`); it keeps focus when
    /// it had focus and is hovered or was not just pressed.
    pub fn compute(
        was_focused: bool,
        layer: u8,
        active_pointer_layer: u8,
        input_block_layer: Option<u8>,
        prev: Option<PreviousFrame>,
        mouse: MouseButtonState,
        behavior: ClickBehavior,
        interest: StateFlags,
    ) -> (r: (Interaction, StateFlags))
        ensures
            ({
                let is_hovered = hovered(layer, active_pointer_layer, input_block_layer, prev);
                let down = mouse.left_click_count > 0;
                let just_pressed = down && !was_active(prev);
                let just_released = !down && was_active(prev);
                let is_activated = match behavior {
                    ClickBehavior::OnPress => is_hovered && just_pressed,
                    ClickBehavior::OnRelease => is_hovered && just_released,
                };
                let focused = is_activated || ((is_hovered || !just_pressed) && was_focused);
                &&& r.0.is_hovered == is_hovered
                &&& r.0.is_activated == is_activated
                &&& r.1@ == masked(is_hovered, 1, interest@) | masked(
                    is_hovered && down,
                    2,
                    interest@,
                ) | masked(focused, 16, interest@)
                &&& r.0.is_focused == (r.1@ & 16 == 16)
            }),
            input_block_layer matches Some(bl) && layer < bl ==> !r.0.is_hovered
                && !r.0.is_activated,
            active_pointer_layer > layer ==> !r.0.is_hovered && !r.0.is_activated,
            r.0.is_hovered <==> (prev matches Some(p) && p.contains_pointer && active_pointer_layer
                <= layer && !(input_block_layer matches Some(bl) && layer < bl)),
            r.0.is_activated ==> r.0.is_hovered,
            prev matches Some(p) && !p.contains_pointer ==> !r.0.is_hovered && !r.0.is_activated,
            behavior == ClickBehavior::OnPress ==> (r.0.is_activated <==> (r.0.is_hovered
                && mouse.left_click_count > 0 && !(prev matches Some(p) && p.was_active))),
            behavior == ClickBehavior::OnRelease ==> (r.0.is_activated <==> (r.0.is_hovered
                && mouse.left_click_count == 0 && (prev matches Some(p) && p.was_active))),
    {
        let blocked = active_pointer_layer > layer || match input_block_layer {
            Some(bl) => layer < bl,
            None => false,
        };
        let (was_active, is_hovered) = match prev {
            Some(p) => (p.was_active, !blocked && p.contains_pointer),
            None => (false, false),
        };
        let is_left_down = mouse.is_left_down();
        let just_pressed = is_left_down && !was_active;
        let just_released = !is_left_down && was_active;
        let is_activated = match behavior {
            ClickBehavior::OnPress => is_hovered && just_pressed,
            ClickBehavior::OnRelease => is_hovered && just_released,
        };
        let ghost i = interest@;
        let ghost a = masked(is_hovered, 1, i);
        let ghost b = masked(is_hovered && is_left_down, 2, i);
        let ghost c = masked(is_activated || ((is_hovered || !just_pressed) && was_focused), 16, i);
        let mut state = StateFlags::normal();
        if is_hovered {
            state.insert(StateFlags::hovered().intersection(interest));
        }
        assert(state@ == 0u8 | a) by {
            assert(0u8 | 0u8 == 0u8) by (bit_vector);
        }
        if is_hovered && is_left_down {
            state.insert(StateFlags::pressed().intersection(interest));
        }
        assert(state@ == (0u8 | a) | b) by {
            let x = 0u8 | a;
            assert(x | 0u8 == x) by (bit_vector);
        }
        if is_activated || ((is_hovered || !just_pressed) && was_focused) {
            state.insert(StateFlags::focused().intersection(interest));
        }
        assert(state@ == ((0u8 | a) | b) | c) by {
            let x = (0u8 | a) | b;
            assert(x | 0u8 == x) by (bit_vector);
        }
        assert(((0u8 | a) | b) | c == (a | b) | c) by (bit_vector);
        let is_focused = state.contains(StateFlags::focused());
        assert(is_focused == (state@ & 16 == 16)) by {
            let x = state@;
            assert((16u8 & x == 16u8) == (x & 16u8 == 16u8)) by (bit_vector);
        }
        (Interaction { is_activated, is_hovered, is_focused }, state)
    }
}

/// One widget's previous-frame facts used to gate input by layer.
#[derive(Clone, Copy, Debug, PartialEq, Eq, Structural)]
pub struct LayerSample {
    /// Whether the widget's placement contains the pointer.
    pub contains_pointer: bool,
    /// The widget's z-layer.
    pub layer: u8,
    /// Whether the widget is a modal overlay.
    pub is_modal: bool,
}

/// The layer gates for a frame: the highest layer with a widget under the
/// pointer (0 when there is none), and the highest layer holding a modal
/// overlay (none when there is no modal overlay).
pub fn compute_layer_gates(samples: &Vec<LayerSample>) -> (r: (u8, Option<u8>))
    ensures
        forall|i: int|
            0 <= i < samples@.len() && (#[trigger] samples@[i]).contains_pointer ==> samples@[i].layer
                <= r.0,
        r.0 == 0 || exists|i: int|
            0 <= i < samples@.len() && (#[trigger] samples@[i]).contains_pointer && samples@[i].layer
                == r.0,
        r.1 is None <==> forall|i: int|
            0 <= i < samples@.len() ==> !(#[trigger] samples@[i]).is_modal,
        r.1 matches Some(b) ==> (forall|i: int|
            0 <= i < samples@.len() && (#[trigger] samples@[i]).is_modal ==> samples@[i].layer <= b)
            && exists|i: int|
            0 <= i < samples@.len() && (#[trigger] samples@[i]).is_modal && samples@[i].layer == b,
{
    let mut active_pointer_layer: u8 = 0;
    let mut input_block_layer: Option<u8> = None;
    let n = samples.len();
    let mut k: usize = 0;
    while k < n
        invariant
            k <= n,
            n == samples@.len(),
            forall|i: int|
                0 <= i < k && (#[trigger] samples@[i]).contains_pointer ==> samples@[i].layer
                    <= active_pointer_layer,
            active_pointer_layer == 0 || exists|i: int|
                0 <= i < k && (#[trigger] samples@[i]).contains_pointer && samples@[i].layer
                    == active_pointer_layer,
            input_block_layer is None <==> forall|i: int|
                0 <= i < k ==> !(#[trigger] samples@[i]).is_modal,
            input_block_layer matches Some(b) ==> (forall|i: int|
                0 <= i < k && (#[trigger] samples@[i]).is_modal ==> samples@[i].layer <= b)
                && exists|i: int|
                0 <= i < k && (#[trigger] samples@[i]).is_modal && samples@[i].layer == b,
        decreases n - k,
    {
        let s = samples[k];
        if s.contains_pointer && s.layer > active_pointer_layer {
            active_pointer_layer = s.layer;
        }
        if s.is_modal {
            let raise = match input_block_layer {
                None => true,
                Some(cur) => s.layer > cur,
            };
            if raise {
                input_block_layer = Some(s.layer);
            }
        }
        k += 1;
    }
    (active_pointer_layer, input_block_layer)
}

/// Up to eight bytes of custom data with the size that was stored.
#[derive(Clone, Copy, Debug)]
pub struct CustomData {
    bytes: [u8; 8],
    size: u8,
}

impl CustomData {
    /// The stored bytes (all eight, zero past the stored size).
    pub closed spec fn data(&self) -> Seq<u8> {
        self.bytes@
    }

    /// Number of bytes stored (0 when none).
    pub closed spec fn data_size(&self) -> nat {
        self.size as nat
    }

    /// At most eight bytes stored, the rest zero.
    pub open spec fn wf(&self) -> bool {
        &&& self.data().len() == 8
        &&& self.data_size() <= 8
        &&& forall|i: int| self.data_size() <= i < 8 ==> #[trigger] self.data()[i] == 0
    }

    /// No data stored.
    pub fn new() -> (r: CustomData)
        ensures
            r.wf(),
            r.data_size() == 0,
            r.data() == seq![0u8, 0u8, 0u8, 0u8, 0u8, 0u8, 0u8, 0u8],
    {
        let r = CustomData { bytes: [0u8; 8], size: 0 };
        assert(r.data() =~= seq![0u8, 0u8, 0u8, 0u8, 0u8, 0u8, 0u8, 0u8]);
        r
    }

    /// Store `bytes`, zeroing the rest.
    pub fn set(&mut self, bytes: &[u8])
        requires
            bytes@.len() <= 8,
        ensures
            final(self).wf(),
            final(self).data_size() == bytes@.len(),
            final(self).data().subrange(0, bytes@.len() as int) == bytes@,
    {
        let n = bytes.len();
        let mut data = [0u8; 8];
        let mut i: usize = 0;
        while i < n
            invariant
                n == bytes@.len(),
                n <= 8,
                i <= n,
                data@.len() == 8,
                forall|j: int| 0 <= j < i ==> #[trigger] data@[j] == bytes@[j],
                forall|j: int| n <= j < 8 ==> #[trigger] data@[j] == 0,
            decreases n - i,
        {
            data[i] = bytes[i];
            i += 1;
        }
        self.bytes = data;
        self.size = n as u8;
        assert(self.data().subrange(0, n as int) =~= bytes@);
    }

    /// The stored bytes when exactly `size` bytes are stored; none when
    /// nothing is stored or the size differs.
    pub fn get(&self, size: usize) -> (r: Option<&[u8]>)
        requires
            self.wf(),
        ensures
            r is Some <==> (self.data_size() != 0 && self.data_size() == size),
            r matches Some(s) ==> s@ == self.data().subrange(0, size as int),
    {
        if self.size == 0 || size != self.size as usize {
            return None;
        }
        Some(slice_prefix(&self.bytes, size))
    }

    /// Number of bytes stored.
    pub fn size(&self) -> (r: usize)
        ensures
            r == self.data_size(),
    {
        self.size as usize
    }

    /// The stored bytes zero padded to eight, if any.
    pub fn padded(&self) -> (r: Option<[u8; 8]>)
        requires
            self.wf(),
        ensures
            r is Some <==> self.data_size() != 0,
            r matches Some(b) ==> b@ == self.data(),
    {
        if self.size == 0 {
            None
        } else {
            let n = self.size as usize;
            let mut padded = [0u8; 8];
            let mut i: usize = 0;
            while i < n
                invariant
                    n == self.data_size(),
                    n <= 8,
                    i <= n,
                    self.wf(),
                    padded@.len() == 8,
                    forall|j: int| 0 <= j < i ==> #[trigger] padded@[j] == self.data()[j],
                    forall|j: int| i <= j < 8 ==> #[trigger] padded@[j] == 0,
                decreases n - i,
            {
                padded[i] = self.bytes[i];
                i += 1;
            }
            assert(padded@ =~= self.data());
            Some(padded)
        }
    }
}

/// State a widget keeps across frames: whether it was pressed, the layer
/// and modality of its node, its text layout and up to eight bytes of
/// custom data.
#[derive(Clone, Copy, Debug)]
pub struct WidgetState {
    pub custom_data: CustomData,
    pub text_layout: Option<TextLayoutId>,
    /// Whether the widget was being actively pressed last frame.
    pub was_active: bool,
    /// The z_layer of the node this widget occupied last frame.
    pub layer: u8,
    /// Whether this widget's overlay was modal last frame.
    pub is_modal: bool,
}

impl WidgetState {
    /// The widget state's invariant (that of its custom data).
    pub open spec fn wf(&self) -> bool {
        self.custom_data.wf()
    }

    /// Nothing pressed, no text layout, no custom data.
    pub open spec fn is_blank(&self) -> bool {
        &&& self.wf()
        &&& self.custom_data.data_size() == 0
        &&& self.text_layout is None
        &&& !self.was_active
    }

    /// Blank, on layer 0 and not modal.
    pub open spec fn is_fresh(&self) -> bool {
        &&& self.is_blank()
        &&& self.layer == 0
        &&& !self.is_modal
    }

    /// A fresh widget state: nothing pressed, layer 0, no custom data.
    pub fn new() -> (r: WidgetState)
        ensures
            r.is_fresh(),
    {
        WidgetState {
            custom_data: CustomData::new(),
            text_layout: None,
            was_active: false,
            layer: 0,
            is_modal: false,
        }
    }

    /// Store the bytes of a value as custom data, zeroing the rest.
    pub fn set_custom_data_bytes(&mut self, bytes: &[u8])
        requires
            bytes@.len() <= 8,
        ensures
            final(self).wf(),
            final(self).custom_data.data_size() == bytes@.len(),
            final(self).custom_data.data().subrange(0, bytes@.len() as int) == bytes@,
            final(self).text_layout == old(self).text_layout,
            final(self).was_active == old(self).was_active,
            final(self).layer == old(self).layer,
            final(self).is_modal == old(self).is_modal,
    {
        self.custom_data.set(bytes);
    }

    /// The stored custom data when exactly `size` bytes are stored; none
    /// when nothing is stored or the size differs.
    pub fn custom_data_slice(&self, size: usize) -> (r: Option<&[u8]>)
        requires
            self.wf(),
        ensures
            r is Some <==> (self.custom_data.data_size() != 0 && self.custom_data.data_size()
                == size),
            r matches Some(s) ==> s@ == self.custom_data.data().subrange(0, size as int),
    {
        self.custom_data.get(size)
    }

    /// Whether any custom data is stored.
    pub fn has_custom_data(&self) -> (r: bool)
        ensures
            r == (self.custom_data.data_size() != 0),
    {
        self.custom_data.size() != 0
    }

    /// The stored custom data, zero padded to eight bytes, if any.
    pub fn custom_data_bytes(&self) -> (r: Option<[u8; 8]>)
        requires
            self.wf(),
        ensures
            r is Some <==> self.custom_data.data_size() != 0,
            r matches Some(b) ==> b@ == self.custom_data.data(),
    {
        self.custom_data.padded()
    }
}

/// The first `n` bytes of an eight-byte array.
fn slice_prefix(data: &[u8; 8], n: usize) -> (r: &[u8])
    requires
        n <= 8,
    ensures
        r@ == data@.subrange(0, n as int),
{
    vstd::slice::slice_subrange(data.as_slice(), 0, n)
}

} // verus!
