//! Text layout handles and overflow policy.

use vstd::prelude::*;
use crate::registry::StyleId;
use crate::state_flags::StateFlags;

verus! {

/// Identifies a static text layout kept by the text layout storage.
#[derive(Clone, Copy, Debug, PartialEq, Eq, Hash, Structural)]
pub struct StaticTextLayoutId {
    pub key: u64,
}

/// Identifies a text layout owned by a widget.
#[derive(Clone, Copy, Debug, PartialEq, Eq, Structural)]
pub enum TextLayoutId {
    Static(StaticTextLayoutId),
}

/// What happens to text that does not fit its box.
#[derive(Clone, Copy, Debug, Default, PartialEq, Eq, Structural)]
pub enum TextOverflow {
    #[default]
    Clip,
    Wrap,
}

/// What a static text layout was last built from.
#[derive(Clone, Copy, Debug, PartialEq, Eq, Structural)]
pub struct TextLayoutKey {
    pub style_id: StyleId,
    pub state: StateFlags,
    pub text_hash: u64,
}

/// A cached text layout must be rebuilt when the style, the widget state
/// or the text (by its hash) differs from what it was built from.
pub fn text_needs_rebuild(cached: TextLayoutKey, current: TextLayoutKey) -> (r: bool)
    ensures
        r == (cached.style_id != current.style_id || cached.state != current.state
            || cached.text_hash != current.text_hash),
{
    cached.style_id != current.style_id || cached.state != current.state || cached.text_hash
        != current.text_hash
}


/// What a static text layout must redo before it is measured or drawn.
#[derive(Clone, Copy, Debug, PartialEq, Eq, Structural)]
pub struct RelayoutPlan {
    /// Break the text into lines again.
    pub break_lines: bool,
    /// Align the lines again (and remember width, alignment and overflow).
    pub realign: bool,
}

/// Lines are broken again when the layout was rebuilt or the width or the
/// overflow policy changed; they are aligned again in those cases and when
/// the alignment changed.
pub fn relayout_plan(
    needs_line_break: bool,
    width_changed: bool,
    alignment_changed: bool,
    overflow_changed: bool,
) -> (r: RelayoutPlan)
    ensures
        r.break_lines == (needs_line_break || width_changed || overflow_changed),
        r.realign == (needs_line_break || width_changed || alignment_changed || overflow_changed),
{
    let break_lines = needs_line_break || width_changed || overflow_changed;
    RelayoutPlan { break_lines, realign: break_lines || alignment_changed }
}

} // verus!
