//! Text and rendering vocabulary shared by the toolkit: alignment, font
//! style, font families and stacks, and rendering errors.

use vstd::prelude::*;

verus! {

/// Horizontal alignment of text within its layout box.
#[derive(Clone, Copy, Debug, PartialEq, Eq, Hash, Structural)]
pub enum TextAlignment {
    Start,
    Center,
    End,
    Justify,
}

/// Upright or italic glyphs.
#[derive(Clone, Copy, Debug, PartialEq, Eq, Hash, Structural)]
pub enum FontStyle {
    Normal,
    Italic,
}

/// A font family: a named family or one of the generic families.
#[derive(Clone, Debug, PartialEq, Eq, Hash)]
pub enum FontFamily {
    Named(String),
    Cursive,
    Emoji,
    FangSong,
    Fantasy,
    Math,
    Monospace,
    SansSerif,
    Serif,
    SystemUi,
    UiMonospace,
    UiRounded,
    UiSansSerif,
    UiSerif,
}

/// The families to look a font up in: a CSS-like source list, a single
/// family, or a list of families in priority order.
#[derive(Clone, Debug, PartialEq, Eq, Hash)]
pub enum FontStack {
    Source(String),
    Single(FontFamily),
    List(Vec<FontFamily>),
}

/// The font of a text style.
#[derive(Clone, Debug, PartialEq, Eq, Hash)]
pub struct Font {
    pub family: FontStack,
}

impl Font {
    /// The default font: the `serif` source stack.
    pub fn serif() -> (r: Font)
        ensures
            r.family matches FontStack::Source(s) && s@ == "serif"@,
    {
        Font { family: FontStack::Source(String::from_str("serif")) }
    }
}

/// OpenType features a text style can switch on.
#[derive(Clone, Copy, Debug, PartialEq, Eq, Hash, Structural)]
pub enum FontFeature {
    /// The CLIG feature tag for contextual ligatures.
    ContextualLigatures,
    /// The DLIG feature tag for discretionary ligatures.
    DiscretionaryLigatures,
    /// The LIGA feature tag for standard ligatures.
    StandardLigatures,
    /// The RLIG feature tag for required ligatures.
    RequiredLigatures,
    /// The KERN feature tag for kerning.
    Kerning,
}

/// Why a frame could not be rendered.
#[derive(Clone, Copy, Debug, PartialEq, Eq, Structural)]
pub enum RenderError {
    Occluded,
    TimedOut,
    Unknown,
}

/// Per-draw uniform data handed to the GPU.
#[derive(Clone, Copy, Debug)]
pub struct DrawUniforms {
    pub viewport_size: [u32; 2],
}

} // verus!
