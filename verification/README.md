# plinth

The core of a small immediate-mode UI toolkit, written in Verus: the
decisions and bookkeeping of the toolkit carry contracts, and Verus proves
them.

## Layout

- `src/` — the verified library.
  - `state_flags`, `stateful_property`: widget state flags and properties
    whose value depends on the state (the most specific matching override
    wins).
  - `style`, `registry`, `theme`: styles with per-state overrides, the style
    tree with inheritance and regeneration of a style's subtree, and the
    theme's style classes.
  - `widget`, `input`, `context`: hit testing with layer gates, click
    counting, per-widget state kept across frames and dropped when a widget
    is not built in a frame, keyboard focus.
  - `layout`: the layout tree's topology (children, layers, overlays) and
    the rendering order.
  - `small_lists`: the short inline lists of the layout tree and the style
    registry, kept by the smallvec crate behind contracts.
  - `atlas`, `texture`, `draw`: texture atlas bookkeeping (first-fit
    placement into atlas storages, reference counts and release) and
    batching of draw commands.
  - `slot_maps`: the textures and the atlas storages, kept by the slotmap
    crate behind contracts (a new storage takes the slot vacated most
    recently, as slotmap does).
  - `id`, `text`, `graphics`, `shell`: widget identifiers, text layout
    handles and cache decisions, shared vocabulary.
- `tests/` — tests of the library.
- `app/` — ordinary Rust around the library: colors, paints, style values,
  the floating point layout passes, input devices and the per-window UI
  context.
