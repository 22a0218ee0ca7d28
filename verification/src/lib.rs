//! Core logic of the plinth UI toolkit: widget state flags, stateful style
//! properties, the style registry and theme, widget interaction decisions,
//! the layout tree topology and widget identifiers.

pub mod state_flags;
pub mod stateful_property;
pub mod style;
pub mod graphics;
pub mod registry;
pub mod theme;
pub mod input;
pub mod widget;
pub mod context;
pub mod atlas;
pub mod texture;
pub mod draw;
pub mod surface;
pub mod text;
pub mod id;
pub mod layout;
pub mod small_lists;
pub mod slot_maps;
pub mod shell;
