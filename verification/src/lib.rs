use vstd::prelude::*;

pub mod annotation;
pub mod colors;
pub mod config;
pub mod editor;
pub mod filename;
pub mod geometry;
pub mod glyph;
pub mod hotkey;
pub mod keybindings;
pub mod layout;
pub mod overlay;
pub mod pinned;
pub mod pipeline;
pub mod raster;
pub mod render;
pub mod settings;
pub mod settings_form;
pub mod snapshot;
pub mod shortcuts;
pub mod text;
pub mod text_raster;
pub mod toolbar;
pub mod tray;

verus! {

} // verus!
