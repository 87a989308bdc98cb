//! What the panels show and what becomes of what the user does in them.

use vstd::prelude::*;

pub mod build_panel;
pub mod code_editor;
pub mod file_browser;
pub mod midi_panel;
pub mod new_project_dialog;
pub mod plugin_panel;
pub mod settings_panel;
pub mod top_bar;

verus! {

/// A color, as a text or a key is drawn in.
#[derive(Debug, Clone, Copy, PartialEq, Eq, Structural)]
pub enum Color {
    White,
    LightGray,
    Gray,
    DarkGray,
    Yellow,
    Green,
    Red,
    Rgb(u8, u8, u8),
}

/// The texts of a list of strings.
pub open spec fn texts(list: Seq<String>) -> Seq<Seq<char>> {
    list.map_values(|s: String| s@)
}

} // verus!
