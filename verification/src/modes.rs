//! The editing modes.
use vstd::prelude::*;

verus! {

/// The current editing mode of the editor.
///
/// - Normal --(i)--> Insert --(Esc)--> Normal
/// - Normal --(:)--> Command --(Esc/Enter)--> Normal
/// - Normal --(/)--> literal Search --(Esc/Enter)--> Normal
/// - Normal --(?)--> regex Search --(Esc/Enter)--> Normal
/// - Normal --(fl)--> LinkSelect --(Esc)--> Normal
#[derive(Debug, Clone, Copy, PartialEq, Eq, Structural, Default)]
pub enum EditorMode {
    /// Navigation and action keys are active.
    #[default]
    Normal,
    /// Text is being typed.
    Insert,
    /// Incremental search is active.
    Search,
    /// Link selection is active.
    LinkSelect,
    /// The `:` command prompt is open.
    Command,
}

/// The label of a mode.
pub open spec fn mode_label(mode: EditorMode) -> Seq<char> {
    match mode {
        EditorMode::Command => "COMMAND"@,
        EditorMode::Insert => "INSERT"@,
        EditorMode::LinkSelect => "LINKS"@,
        EditorMode::Normal => "NORMAL"@,
        EditorMode::Search => "SEARCH"@,
    }
}

impl EditorMode {
    /// Short label used in the status bar.
    pub fn label(&self) -> (r: &'static str)
        ensures
            r@ == mode_label(*self),
    {
        match self {
            EditorMode::Command => "COMMAND",
            EditorMode::Insert => "INSERT",
            EditorMode::LinkSelect => "LINKS",
            EditorMode::Normal => "NORMAL",
            EditorMode::Search => "SEARCH",
        }
    }
}

} // verus!
