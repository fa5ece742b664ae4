//! Dialog models for SPAI notes (creation with autocomplete and inline editing).
use crate::spai_notes::autocomplete::ProjectSuggestion;
use crate::spai_notes::note::SpaiType;
use vstd::prelude::*;

verus! {

/// State of the note creation dialog (`n`).
#[derive(Debug, Clone)]
pub struct NoteCreationDialog {
    pub active: bool,
    pub title_input: String,
    pub selected_kind: SpaiType,
    pub autocomplete_active: bool,
    pub autocomplete_selected: usize,
    pub suggestions: Vec<ProjectSuggestion>,
}

impl Default for NoteCreationDialog {
    fn default() -> (r: Self)
        ensures
            !r.active,
            r.title_input@.len() == 0,
            r.selected_kind == SpaiType::Todo,
            !r.autocomplete_active,
            r.autocomplete_selected == 0,
            r.suggestions@.len() == 0,
    {
        Self {
            active: false,
            title_input: String::new(),
            selected_kind: SpaiType::Todo,
            autocomplete_active: false,
            autocomplete_selected: 0,
            suggestions: Vec::new(),
        }
    }
}

/// Which field of the edit dialog has focus.
#[derive(Debug, Clone, Copy, PartialEq, Eq, Structural)]
pub enum EditField {
    Title,
    Body,
}

impl Default for EditField {
    fn default() -> (r: Self)
        ensures
            r == EditField::Title,
    {
        EditField::Title
    }
}

/// State of the integrated note editor (`e`).
#[derive(Debug, Clone)]
pub struct NoteEditDialog {
    pub active: bool,
    pub title_input: String,
    pub body_input: String,
    pub field: EditField,
    /// Cursor position as a char index inside the focused field.
    pub cursor: usize,
    /// Manual body viewport offset, used while `body_follow` is `false`.
    pub body_scroll: u16,
    /// When `true` the body viewport auto-scrolls so the cursor stays visible.
    /// Flipped off by manual scrolling (PgUp/PgDn) and back on by any edit or
    /// cursor movement.
    pub body_follow: bool,
}

impl Default for NoteEditDialog {
    fn default() -> (r: Self)
        ensures
            !r.active,
            r.title_input@.len() == 0,
            r.body_input@.len() == 0,
            r.field == EditField::Title,
            r.cursor == 0,
            r.body_scroll == 0,
            !r.body_follow,
    {
        Self {
            active: false,
            title_input: String::new(),
            body_input: String::new(),
            field: EditField::Title,
            cursor: 0,
            body_scroll: 0,
            body_follow: false,
        }
    }
}

} // verus!
