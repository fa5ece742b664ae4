//! SPAI notes: data model, storage format, editor state.
pub mod note;
pub mod text_cursor;
pub mod text_layout;
pub mod storage_format;
pub mod markdown_round_trip;
pub mod dialog_state;
pub mod discovery;
pub mod autocomplete;
pub mod state;
pub mod state_edit;
pub mod input_highlighter;
pub mod state_creation;
pub mod external_editor;
pub mod dialog_views;
pub mod viewer_content;
pub mod view;
