//! The integrated note editor (`e`).
//!
//! The dialog holds both fields and one cursor, a *char* index into the
//! focused field, so diacritics and emoji edit correctly. Position arithmetic
//! lives in `text_cursor`; the body's row wrapping in `text_layout`.
use crate::spai_notes::dialog_state::{EditField, NoteEditDialog};
use crate::spai_notes::discovery::SpaiProjectSummary;
use crate::spai_notes::note::SpaiNoteItem;
use crate::spai_notes::state::{items_of, SpaiNotesState};
use crate::spai_notes::storage_format::{format_spai_markdown, spec_markdown};
use crate::spai_notes::text_cursor::{
    char_len, clamp_cursor, line_bounds, line_end_of, line_start_of, move_line, spec_move_line,
};
use crate::text::{chars_of, string_of, to_string, trim, trim_chars};
use vstd::prelude::*;

verus! {

/// The text after typing `c` at char index `at` (past the end: appended).
pub open spec fn spec_insert(s: Seq<char>, at: int, c: char) -> Seq<char> {
    let k = clamp_cursor(s, at);
    s.take(k).push(c) + s.skip(k)
}

/// The text after Backspace with the cursor at `cursor`: the char before the
/// cursor goes, when the cursor is inside the text.
pub open spec fn spec_backspace(s: Seq<char>, cursor: int) -> Seq<char> {
    if 1 <= cursor <= s.len() {
        s.take(cursor - 1) + s.skip(cursor)
    } else {
        s
    }
}

/// The text after Del with the cursor at `cursor`: the char under the
/// cursor goes, when there is one.
pub open spec fn spec_delete(s: Seq<char>, cursor: int) -> Seq<char> {
    if 0 <= cursor < s.len() {
        s.take(cursor) + s.skip(cursor + 1)
    } else {
        s
    }
}

/// The text of the focused field.
pub open spec fn focused(d: NoteEditDialog) -> Seq<char> {
    match d.field {
        EditField::Title => d.title_input@,
        EditField::Body => d.body_input@,
    }
}

/// The dialog after its focused field became `text`; the other field stays.
pub open spec fn with_focused(before: NoteEditDialog, after: NoteEditDialog, text: Seq<char>) -> bool {
    &&& after.field == before.field
    &&& focused(after) == text
    &&& match before.field {
        EditField::Title => after.body_input == before.body_input,
        EditField::Body => after.title_input == before.title_input,
    }
}

/// Everything of the state but the edit dialog stays.
pub open spec fn only_dialog_changed(before: SpaiNotesState, after: SpaiNotesState) -> bool {
    &&& after.projects == before.projects
    &&& after.selected_project_idx == before.selected_project_idx
    &&& after.selected_item_idx == before.selected_item_idx
    &&& after.current_project_path == before.current_project_path
    &&& after.viewer_scroll == before.viewer_scroll
    &&& after.status_message == before.status_message
    &&& after.creation_dialog == before.creation_dialog
    &&& after.edit_dialog.active == before.edit_dialog.active
    &&& after.filter_active_project == before.filter_active_project
    &&& after.edit_mode == before.edit_mode
}

/// A move of the cursor: texts, field and scroll stay, auto-follow resumes.
pub open spec fn cursor_moved(before: SpaiNotesState, after: SpaiNotesState, cursor: int) -> bool {
    &&& only_dialog_changed(before, after)
    &&& after.edit_dialog.title_input == before.edit_dialog.title_input
    &&& after.edit_dialog.body_input == before.edit_dialog.body_input
    &&& after.edit_dialog.field == before.edit_dialog.field
    &&& after.edit_dialog.body_scroll == before.edit_dialog.body_scroll
    &&& after.edit_dialog.body_follow
    &&& after.edit_dialog.cursor == cursor
}

/// An edit of the focused field: the new text and cursor, auto-follow resumes.
pub open spec fn text_edited(
    before: SpaiNotesState,
    after: SpaiNotesState,
    text: Seq<char>,
    cursor: int,
) -> bool {
    &&& only_dialog_changed(before, after)
    &&& with_focused(before.edit_dialog, after.edit_dialog, text)
    &&& after.edit_dialog.body_scroll == before.edit_dialog.body_scroll
    &&& after.edit_dialog.body_follow
    &&& after.edit_dialog.cursor == cursor
}

/// `r` is the error `msg`.
pub open spec fn err_is<T>(r: Result<T, String>, msg: Seq<char>) -> bool {
    r matches Err(e) && e@ == msg
}

/// A file to write: a note's path and its full markdown.
#[derive(Debug, Clone)]
pub struct NoteWrite {
    pub path: String,
    pub content: String,
}

/// The projects after the note at `(p, i)` got a new title and body.
pub open spec fn note_rewritten(
    before: Seq<SpaiProjectSummary>,
    after: Seq<SpaiProjectSummary>,
    p: int,
    i: int,
    title: Seq<char>,
    body: Seq<char>,
) -> bool {
    &&& 0 <= p < before.len()
    &&& 0 <= i < before[p].items@.len()
    &&& after.len() == before.len()
    &&& forall|j: int| 0 <= j < before.len() && j != p ==> after[j] == before[j]
    &&& after[p].name == before[p].name
    &&& after[p].path == before[p].path
    &&& after[p].spai_dir == before[p].spai_dir
    &&& after[p].items@.len() == before[p].items@.len()
    &&& forall|k: int| 0 <= k < before[p].items@.len() && k != i ==> after[p].items@[k] == before[p].items@[k]
    &&& same_note_but_text(before[p].items@[i], after[p].items@[i])
    &&& after[p].items@[i].title@ == title
    &&& after[p].items@[i].body@ == body
}

/// Two notes that agree on everything but title and body.
pub open spec fn same_note_but_text(a: SpaiNoteItem, b: SpaiNoteItem) -> bool {
    &&& a.id == b.id
    &&& a.kind == b.kind
    &&& a.status == b.status
    &&& a.symbol == b.symbol
    &&& a.timestamp == b.timestamp
    &&& a.tags == b.tags
    &&& a.facets == b.facets
    &&& a.file_path == b.file_path
    &&& a.file_name == b.file_name
}

/// Replaces the text of a `String` by the chars of `v`.
fn set_text(buf: &mut String, v: &[char])
    ensures
        final(buf)@ == v@,
{
    *buf = string_of(v);
}

/// Inserts `c` at char index `at` (clamped to the end).
fn insert_at(buf: &mut String, at: usize, c: char)
    ensures
        final(buf)@ == spec_insert(old(buf)@, at as int, c),
{
    let v = chars_of(buf.as_str());
    let k = if at < v.len() {
        at
    } else {
        v.len()
    };
    let mut out: Vec<char> = Vec::new();
    let mut i: usize = 0;
    while i < k
        invariant
            0 <= i <= k <= v@.len(),
            out@ == v@.take(i as int),
        decreases k - i,
    {
        out.push(v[i]);
        assert(v@.take(i + 1) == v@.take(i as int).push(v@[i as int]));
        i = i + 1;
    }
    out.push(c);
    let mut j: usize = k;
    while j < v.len()
        invariant
            k <= j <= v@.len(),
            out@ == v@.take(k as int).push(c) + v@.subrange(k as int, j as int),
        decreases v.len() - j,
    {
        out.push(v[j]);
        assert(v@.subrange(k as int, j + 1) == v@.subrange(k as int, j as int).push(v@[j as int]));
        j = j + 1;
    }
    assert(v@.subrange(k as int, v@.len() as int) == v@.skip(k as int));
    set_text(buf, out.as_slice());
}

/// Removes the char at index `at`.
fn remove_at(buf: &mut String, at: usize)
    requires
        at < old(buf)@.len(),
    ensures
        final(buf)@ == old(buf)@.take(at as int) + old(buf)@.skip(at + 1),
{
    let v = chars_of(buf.as_str());
    let mut out: Vec<char> = Vec::new();
    let mut i: usize = 0;
    while i < v.len()
        invariant
            0 <= i <= v@.len(),
            at < v@.len(),
            out@ == if i <= at {
                v@.take(i as int)
            } else {
                v@.take(at as int) + v@.subrange(at + 1, i as int)
            },
        decreases v.len() - i,
    {
        if i != at {
            out.push(v[i]);
        }
        proof {
            if i < at {
                assert(v@.take(i + 1) == v@.take(i as int).push(v@[i as int]));
            } else if i == at {
                assert(v@.subrange(at + 1, at + 1) == Seq::<char>::empty());
                assert(v@.take(at as int) + Seq::<char>::empty() == v@.take(at as int));
            } else {
                assert(v@.subrange(at + 1, i + 1) == v@.subrange(at + 1, i as int).push(
                    v@[i as int],
                ));
            }
        }
        i = i + 1;
    }
    assert(v@.subrange(at + 1, v@.len() as int) == v@.skip(at + 1));
    set_text(buf, out.as_slice());
}

impl SpaiNotesState {
    /// Opens the editor pre-filled from the selected note, cursor at the end
    /// of the title; nothing happens when no note is selected.
    pub fn open_edit_dialog(&mut self)
        ensures
            if old(self).selected_item_idx < old(self).spec_items().len() {
                let it = old(self).spec_items()[old(self).selected_item_idx as int];
                &&& only_dialog_changed_but_active(*old(self), *final(self))
                &&& final(self).edit_dialog.active
                &&& final(self).edit_dialog.title_input@ == it.title@
                &&& final(self).edit_dialog.body_input@ == it.body@
                &&& final(self).edit_dialog.field == EditField::Title
                &&& final(self).edit_dialog.cursor == it.title@.len()
                &&& final(self).edit_dialog.body_scroll == 0
                &&& final(self).edit_dialog.body_follow
            } else {
                *final(self) == *old(self)
            },
    {
        let (title, body) = match self.selected_item() {
            Some(item) => (item.title.clone(), item.body.clone()),
            None => {
                return ;
            },
        };
        self.edit_dialog.active = true;
        self.edit_dialog.title_input = title;
        self.edit_dialog.body_input = body;
        self.edit_dialog.field = EditField::Title;
        self.edit_dialog.cursor = char_len(self.edit_dialog.title_input.as_str());
        self.edit_dialog.body_scroll = 0;
        self.edit_dialog.body_follow = true;
    }

    /// Closes the editor and clears both fields.
    pub fn close_edit_dialog(&mut self)
        ensures
            only_dialog_changed_but_active(*old(self), *final(self)),
            !final(self).edit_dialog.active,
            final(self).edit_dialog.title_input@.len() == 0,
            final(self).edit_dialog.body_input@.len() == 0,
            final(self).edit_dialog.field == EditField::Title,
            final(self).edit_dialog.cursor == 0,
            final(self).edit_dialog.body_scroll == 0,
            final(self).edit_dialog.body_follow,
    {
        self.edit_dialog.active = false;
        self.edit_dialog.title_input = String::new();
        self.edit_dialog.body_input = String::new();
        self.edit_dialog.field = EditField::Title;
        self.edit_dialog.cursor = 0;
        self.edit_dialog.body_scroll = 0;
        self.edit_dialog.body_follow = true;
    }

    /// Switches Title ↔ Body and parks the cursor at the end of the new field.
    pub fn toggle_edit_field(&mut self)
        ensures
            only_dialog_changed(*old(self), *final(self)),
            final(self).edit_dialog.field == (match old(self).edit_dialog.field {
                EditField::Title => EditField::Body,
                EditField::Body => EditField::Title,
            }),
            final(self).edit_dialog.title_input == old(self).edit_dialog.title_input,
            final(self).edit_dialog.body_input == old(self).edit_dialog.body_input,
            final(self).edit_dialog.cursor == focused(final(self).edit_dialog).len(),
            final(self).edit_dialog.body_scroll == old(self).edit_dialog.body_scroll,
            final(self).edit_dialog.body_follow,
    {
        self.edit_dialog.field = match self.edit_dialog.field {
            EditField::Title => EditField::Body,
            EditField::Body => EditField::Title,
        };
        self.edit_dialog.cursor = match self.edit_dialog.field {
            EditField::Title => char_len(self.edit_dialog.title_input.as_str()),
            EditField::Body => char_len(self.edit_dialog.body_input.as_str()),
        };
        self.edit_dialog.body_follow = true;
    }

    /// Types `c` at the cursor and moves the cursor past it.
    pub fn on_edit_char_typed(&mut self, c: char)
        requires
            old(self).edit_dialog.cursor < usize::MAX,
        ensures
            text_edited(
                *old(self),
                *final(self),
                spec_insert(focused(old(self).edit_dialog), old(self).edit_dialog.cursor as int, c),
                old(self).edit_dialog.cursor + 1,
            ),
    {
        let cursor = self.edit_dialog.cursor;
        match self.edit_dialog.field {
            EditField::Title => insert_at(&mut self.edit_dialog.title_input, cursor, c),
            EditField::Body => insert_at(&mut self.edit_dialog.body_input, cursor, c),
        }
        self.edit_dialog.cursor = cursor + 1;
        self.edit_dialog.body_follow = true;
    }

    /// Deletes the char before the cursor and moves the cursor back; nothing
    /// happens at the start of the field.
    pub fn on_edit_backspace(&mut self)
        ensures
            old(self).edit_dialog.cursor == 0 ==> *final(self) == *old(self),
            old(self).edit_dialog.cursor > 0 ==> text_edited(
                *old(self),
                *final(self),
                spec_backspace(focused(old(self).edit_dialog), old(self).edit_dialog.cursor as int),
                old(self).edit_dialog.cursor - 1,
            ),
    {
        let cursor = self.edit_dialog.cursor;
        if cursor == 0 {
            return ;
        }
        let len = match self.edit_dialog.field {
            EditField::Title => char_len(self.edit_dialog.title_input.as_str()),
            EditField::Body => char_len(self.edit_dialog.body_input.as_str()),
        };
        if cursor <= len {
            match self.edit_dialog.field {
                EditField::Title => remove_at(&mut self.edit_dialog.title_input, cursor - 1),
                EditField::Body => remove_at(&mut self.edit_dialog.body_input, cursor - 1),
            }
        }
        self.edit_dialog.cursor = cursor - 1;
        self.edit_dialog.body_follow = true;
    }

    /// Forward delete (Del) at the cursor; nothing happens at the end.
    pub fn on_edit_delete(&mut self)
        ensures
            old(self).edit_dialog.cursor >= focused(old(self).edit_dialog).len() ==> *final(self)
                == *old(self),
            old(self).edit_dialog.cursor < focused(old(self).edit_dialog).len() ==> text_edited(
                *old(self),
                *final(self),
                spec_delete(focused(old(self).edit_dialog), old(self).edit_dialog.cursor as int),
                old(self).edit_dialog.cursor as int,
            ),
    {
        let cursor = self.edit_dialog.cursor;
        let len = match self.edit_dialog.field {
            EditField::Title => char_len(self.edit_dialog.title_input.as_str()),
            EditField::Body => char_len(self.edit_dialog.body_input.as_str()),
        };
        if cursor >= len {
            return ;
        }
        match self.edit_dialog.field {
            EditField::Title => remove_at(&mut self.edit_dialog.title_input, cursor),
            EditField::Body => remove_at(&mut self.edit_dialog.body_input, cursor),
        }
        self.edit_dialog.body_follow = true;
    }

    /// One char left, stopping at 0.
    pub fn on_edit_cursor_left(&mut self)
        ensures
            cursor_moved(
                *old(self),
                *final(self),
                if old(self).edit_dialog.cursor > 0 {
                    old(self).edit_dialog.cursor - 1
                } else {
                    0
                },
            ),
    {
        self.edit_dialog.cursor = if self.edit_dialog.cursor > 0 {
            self.edit_dialog.cursor - 1
        } else {
            0
        };
        self.edit_dialog.body_follow = true;
    }

    /// One char right, stopping at the end of the field.
    pub fn on_edit_cursor_right(&mut self)
        ensures
            cursor_moved(
                *old(self),
                *final(self),
                if old(self).edit_dialog.cursor + 1 < focused(old(self).edit_dialog).len() {
                    old(self).edit_dialog.cursor + 1
                } else {
                    focused(old(self).edit_dialog).len() as int
                },
            ),
    {
        let max = match self.edit_dialog.field {
            EditField::Title => char_len(self.edit_dialog.title_input.as_str()),
            EditField::Body => char_len(self.edit_dialog.body_input.as_str()),
        };
        self.edit_dialog.cursor = if self.edit_dialog.cursor >= max {
            max
        } else {
            self.edit_dialog.cursor + 1
        };
        self.edit_dialog.body_follow = true;
    }

    /// Home: start of the cursor's line.
    pub fn on_edit_cursor_line_start(&mut self)
        ensures
            cursor_moved(
                *old(self),
                *final(self),
                line_start_of(
                    focused(old(self).edit_dialog),
                    clamp_cursor(focused(old(self).edit_dialog), old(self).edit_dialog.cursor as int),
                ),
            ),
    {
        let cursor = self.edit_dialog.cursor;
        let (start, _) = match self.edit_dialog.field {
            EditField::Title => line_bounds(self.edit_dialog.title_input.as_str(), cursor),
            EditField::Body => line_bounds(self.edit_dialog.body_input.as_str(), cursor),
        };
        self.edit_dialog.cursor = start;
        self.edit_dialog.body_follow = true;
    }

    /// End: end of the cursor's line.
    pub fn on_edit_cursor_line_end(&mut self)
        ensures
            cursor_moved(
                *old(self),
                *final(self),
                line_end_of(
                    focused(old(self).edit_dialog),
                    clamp_cursor(focused(old(self).edit_dialog), old(self).edit_dialog.cursor as int),
                ),
            ),
    {
        let cursor = self.edit_dialog.cursor;
        let (_, end) = match self.edit_dialog.field {
            EditField::Title => line_bounds(self.edit_dialog.title_input.as_str(), cursor),
            EditField::Body => line_bounds(self.edit_dialog.body_input.as_str(), cursor),
        };
        self.edit_dialog.cursor = end;
        self.edit_dialog.body_follow = true;
    }

    /// Moves the cursor one line up or down in the body; nothing happens in
    /// the title.
    pub fn on_edit_cursor_vertical(&mut self, down: bool)
        ensures
            old(self).edit_dialog.field != EditField::Body ==> *final(self) == *old(self),
            old(self).edit_dialog.field == EditField::Body ==> cursor_moved(
                *old(self),
                *final(self),
                spec_move_line(old(self).edit_dialog.body_input@, old(self).edit_dialog.cursor as int, down),
            ),
    {
        if self.edit_dialog.field != EditField::Body {
            return ;
        }
        let cursor = self.edit_dialog.cursor;
        self.edit_dialog.cursor = move_line(self.edit_dialog.body_input.as_str(), cursor, down);
        self.edit_dialog.body_follow = true;
    }

    /// Enter in the title moves to the body; Enter in the body inserts a newline.
    pub fn on_edit_enter(&mut self)
        requires
            old(self).edit_dialog.cursor < usize::MAX,
        ensures
            old(self).edit_dialog.field == EditField::Title ==> {
                &&& only_dialog_changed(*old(self), *final(self))
                &&& final(self).edit_dialog.field == EditField::Body
                &&& final(self).edit_dialog.title_input == old(self).edit_dialog.title_input
                &&& final(self).edit_dialog.body_input == old(self).edit_dialog.body_input
                &&& final(self).edit_dialog.cursor == old(self).edit_dialog.body_input@.len()
                &&& final(self).edit_dialog.body_scroll == old(self).edit_dialog.body_scroll
                &&& final(self).edit_dialog.body_follow
            },
            old(self).edit_dialog.field == EditField::Body ==> text_edited(
                *old(self),
                *final(self),
                spec_insert(old(self).edit_dialog.body_input@, old(self).edit_dialog.cursor as int, '\n'),
                old(self).edit_dialog.cursor + 1,
            ),
    {
        match self.edit_dialog.field {
            EditField::Title => self.toggle_edit_field(),
            EditField::Body => self.on_edit_char_typed('\n'),
        }
    }

    /// Manual body scroll (PgUp/PgDn); pauses the cursor auto-follow.
    pub fn scroll_edit_body(&mut self, down: bool, amount: u16)
        ensures
            only_dialog_changed(*old(self), *final(self)),
            final(self).edit_dialog.title_input == old(self).edit_dialog.title_input,
            final(self).edit_dialog.body_input == old(self).edit_dialog.body_input,
            final(self).edit_dialog.field == old(self).edit_dialog.field,
            final(self).edit_dialog.cursor == old(self).edit_dialog.cursor,
            !final(self).edit_dialog.body_follow,
            final(self).edit_dialog.body_scroll == (if down {
                if old(self).edit_dialog.body_scroll + amount > u16::MAX {
                    u16::MAX as int
                } else {
                    old(self).edit_dialog.body_scroll + amount
                }
            } else {
                if old(self).edit_dialog.body_scroll >= amount {
                    old(self).edit_dialog.body_scroll - amount
                } else {
                    0
                }
            }),
    {
        self.edit_dialog.body_follow = false;
        let s = self.edit_dialog.body_scroll;
        self.edit_dialog.body_scroll = if down {
            if s as u32 + amount as u32 > 0xFFFF {
                0xFFFF
            } else {
                s + amount
            }
        } else {
            if s >= amount {
                s - amount
            } else {
                0
            }
        };
    }

    /// Saves title and body into the selected note and returns the file to
    /// write. The title is trimmed and must not be empty. After the write
    /// succeeds, `finish_edit_dialog` closes the editor.
    pub fn submit_edit_dialog(&mut self) -> (r: Result<NoteWrite, String>)
        ensures
            trim(old(self).edit_dialog.title_input@).len() == 0 ==> (*final(self) == *old(self)
                && err_is(r, "Název nesmí být prázdný"@)),
            trim(old(self).edit_dialog.title_input@).len() > 0 && old(self).selected_project_idx
                >= old(self).projects@.len() ==> (*final(self) == *old(self) && err_is(
                r,
                "Není vybrán žádný projekt"@,
            )),
            trim(old(self).edit_dialog.title_input@).len() > 0 && old(self).selected_project_idx
                < old(self).projects@.len() && old(self).selected_item_idx >= old(self).spec_items().len() ==> (*final(self) == *old(self) && err_is(
                r,
                "Není vybrána žádná položka"@,
            )),
            r is Ok <==> (trim(old(self).edit_dialog.title_input@).len() > 0
                && old(self).selected_project_idx < old(self).projects@.len()
                && old(self).selected_item_idx < old(self).spec_items().len()),
            r matches Ok(w) ==> {
                let p = old(self).selected_project_idx as int;
                let i = old(self).selected_item_idx as int;
                &&& note_rewritten(
                    old(self).projects@,
                    final(self).projects@,
                    p,
                    i,
                    trim(old(self).edit_dialog.title_input@),
                    old(self).edit_dialog.body_input@,
                )
                &&& w.path@ == old(self).projects@[p].items@[i].file_path@
                &&& w.content@ == spec_markdown(final(self).projects@[p].items@[i])
                &&& final(self).selected_project_idx == old(self).selected_project_idx
                &&& final(self).selected_item_idx == old(self).selected_item_idx
                &&& final(self).status_message == old(self).status_message
                &&& final(self).edit_dialog == old(self).edit_dialog
                &&& final(self).creation_dialog == old(self).creation_dialog
            },
    {
        let title_chars = chars_of(self.edit_dialog.title_input.as_str());
        let new_title = trim_chars(title_chars.as_slice());
        if new_title.len() == 0 {
            return Err(to_string("Název nesmí být prázdný"));
        }
        let p = self.selected_project_idx;
        if p >= self.projects.len() {
            return Err(to_string("Není vybrán žádný projekt"));
        }
        let i = self.selected_item_idx;
        if i >= self.projects[p].items.len() {
            return Err(to_string("Není vybrána žádná položka"));
        }
        let new_body = self.edit_dialog.body_input.clone();
        let mut projects: Vec<SpaiProjectSummary> = Vec::new();
        std::mem::swap(&mut projects, &mut self.projects);
        let ghost ps0 = projects@;
        let mut proj = projects.remove(p);
        let mut item = proj.items.remove(i);
        let ghost it0 = item;
        item.title = string_of(new_title.as_slice());
        item.body = new_body;
        let content = format_spai_markdown(&item);
        let path = item.file_path.clone();
        proj.items.insert(i, item);
        projects.insert(p, proj);
        std::mem::swap(&mut projects, &mut self.projects);
        proof {
            let ps1 = self.projects@;
            assert(ps1[p as int].items@[i as int] == item);
            assert forall|j: int| 0 <= j < ps0.len() && j != p implies ps1[j] == ps0[j] by {
                if j < p {
                } else {
                }
            }
            assert forall|k: int|
                0 <= k < ps0[p as int].items@.len() && k != i implies ps1[p as int].items@[k]
                == ps0[p as int].items@[k] by {
                if k < i {
                } else {
                }
            }
        }
        Ok(NoteWrite { path, content })
    }

    /// After the note was written: reports it and closes the editor.
    pub fn finish_edit_dialog(&mut self)
        ensures
            final(self).status_message matches Some(m) && m@ == "Poznámka uložena"@,
            !final(self).edit_dialog.active,
            final(self).edit_dialog.title_input@.len() == 0,
            final(self).edit_dialog.body_input@.len() == 0,
            final(self).edit_dialog.cursor == 0,
            final(self).projects == old(self).projects,
            final(self).selected_project_idx == old(self).selected_project_idx,
            final(self).selected_item_idx == old(self).selected_item_idx,
            final(self).creation_dialog == old(self).creation_dialog,
    {
        self.status_message = Some(to_string("Poznámka uložena"));
        self.close_edit_dialog();
    }
}

/// Everything but the edit dialog stays (its `active` flag may change too).
pub open spec fn only_dialog_changed_but_active(before: SpaiNotesState, after: SpaiNotesState) -> bool {
    &&& after.projects == before.projects
    &&& after.selected_project_idx == before.selected_project_idx
    &&& after.selected_item_idx == before.selected_item_idx
    &&& after.current_project_path == before.current_project_path
    &&& after.viewer_scroll == before.viewer_scroll
    &&& after.status_message == before.status_message
    &&& after.creation_dialog == before.creation_dialog
}

/// Typing a char and then Backspace gives back the text and the cursor
/// (when the cursor was inside the text).
pub proof fn lemma_type_then_backspace(s: Seq<char>, cursor: int, c: char)
    requires
        0 <= cursor <= s.len(),
    ensures
        spec_backspace(spec_insert(s, cursor, c), cursor + 1) == s,
{
    let t = spec_insert(s, cursor, c);
    assert(t.take(cursor) == s.take(cursor));
    assert(t.skip(cursor + 1) == s.skip(cursor));
    assert(s.take(cursor) + s.skip(cursor) == s);
}

/// Typing a char and then moving left and pressing Del gives back the text.
pub proof fn lemma_type_then_delete(s: Seq<char>, cursor: int, c: char)
    requires
        0 <= cursor <= s.len(),
    ensures
        spec_delete(spec_insert(s, cursor, c), cursor) == s,
{
    let t = spec_insert(s, cursor, c);
    assert(t.take(cursor) == s.take(cursor));
    assert(t.skip(cursor + 1) == s.skip(cursor));
    assert(s.take(cursor) + s.skip(cursor) == s);
}

/// Typing grows the text by one char, Backspace and Del inside the text
/// shrink it by one.
pub proof fn lemma_edit_lengths(s: Seq<char>, cursor: int, c: char)
    requires
        0 <= cursor <= s.len(),
    ensures
        spec_insert(s, cursor, c).len() == s.len() + 1,
        cursor >= 1 ==> spec_backspace(s, cursor).len() == s.len() - 1,
        cursor < s.len() ==> spec_delete(s, cursor).len() == s.len() - 1,
{
}

/// A cursor inside the focused text stays inside it after any edit or move
/// of the editor.
pub proof fn lemma_cursor_stays_in_text(s: Seq<char>, cursor: int, c: char, down: bool)
    requires
        0 <= cursor <= s.len(),
    ensures
        cursor + 1 <= spec_insert(s, cursor, c).len(),
        cursor >= 1 ==> cursor - 1 <= spec_backspace(s, cursor).len(),
        cursor < s.len() ==> cursor <= spec_delete(s, cursor).len(),
        0 <= spec_move_line(s, cursor, down) <= s.len(),
        0 <= line_start_of(s, cursor) <= cursor,
        cursor <= line_end_of(s, cursor) <= s.len(),
{
    crate::spai_notes::text_cursor::lemma_line_start(s, cursor);
    crate::spai_notes::text_cursor::lemma_line_end(s, cursor);
    crate::spai_notes::text_cursor::lemma_move_line_in_text(s, cursor, down);
}

} // verus!
