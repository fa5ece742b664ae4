//! State of the SPAI Notes tab: the discovered projects, the selection and
//! the two dialogs.
//!
//! Dialog behaviour lives in sibling modules: `state_edit` (the integrated
//! editor, `e`) and `state_creation` (the creation dialog, `n`).
use crate::spai_notes::dialog_state::{NoteCreationDialog, NoteEditDialog};
use crate::spai_notes::discovery::SpaiProjectSummary;
use crate::spai_notes::note::SpaiNoteItem;
use crate::text::{chars_of, concat_chars, string_of, to_string};
use vstd::prelude::*;

verus! {

#[derive(Debug, Clone)]
pub struct SpaiNotesState {
    pub projects: Vec<SpaiProjectSummary>,
    pub selected_project_idx: usize,
    pub selected_item_idx: usize,
    pub current_project_path: Option<String>,
    pub filter_active_project: bool,
    pub viewer_scroll: u16,
    pub edit_mode: bool,
    pub status_message: Option<String>,
    pub creation_dialog: NoteCreationDialog,
    pub edit_dialog: NoteEditDialog,
}

/// The notes of the selected project (none when the index is past the end).
pub open spec fn items_of(projects: Seq<SpaiProjectSummary>, idx: int) -> Seq<SpaiNoteItem> {
    if 0 <= idx < projects.len() {
        projects[idx].items@
    } else {
        Seq::empty()
    }
}

/// Index of the first project whose path is `path`, paths compared as
/// `Path` compares them ([`crate::paths::path_equal`]).
pub open spec fn project_index_of(projects: Seq<SpaiProjectSummary>, path: Seq<char>) -> Option<
    int,
> {
    if exists|i: int|
        0 <= i < projects.len() && crate::paths::path_equal((#[trigger] projects[i]).path@, path) {
        Some(
            choose|i: int|
                0 <= i < projects.len() && crate::paths::path_equal(
                    (#[trigger] projects[i]).path@,
                    path,
                ) && forall|j: int|
                    0 <= j < i ==> !crate::paths::path_equal((#[trigger] projects[j]).path@, path),
        )
    } else {
        None
    }
}

/// Indices after `clamp_indices`: the project index is pulled into the
/// list, then the item index into that project's notes (both 0 when empty).
pub open spec fn clamped_indices(projects: Seq<SpaiProjectSummary>, p: int, i: int) -> (int, int) {
    if projects.len() == 0 {
        (0, 0)
    } else {
        let p2 = if p >= projects.len() {
            projects.len() - 1
        } else {
            p
        };
        let n = items_of(projects, p2).len();
        let i2 = if i >= n {
            if n == 0 {
                0
            } else {
                n - 1
            }
        } else {
            i
        };
        (p2, i2)
    }
}

impl SpaiNotesState {
    pub open spec fn spec_items(self) -> Seq<SpaiNoteItem> {
        items_of(self.projects@, self.selected_project_idx as int)
    }

    /// A fresh state over the projects that discovery found for
    /// `current_project_path`.
    pub fn new(current_project_path: Option<String>, projects: Vec<SpaiProjectSummary>) -> (r: Self)
        ensures
            r.projects@ == projects@,
            r.current_project_path == current_project_path,
            r.selected_project_idx == 0,
            r.selected_item_idx == 0,
            !r.filter_active_project,
            r.viewer_scroll == 0,
            !r.edit_mode,
            r.status_message is None,
            !r.creation_dialog.active,
            r.creation_dialog.title_input@.len() == 0,
            !r.edit_dialog.active,
            r.edit_dialog.cursor == 0,
    {
        Self {
            projects,
            selected_project_idx: 0,
            selected_item_idx: 0,
            current_project_path,
            filter_active_project: false,
            viewer_scroll: 0,
            edit_mode: false,
            status_message: None,
            creation_dialog: NoteCreationDialog::default(),
            edit_dialog: NoteEditDialog::default(),
        }
    }

    /// Takes the projects of a new discovery run (made for the updated
    /// current path) and pulls the selection back into range.
    pub fn refresh(
        &mut self,
        current_project_path: Option<String>,
        projects: Vec<SpaiProjectSummary>,
    )
        ensures
            final(self).current_project_path == (match current_project_path {
                Some(p) => Some(p),
                None => old(self).current_project_path,
            }),
            final(self).projects@ == projects@,
            (final(self).selected_project_idx as int, final(self).selected_item_idx as int)
                == clamped_indices(
                projects@,
                old(self).selected_project_idx as int,
                old(self).selected_item_idx as int,
            ),
            final(self).viewer_scroll == old(self).viewer_scroll,
            final(self).status_message == old(self).status_message,
            final(self).creation_dialog == old(self).creation_dialog,
            final(self).edit_dialog == old(self).edit_dialog,
    {
        if current_project_path.is_some() {
            self.current_project_path = current_project_path;
        }
        self.projects = projects;
        self.clamp_indices();
    }

    fn clamp_indices(&mut self)
        ensures
            final(self).projects == old(self).projects,
            final(self).current_project_path == old(self).current_project_path,
            (final(self).selected_project_idx as int, final(self).selected_item_idx as int)
                == clamped_indices(
                old(self).projects@,
                old(self).selected_project_idx as int,
                old(self).selected_item_idx as int,
            ),
            final(self).viewer_scroll == old(self).viewer_scroll,
            final(self).status_message == old(self).status_message,
            final(self).creation_dialog == old(self).creation_dialog,
            final(self).edit_dialog == old(self).edit_dialog,
    {
        if self.projects.len() == 0 {
            self.selected_project_idx = 0;
            self.selected_item_idx = 0;
            return ;
        }
        if self.selected_project_idx >= self.projects.len() {
            self.selected_project_idx = self.projects.len() - 1;
        }
        let items_len = self.current_items().len();
        if self.selected_item_idx >= items_len {
            self.selected_item_idx = if items_len == 0 {
                0
            } else {
                items_len - 1
            };
        }
    }

    /// The notes of the selected project.
    pub fn current_items(&self) -> (r: &[SpaiNoteItem])
        ensures
            r@ == self.spec_items(),
    {
        if self.selected_project_idx < self.projects.len() {
            self.projects[self.selected_project_idx].items.as_slice()
        } else {
            &[]
        }
    }

    /// The selected note, if the indices point at one.
    pub fn selected_item(&self) -> (r: Option<&SpaiNoteItem>)
        ensures
            match r {
                Some(it) => self.selected_item_idx < self.spec_items().len() && *it
                    == self.spec_items()[self.selected_item_idx as int],
                None => self.selected_item_idx >= self.spec_items().len(),
            },
    {
        let items = self.current_items();
        if self.selected_item_idx < items.len() {
            Some(&items[self.selected_item_idx])
        } else {
            None
        }
    }

    /// Path of the selected note's file.
    pub fn selected_file_path(&self) -> (r: Option<String>)
        ensures
            match r {
                Some(p) => self.selected_item_idx < self.spec_items().len() && p@
                    == self.spec_items()[self.selected_item_idx as int].file_path@,
                None => self.selected_item_idx >= self.spec_items().len(),
            },
    {
        match self.selected_item() {
            Some(it) => Some(it.file_path.clone()),
            None => None,
        }
    }

    /// Selects the project of the current workspace, when it is listed.
    pub fn jump_to_active_project(&mut self)
        ensures
            final(self).projects == old(self).projects,
            final(self).current_project_path == old(self).current_project_path,
            final(self).creation_dialog == old(self).creation_dialog,
            final(self).edit_dialog == old(self).edit_dialog,
            match old(self).current_project_path {
                Some(cp) => match project_index_of(old(self).projects@, cp@) {
                    Some(i) => {
                        &&& final(self).selected_project_idx == i
                        &&& final(self).selected_item_idx == 0
                        &&& final(self).viewer_scroll == 0
                        &&& final(self).status_message matches Some(m) && m@ == "Přepnuto na: "@
                            + old(self).projects@[i].name@
                    },
                    None => jump_failed(*old(self), *final(self)),
                },
                None => jump_failed(*old(self), *final(self)),
            },
    {
        let found = match &self.current_project_path {
            Some(cp) => self.position_of_path(cp),
            None => None,
        };
        match found {
            Some(idx) => {
                self.selected_project_idx = idx;
                self.selected_item_idx = 0;
                self.viewer_scroll = 0;
                let head = chars_of("Přepnuto na: ");
                let name = chars_of(self.projects[idx].name.as_str());
                let msg = concat_chars(head.as_slice(), name.as_slice());
                self.status_message = Some(string_of(msg.as_slice()));
            },
            None => {
                self.status_message = Some(to_string("Aktivní projekt nemá docs/spai"));
            },
        }
    }

    fn position_of_path(&self, path: &String) -> (r: Option<usize>)
        ensures
            match r {
                Some(i) => project_index_of(self.projects@, path@) == Some(i as int) && i
                    < self.projects@.len(),
                None => project_index_of(self.projects@, path@) is None,
            },
    {
        let mut i: usize = 0;
        while i < self.projects.len()
            invariant
                0 <= i <= self.projects@.len(),
                forall|j: int|
                    0 <= j < i ==> !crate::paths::path_equal(
                        (#[trigger] self.projects@[j]).path@,
                        path@,
                    ),
            decreases self.projects.len() - i,
        {
            if crate::paths::same_path(self.projects[i].path.as_str(), path.as_str()) {
                let ghost ps = self.projects@;
                assert(crate::paths::path_equal(ps[i as int].path@, path@));
                assert(exists|k: int|
                    0 <= k < ps.len() && crate::paths::path_equal((#[trigger] ps[k]).path@, path@));
                let ghost c = project_index_of(ps, path@)->0;
                assert(c == i) by {
                    if c < i {
                        assert(!crate::paths::path_equal(ps[c].path@, path@));
                    }
                    if c > i {
                        assert(crate::paths::path_equal(ps[i as int].path@, path@));
                    }
                }
                return Some(i);
            }
            i = i + 1;
        }
        None
    }

    /// Next project (wrapping); resets the note selection and the viewer.
    pub fn next_project(&mut self)
        ensures
            final(self).projects == old(self).projects,
            old(self).projects@.len() > 0 ==> {
                &&& final(self).selected_project_idx == (old(self).selected_project_idx + 1)
                    % (old(self).projects@.len() as int)
                &&& final(self).selected_item_idx == 0
                &&& final(self).viewer_scroll == 0
            },
            old(self).projects@.len() == 0 ==> *final(self) == *old(self),
            final(self).status_message == old(self).status_message,
            final(self).creation_dialog == old(self).creation_dialog,
            final(self).edit_dialog == old(self).edit_dialog,
    {
        if self.projects.len() > 0 {
            self.selected_project_idx = ((self.selected_project_idx as u128 + 1) % (
            self.projects.len() as u128)) as usize;
            self.selected_item_idx = 0;
            self.viewer_scroll = 0;
        }
    }

    /// Previous project (wrapping); resets the note selection and the viewer.
    pub fn prev_project(&mut self)
        ensures
            final(self).projects == old(self).projects,
            old(self).projects@.len() > 0 ==> {
                &&& final(self).selected_project_idx == (if old(self).selected_project_idx == 0 {
                    old(self).projects@.len() - 1
                } else {
                    old(self).selected_project_idx - 1
                })
                &&& final(self).selected_item_idx == 0
                &&& final(self).viewer_scroll == 0
            },
            old(self).projects@.len() == 0 ==> *final(self) == *old(self),
            final(self).status_message == old(self).status_message,
            final(self).creation_dialog == old(self).creation_dialog,
            final(self).edit_dialog == old(self).edit_dialog,
    {
        if self.projects.len() > 0 {
            if self.selected_project_idx == 0 {
                self.selected_project_idx = self.projects.len() - 1;
            } else {
                self.selected_project_idx = self.selected_project_idx - 1;
            }
            self.selected_item_idx = 0;
            self.viewer_scroll = 0;
        }
    }

    /// Next note of the project, stopping at the last.
    pub fn next_item(&mut self)
        ensures
            final(self).projects == old(self).projects,
            final(self).selected_project_idx == old(self).selected_project_idx,
            if old(self).selected_item_idx + 1 < old(self).spec_items().len() {
                final(self).selected_item_idx == old(self).selected_item_idx + 1
                    && final(self).viewer_scroll == 0
            } else {
                *final(self) == *old(self)
            },
            final(self).status_message == old(self).status_message,
            final(self).creation_dialog == old(self).creation_dialog,
            final(self).edit_dialog == old(self).edit_dialog,
    {
        let len = self.current_items().len();
        if len > 0 && self.selected_item_idx < len - 1 {
            self.selected_item_idx = self.selected_item_idx + 1;
            self.viewer_scroll = 0;
        }
    }

    /// Previous note of the project, stopping at the first.
    pub fn prev_item(&mut self)
        ensures
            final(self).projects == old(self).projects,
            final(self).selected_project_idx == old(self).selected_project_idx,
            if old(self).selected_item_idx > 0 {
                final(self).selected_item_idx == old(self).selected_item_idx - 1
                    && final(self).viewer_scroll == 0
            } else {
                *final(self) == *old(self)
            },
            final(self).status_message == old(self).status_message,
            final(self).creation_dialog == old(self).creation_dialog,
            final(self).edit_dialog == old(self).edit_dialog,
    {
        if self.selected_item_idx > 0 {
            self.selected_item_idx = self.selected_item_idx - 1;
            self.viewer_scroll = 0;
        }
    }

    /// Scrolls the note viewer up, stopping at the top.
    pub fn scroll_viewer_up(&mut self, amount: u16)
        ensures
            final(self).viewer_scroll == (if old(self).viewer_scroll >= amount {
                old(self).viewer_scroll - amount
            } else {
                0
            }),
            final(self).projects == old(self).projects,
            final(self).selected_project_idx == old(self).selected_project_idx,
            final(self).selected_item_idx == old(self).selected_item_idx,
    {
        self.viewer_scroll = if self.viewer_scroll >= amount {
            self.viewer_scroll - amount
        } else {
            0
        };
    }

    /// Scrolls the note viewer down, saturating at `u16::MAX`.
    pub fn scroll_viewer_down(&mut self, amount: u16)
        ensures
            final(self).viewer_scroll == (if old(self).viewer_scroll + amount > u16::MAX {
                u16::MAX as int
            } else {
                old(self).viewer_scroll + amount
            }),
            final(self).projects == old(self).projects,
            final(self).selected_project_idx == old(self).selected_project_idx,
            final(self).selected_item_idx == old(self).selected_item_idx,
    {
        self.viewer_scroll = if self.viewer_scroll as u32 + amount as u32 > 0xFFFF {
            0xFFFF
        } else {
            self.viewer_scroll + amount
        };
    }
}

/// A failed jump only sets the message that the workspace has no notes.
pub open spec fn jump_failed(before: SpaiNotesState, after: SpaiNotesState) -> bool {
    &&& after.selected_project_idx == before.selected_project_idx
    &&& after.selected_item_idx == before.selected_item_idx
    &&& after.viewer_scroll == before.viewer_scroll
    &&& after.status_message matches Some(m) && m@ == "Aktivní projekt nemá docs/spai"@
}

} // verus!
