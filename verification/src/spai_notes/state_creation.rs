//! The creation dialog (`n`): typing with `@project` completion, the record
//! type, and the new note it makes.
use crate::paths::join_path;
use crate::spai_notes::autocomplete::{
    apply_at_completion, extract_at_query, get_project_suggestions, spec_apply_completion,
    spec_at_query, spec_suggestions, suggestion_views,
};
use crate::spai_notes::dialog_state::NoteCreationDialog;
use crate::spai_notes::discovery::SpaiProjectSummary;
use crate::spai_notes::input_highlighter::{detect_spai_input, spec_detect};
use crate::spai_notes::note::{SpaiFacets, SpaiNoteItem, SpaiStatus, SpaiType};
use crate::spai_notes::state::SpaiNotesState;
use crate::spai_notes::state_edit::{err_is, NoteWrite};
use crate::spai_notes::storage_format::{
    format_spai_markdown, known_prefix_len, slugify, spec_markdown,
    spec_slugify, spec_update_body, strip_known_prefix, update_body_status_prefix,
};
use crate::text::{
    chars_of, concat_chars, dec_digits, string_of, to_string, trim, trim_chars, zero_pad,
    zero_padded,
};
use vstd::prelude::*;

verus! {

/// The title a creation input gives: trimmed, without its SPAI prefix
/// (unless nothing else is left).
pub open spec fn creation_title(input: Seq<char>) -> Seq<char> {
    let raw = trim(input);
    let clean = trim(strip_known_prefix(raw));
    if clean.len() == 0 {
        raw
    } else {
        clean
    }
}

/// The status a new note of a kind starts with.
pub open spec fn status_for_kind(kind: SpaiType) -> SpaiStatus {
    match kind {
        SpaiType::Todo => SpaiStatus::Todo,
        SpaiType::Idea => SpaiStatus::Idea,
        SpaiType::Note => SpaiStatus::Note,
    }
}

/// `SPAI-` and the number, zero-padded to three digits.
pub open spec fn note_id(n: nat) -> Seq<char> {
    "SPAI-"@ + zero_pad(dec_digits(n), 3)
}

/// `<today>-<id>-<slug>.md`.
pub open spec fn note_file_name(today: Seq<char>, id: Seq<char>, title: Seq<char>) -> Seq<char> {
    today + "-"@ + id + "-"@ + spec_slugify(title) + ".md"@
}

/// `item` is the new note `create_quick_note` makes in project `proj`.
pub open spec fn is_new_note(
    item: SpaiNoteItem,
    proj: SpaiProjectSummary,
    title: Seq<char>,
    kind: SpaiType,
    body: Seq<char>,
    today: Seq<char>,
    timestamp: Seq<char>,
) -> bool {
    let id = note_id((proj.items@.len() + 1) as nat);
    &&& item.id@ == id
    &&& item.title@ == title
    &&& item.kind == kind
    &&& item.status == status_for_kind(kind)
    &&& item.symbol@ == status_for_kind(kind).spec_symbol()
    &&& item.timestamp@ == timestamp
    &&& item.tags@.len() == 0
    &&& item.facets.project matches Some(p) && p@ == proj.name@
    &&& item.facets.project_path matches Some(p) && p@ == proj.path@
    &&& item.facets.priority is None
    &&& item.facets.deadline is None
    &&& item.body@ == body
    &&& item.file_name@ == note_file_name(today, id, title)
}

/// Everything of the state but the creation dialog stays.
pub open spec fn only_creation_changed(before: SpaiNotesState, after: SpaiNotesState) -> bool {
    &&& after.projects == before.projects
    &&& after.selected_project_idx == before.selected_project_idx
    &&& after.selected_item_idx == before.selected_item_idx
    &&& after.current_project_path == before.current_project_path
    &&& after.viewer_scroll == before.viewer_scroll
    &&& after.status_message == before.status_message
    &&& after.edit_dialog == before.edit_dialog
    &&& after.filter_active_project == before.filter_active_project
    &&& after.edit_mode == before.edit_mode
}

/// The completion state the creation dialog gets for its title: the
/// suggestions for an active `@` query, none otherwise.
pub open spec fn completion_updated(
    projects: Seq<SpaiProjectSummary>,
    before: NoteCreationDialog,
    after: NoteCreationDialog,
) -> bool {
    &&& after.active == before.active
    &&& after.title_input == before.title_input
    &&& after.selected_kind == before.selected_kind
    &&& match spec_at_query(before.title_input@) {
        Some(q) => {
            &&& suggestion_views(after.suggestions@) == spec_suggestions(projects, q)
            &&& after.autocomplete_active == (after.suggestions@.len() > 0)
            &&& after.autocomplete_selected == 0
        },
        None => {
            &&& !after.autocomplete_active
            &&& after.suggestions@.len() == 0
            &&& after.autocomplete_selected == before.autocomplete_selected
        },
    }
}

impl SpaiNotesState {
    /// Opens the creation dialog with an empty title and the Todo kind.
    pub fn open_creation_dialog(&mut self)
        ensures
            only_creation_changed(*old(self), *final(self)),
            final(self).creation_dialog.active,
            final(self).creation_dialog.title_input@.len() == 0,
            final(self).creation_dialog.selected_kind == SpaiType::Todo,
            final(self).creation_dialog.autocomplete_active == old(self).creation_dialog.autocomplete_active,
            final(self).creation_dialog.autocomplete_selected == old(self).creation_dialog.autocomplete_selected,
            final(self).creation_dialog.suggestions == old(self).creation_dialog.suggestions,
    {
        self.creation_dialog.active = true;
        self.creation_dialog.title_input = String::new();
        self.creation_dialog.selected_kind = SpaiType::Todo;
    }

    /// Closes the creation dialog and drops its title and suggestions.
    pub fn close_creation_dialog(&mut self)
        ensures
            only_creation_changed(*old(self), *final(self)),
            !final(self).creation_dialog.active,
            final(self).creation_dialog.title_input@.len() == 0,
            !final(self).creation_dialog.autocomplete_active,
            final(self).creation_dialog.suggestions@.len() == 0,
            final(self).creation_dialog.selected_kind == old(self).creation_dialog.selected_kind,
            final(self).creation_dialog.autocomplete_selected == old(self).creation_dialog.autocomplete_selected,
    {
        self.creation_dialog.active = false;
        self.creation_dialog.title_input = String::new();
        self.creation_dialog.autocomplete_active = false;
        self.creation_dialog.suggestions = Vec::new();
    }

    /// Appends a typed char to the title and refreshes the completion.
    pub fn on_dialog_char_typed(&mut self, c: char)
        ensures
            only_creation_changed(*old(self), *final(self)),
            final(self).creation_dialog.title_input@ == old(self).creation_dialog.title_input@.push(c),
            completion_after_title(*old(self), *final(self)),
    {
        self.creation_dialog.title_input.push(c);
        let ghost s1 = *self;
        self.update_autocomplete();
        assert(completion_updated(s1.projects@, s1.creation_dialog, self.creation_dialog));
    }

    /// Removes the last char of the title and refreshes the completion.
    pub fn on_dialog_backspace(&mut self)
        ensures
            only_creation_changed(*old(self), *final(self)),
            final(self).creation_dialog.title_input@ == (if old(self).creation_dialog.title_input@.len() > 0 {
                old(self).creation_dialog.title_input@.drop_last()
            } else {
                old(self).creation_dialog.title_input@
            }),
            completion_after_title(*old(self), *final(self)),
    {
        let v = chars_of(self.creation_dialog.title_input.as_str());
        if v.len() > 0 {
            let mut w = v;
            w.pop();
            self.creation_dialog.title_input = string_of(w.as_slice());
        }
        self.update_autocomplete();
    }

    /// Recomputes the completion for the current title: suggestions when it
    /// ends in an `@` query, none otherwise.
    pub fn update_autocomplete(&mut self)
        ensures
            only_creation_changed(*old(self), *final(self)),
            completion_updated(old(self).projects@, old(self).creation_dialog, final(self).creation_dialog),
    {
        match extract_at_query(self.creation_dialog.title_input.as_str()) {
            Some(query) => {
                let suggestions = get_project_suggestions(self.projects.as_slice(), query);
                self.creation_dialog.autocomplete_active = suggestions.len() > 0;
                self.creation_dialog.suggestions = suggestions;
                self.creation_dialog.autocomplete_selected = 0;
            },
            None => {
                self.creation_dialog.autocomplete_active = false;
                self.creation_dialog.suggestions = Vec::new();
            },
        }
    }

    /// Next suggestion (wrapping).
    pub fn next_suggestion(&mut self)
        ensures
            only_creation_changed(*old(self), *final(self)),
            same_but_selection(old(self).creation_dialog, final(self).creation_dialog),
            final(self).creation_dialog.autocomplete_selected == (if old(self).creation_dialog.suggestions@.len() > 0 {
                (old(self).creation_dialog.autocomplete_selected + 1) % (old(self).creation_dialog.suggestions@.len() as int)
            } else {
                old(self).creation_dialog.autocomplete_selected as int
            }),
    {
        let n = self.creation_dialog.suggestions.len();
        if n > 0 {
            self.creation_dialog.autocomplete_selected = ((self.creation_dialog.autocomplete_selected as u128
                + 1) % (n as u128)) as usize;
        }
    }

    /// Previous suggestion (wrapping).
    pub fn prev_suggestion(&mut self)
        ensures
            only_creation_changed(*old(self), *final(self)),
            same_but_selection(old(self).creation_dialog, final(self).creation_dialog),
            final(self).creation_dialog.autocomplete_selected == (if old(self).creation_dialog.suggestions@.len() > 0 {
                if old(self).creation_dialog.autocomplete_selected == 0 {
                    old(self).creation_dialog.suggestions@.len() - 1
                } else {
                    old(self).creation_dialog.autocomplete_selected - 1
                }
            } else {
                old(self).creation_dialog.autocomplete_selected as int
            }),
    {
        let n = self.creation_dialog.suggestions.len();
        if n > 0 {
            if self.creation_dialog.autocomplete_selected == 0 {
                self.creation_dialog.autocomplete_selected = n - 1;
            } else {
                self.creation_dialog.autocomplete_selected = self.creation_dialog.autocomplete_selected
                    - 1;
            }
        }
    }

    /// Completes the title with the selected suggestion; `false` (and no
    /// change) when the completion is not active or the index is off.
    pub fn apply_selected_suggestion(&mut self) -> (r: bool)
        ensures
            only_creation_changed(*old(self), *final(self)),
            r == (old(self).creation_dialog.autocomplete_active
                && old(self).creation_dialog.autocomplete_selected
                < old(self).creation_dialog.suggestions@.len()),
            !r ==> *final(self) == *old(self),
            r ==> {
                let d = old(self).creation_dialog;
                &&& final(self).creation_dialog.title_input@ == spec_apply_completion(
                    d.title_input@,
                    d.suggestions@[d.autocomplete_selected as int].insert_text@,
                )
                &&& !final(self).creation_dialog.autocomplete_active
                &&& final(self).creation_dialog.suggestions@.len() == 0
                &&& final(self).creation_dialog.active == d.active
                &&& final(self).creation_dialog.selected_kind == d.selected_kind
                &&& final(self).creation_dialog.autocomplete_selected == d.autocomplete_selected
            },
    {
        if self.creation_dialog.autocomplete_active && self.creation_dialog.suggestions.len() > 0 {
            let idx = self.creation_dialog.autocomplete_selected;
            if idx < self.creation_dialog.suggestions.len() {
                let mut suggestions: Vec<crate::spai_notes::autocomplete::ProjectSuggestion> =
                    Vec::new();
                std::mem::swap(&mut suggestions, &mut self.creation_dialog.suggestions);
                apply_at_completion(&mut self.creation_dialog.title_input, &suggestions[idx]);
                self.creation_dialog.autocomplete_active = false;
                return true;
            }
        }
        false
    }

    /// Cycles the record kind Todo → Idea → Note → Todo.
    pub fn cycle_creation_kind(&mut self)
        ensures
            only_creation_changed(*old(self), *final(self)),
            final(self).creation_dialog.selected_kind == (match old(self).creation_dialog.selected_kind {
                SpaiType::Todo => SpaiType::Idea,
                SpaiType::Idea => SpaiType::Note,
                SpaiType::Note => SpaiType::Todo,
            }),
            final(self).creation_dialog.title_input == old(self).creation_dialog.title_input,
            final(self).creation_dialog.active == old(self).creation_dialog.active,
            final(self).creation_dialog.suggestions == old(self).creation_dialog.suggestions,
            final(self).creation_dialog.autocomplete_active == old(
                self,
            ).creation_dialog.autocomplete_active,
            final(self).creation_dialog.autocomplete_selected == old(
                self,
            ).creation_dialog.autocomplete_selected,
    {
        self.creation_dialog.selected_kind = match self.creation_dialog.selected_kind {
            SpaiType::Todo => SpaiType::Idea,
            SpaiType::Idea => SpaiType::Note,
            SpaiType::Note => SpaiType::Todo,
        };
    }

    /// The new note the dialog's input makes: its title without the SPAI
    /// prefix, the kind the prefix names, and a body that starts with the
    /// prefix glyph and the title. The input must not be blank. After the
    /// note's file is written, `insert_created_note` adds it and the dialog
    /// is closed.
    pub fn submit_creation_dialog(&self, today: &str, timestamp: &str) -> (r: Result<SpaiNoteItem, String>)
        ensures
            trim(self.creation_dialog.title_input@).len() == 0 ==> err_is(r, "Název nesmí být prázdný"@),
            trim(self.creation_dialog.title_input@).len() > 0 && self.selected_project_idx
                >= self.projects@.len() ==> err_is(r, "Není vybrán žádný projekt"@),
            r is Ok <==> (trim(self.creation_dialog.title_input@).len() > 0 && self.selected_project_idx
                < self.projects@.len()),
            r matches Ok(item) ==> {
                let input = self.creation_dialog.title_input@;
                let d = spec_detect(trim(input));
                let title = creation_title(input);
                is_new_note(
                    item,
                    self.projects@[self.selected_project_idx as int],
                    title,
                    d.0,
                    d.3 + title + "\n"@,
                    today@,
                    timestamp@,
                )
            },
    {
        let input = chars_of(self.creation_dialog.title_input.as_str());
        let raw = trim_chars(input.as_slice());
        if raw.len() == 0 {
            return Err(to_string("Název nesmí být prázdný"));
        }
        let raw_s = string_of(raw.as_slice());
        let detected = detect_spai_input(raw_s.as_str());
        let title = creation_title_exec(self.creation_dialog.title_input.as_str());
        let glyph = chars_of(detected.prefix_glyph);
        let t = chars_of(title.as_str());
        let a = concat_chars(glyph.as_slice(), t.as_slice());
        let body = concat_chars(a.as_slice(), chars_of("\n").as_slice());
        let body = string_of(body.as_slice());
        self.create_quick_note(title.as_str(), detected.kind, body.as_str(), today, timestamp)
    }

    /// The new note for the selected project: the next `SPAI-NNN` id, the
    /// kind's starting status, the project facets, and a file named by date,
    /// id and title slug in the project's SPAI folder. Nothing is written
    /// here; see `insert_created_note`.
    pub fn create_quick_note(
        &self,
        title: &str,
        kind: SpaiType,
        body: &str,
        today: &str,
        timestamp: &str,
    ) -> (r: Result<SpaiNoteItem, String>)
        ensures
            r is Err <==> self.selected_project_idx >= self.projects@.len(),
            r is Err ==> err_is(r, "Není vybrán žádný projekt"@),
            r matches Ok(item) ==> is_new_note(
                item,
                self.projects@[self.selected_project_idx as int],
                title@,
                kind,
                body@,
                today@,
                timestamp@,
            ),
    {
        if self.selected_project_idx >= self.projects.len() {
            return Err(to_string("Není vybrán žádný projekt"));
        }
        let proj = &self.projects[self.selected_project_idx];
        let next_num: u128 = proj.items.len() as u128 + 1;
        let digits = zero_padded(next_num, 3);
        let id = concat_chars(chars_of("SPAI-").as_slice(), digits.as_slice());
        let slug = slugify(title);
        let mut name: Vec<char> = chars_of(today);
        name = concat_chars(name.as_slice(), chars_of("-").as_slice());
        name = concat_chars(name.as_slice(), id.as_slice());
        name = concat_chars(name.as_slice(), chars_of("-").as_slice());
        name = concat_chars(name.as_slice(), chars_of(slug.as_str()).as_slice());
        name = concat_chars(name.as_slice(), chars_of(".md").as_slice());
        let file_name = string_of(name.as_slice());
        let file_path = join_path(proj.spai_dir.as_str(), file_name.as_str());
        let status = match kind {
            SpaiType::Todo => SpaiStatus::Todo,
            SpaiType::Idea => SpaiStatus::Idea,
            SpaiType::Note => SpaiStatus::Note,
        };
        let item = SpaiNoteItem {
            id: string_of(id.as_slice()),
            title: to_string(title),
            kind,
            status,
            symbol: to_string(status.symbol()),
            timestamp: to_string(timestamp),
            tags: Vec::new(),
            facets: SpaiFacets {
                project: Some(proj.name.clone()),
                project_path: Some(proj.path.clone()),
                priority: None,
                deadline: None,
            },
            body: to_string(body),
            file_path,
            file_name,
        };
        Ok(item)
    }

    /// Moves the selected note to the next status of the cycle, retags its
    /// body, and returns the file to write with the message to show once
    /// it is written.
    pub fn cycle_selected_status(&mut self) -> (r: Result<(NoteWrite, String), String>)
        ensures
            old(self).selected_project_idx >= old(self).projects@.len() ==> (*final(self) == *old(
                self)
                && err_is(r, "Není vybrán žádný projekt"@)),
            old(self).selected_project_idx < old(self).projects@.len() && old(self).selected_item_idx
                >= old(self).spec_items().len() ==> (*final(self) == *old(self) && err_is(
                r,
                "Není vybrána žádná položka"@,
            )),
            r is Ok <==> (old(self).selected_project_idx < old(self).projects@.len()
                && old(self).selected_item_idx < old(self).spec_items().len()),
            r matches Ok((w, msg)) ==> {
                let p = old(self).selected_project_idx as int;
                let i = old(self).selected_item_idx as int;
                let it0 = old(self).projects@[p].items@[i];
                let it1 = final(self).projects@[p].items@[i];
                let st = it0.status.spec_next();
                &&& status_cycled(old(self).projects@, final(self).projects@, p, i)
                &&& it1.status == st
                &&& it1.symbol@ == st.spec_symbol()
                &&& it1.body@ == spec_update_body(it0.body@, st)
                &&& w.path@ == it0.file_path@
                &&& w.content@ == spec_markdown(it1)
                &&& msg@ == "Stav změněn: "@ + st.spec_glyph() + " "@ + st.name()
                &&& final(self).selected_project_idx == old(self).selected_project_idx
                &&& final(self).selected_item_idx == old(self).selected_item_idx
                &&& final(self).status_message == old(self).status_message
                &&& final(self).edit_dialog == old(self).edit_dialog
                &&& final(self).creation_dialog == old(self).creation_dialog
            },
    {
        let p = self.selected_project_idx;
        if p >= self.projects.len() {
            return Err(to_string("Není vybrán žádný projekt"));
        }
        let i = self.selected_item_idx;
        if i >= self.projects[p].items.len() {
            return Err(to_string("Není vybrána žádná položka"));
        }
        let mut projects: Vec<SpaiProjectSummary> = Vec::new();
        std::mem::swap(&mut projects, &mut self.projects);
        let ghost ps0 = projects@;
        let mut proj = projects.remove(p);
        let mut item = proj.items.remove(i);
        let new_status = item.status.next_cycle();
        item.status = new_status;
        item.symbol = to_string(new_status.symbol());
        item.body = update_body_status_prefix(item.body.as_str(), new_status);
        let content = format_spai_markdown(&item);
        let path = item.file_path.clone();
        proj.items.insert(i, item);
        projects.insert(p, proj);
        std::mem::swap(&mut projects, &mut self.projects);
        proof {
            let ps1 = self.projects@;
            assert(ps1[p as int].items@[i as int] == item);
            assert forall|j: int| 0 <= j < ps0.len() && j != p implies ps1[j] == ps0[j] by {
                if j < p {
                } else {
                }
            }
            assert forall|k: int|
                0 <= k < ps0[p as int].items@.len() && k != i implies ps1[p as int].items@[k]
                == ps0[p as int].items@[k] by {
                if k < i {
                } else {
                }
            }
        }
        let mut m = chars_of("Stav změněn: ");
        m = concat_chars(m.as_slice(), chars_of(new_status.glyph()).as_slice());
        m = concat_chars(m.as_slice(), chars_of(" ").as_slice());
        m = concat_chars(m.as_slice(), chars_of(new_status.as_str()).as_slice());
        Ok((NoteWrite { path, content }, string_of(m.as_slice())))
    }

    /// Adds a note whose file was written to the front of the selected
    /// project's notes and selects it.
    pub fn insert_created_note(&mut self, item: SpaiNoteItem)
        requires
            old(self).selected_project_idx < old(self).projects@.len(),
        ensures
            final(self).projects@.len() == old(self).projects@.len(),
            forall|j: int|
                0 <= j < old(self).projects@.len() && j != old(self).selected_project_idx ==> final(self).projects@[j] == old(self).projects@[j],
            ({
                let p = old(self).selected_project_idx as int;
                &&& final(self).projects@[p].name == old(self).projects@[p].name
                &&& final(self).projects@[p].path == old(self).projects@[p].path
                &&& final(self).projects@[p].spai_dir == old(self).projects@[p].spai_dir
                &&& final(self).projects@[p].items@ == old(self).projects@[p].items@.insert(0, item)
            }),
            final(self).selected_project_idx == old(self).selected_project_idx,
            final(self).selected_item_idx == 0,
            final(self).viewer_scroll == 0,
            final(self).status_message == old(self).status_message,
            final(self).creation_dialog == old(self).creation_dialog,
            final(self).edit_dialog == old(self).edit_dialog,
    {
        let p = self.selected_project_idx;
        let mut projects: Vec<SpaiProjectSummary> = Vec::new();
        std::mem::swap(&mut projects, &mut self.projects);
        let ghost ps0 = projects@;
        let mut proj = projects.remove(p);
        proj.items.insert(0, item);
        projects.insert(p, proj);
        std::mem::swap(&mut projects, &mut self.projects);
        proof {
            let ps1 = self.projects@;
            assert forall|j: int| 0 <= j < ps0.len() && j != p implies ps1[j] == ps0[j] by {
                if j < p {
                } else {
                }
            }
        }
        self.selected_item_idx = 0;
        self.viewer_scroll = 0;
    }
}

/// The completion state after a title change is the one for the new title.
pub open spec fn completion_after_title(before: SpaiNotesState, after: SpaiNotesState) -> bool {
    &&& after.creation_dialog.active == before.creation_dialog.active
    &&& after.creation_dialog.selected_kind == before.creation_dialog.selected_kind
    &&& match spec_at_query(after.creation_dialog.title_input@) {
        Some(q) => {
            &&& suggestion_views(after.creation_dialog.suggestions@) == spec_suggestions(
                before.projects@,
                q,
            )
            &&& after.creation_dialog.autocomplete_active == (after.creation_dialog.suggestions@.len()
                > 0)
            &&& after.creation_dialog.autocomplete_selected == 0
        },
        None => {
            &&& !after.creation_dialog.autocomplete_active
            &&& after.creation_dialog.suggestions@.len() == 0
            &&& after.creation_dialog.autocomplete_selected
                == before.creation_dialog.autocomplete_selected
        },
    }
}

/// The projects after the status of the note at `(p, i)` was cycled: every
/// other note and project stays, and so do the note's id, title, kind,
/// timestamp, tags, facets and file.
pub open spec fn status_cycled(
    before: Seq<SpaiProjectSummary>,
    after: Seq<SpaiProjectSummary>,
    p: int,
    i: int,
) -> bool {
    &&& 0 <= p < before.len()
    &&& 0 <= i < before[p].items@.len()
    &&& after.len() == before.len()
    &&& forall|j: int| 0 <= j < before.len() && j != p ==> after[j] == before[j]
    &&& after[p].name == before[p].name
    &&& after[p].path == before[p].path
    &&& after[p].spai_dir == before[p].spai_dir
    &&& after[p].items@.len() == before[p].items@.len()
    &&& forall|k: int|
        0 <= k < before[p].items@.len() && k != i ==> after[p].items@[k] == before[p].items@[k]
    &&& ({
        let a = before[p].items@[i];
        let b = after[p].items@[i];
        &&& a.id == b.id
        &&& a.title == b.title
        &&& a.kind == b.kind
        &&& a.timestamp == b.timestamp
        &&& a.tags == b.tags
        &&& a.facets == b.facets
        &&& a.file_path == b.file_path
        &&& a.file_name == b.file_name
    })
}

/// Only the selected suggestion index differs.
pub open spec fn same_but_selection(a: NoteCreationDialog, b: NoteCreationDialog) -> bool {
    &&& b.active == a.active
    &&& b.title_input == a.title_input
    &&& b.selected_kind == a.selected_kind
    &&& b.autocomplete_active == a.autocomplete_active
    &&& b.suggestions == a.suggestions
}

/// The title a creation input gives (see `creation_title`).
pub fn creation_title_exec(input: &str) -> (r: String)
    ensures
        r@ == creation_title(input@),
{
    let v = chars_of(input);
    let raw = trim_chars(v.as_slice());
    let n = known_prefix_len(raw.as_slice());
    let rest = crate::text::slice_chars(raw.as_slice(), n, raw.len());
    assert(rest@ == strip_known_prefix(raw@));
    let clean = trim_chars(rest.as_slice());
    if clean.len() == 0 {
        string_of(raw.as_slice())
    } else {
        string_of(clean.as_slice())
    }
}

} // verus!
