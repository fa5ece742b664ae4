//! Projects that hold SPAI notes (a `docs/spai` or `.pi/spai` folder).
use crate::paths::join_path;
use crate::sorting::{insert_index, insertion_sort};
use crate::spai_notes::note::SpaiNoteItem;
use crate::text::{chars_of, ends_with, ends_with_chars, lex_less, lex_lt};
use vstd::prelude::*;

verus! {

/// One entry of `pi-projects-cache.json`.
#[derive(Debug, Clone)]
pub struct CachedProject {
    pub name: String,
    pub path: String,
}

/// `pi-projects-cache.json`.
#[derive(Debug, Clone)]
pub struct ProjectsCache {
    pub projects: Vec<CachedProject>,
}

/// A project with its SPAI notes.
#[derive(Debug, Clone)]
pub struct SpaiProjectSummary {
    pub name: String,
    pub path: String,
    pub spai_dir: String,
    pub items: Vec<SpaiNoteItem>,
}

impl SpaiProjectSummary {
    pub fn new(name: String, path: String, spai_dir: String) -> (r: Self)
        ensures
            r.name == name,
            r.path == path,
            r.spai_dir == spai_dir,
            r.items@.len() == 0,
    {
        Self { name, path, spai_dir, items: Vec::new() }
    }
}

/// Newest first: a later timestamp goes before an earlier one.
pub open spec fn newer_first() -> spec_fn(SpaiNoteItem, SpaiNoteItem) -> bool {
    |a: SpaiNoteItem, b: SpaiNoteItem| lex_lt(b.timestamp@, a.timestamp@)
}

/// A markdown note of a SPAI folder: a `.md` name that is not hidden.
pub open spec fn spec_is_note_file(name: Seq<char>) -> bool {
    ends_with(name, ".md"@) && !(name.len() > 0 && name[0] == '.')
}

/// Whether a file of a SPAI folder is a note (see [`spec_is_note_file`]).
pub fn is_note_file(name: &str) -> (r: bool)
    ensures
        r == spec_is_note_file(name@),
{
    let v = chars_of(name);
    ends_with_chars(v.as_slice(), chars_of(".md").as_slice()) && !(v.len() > 0 && v[0] == '.')
}

/// Where a project's SPAI folder may be, in the order they are tried:
/// `docs/spai`, then `.pi/spai`.
pub fn spai_dir_candidates(project_path: &str) -> (r: (String, String))
    ensures
        r.0@ == crate::paths::path_joined(crate::paths::path_joined(project_path@, "docs"@), "spai"@),
        r.1@ == crate::paths::path_joined(crate::paths::path_joined(project_path@, ".pi"@), "spai"@),
{
    let docs = join_path(project_path, "docs");
    let dot = join_path(project_path, ".pi");
    (join_path(docs.as_str(), "spai"), join_path(dot.as_str(), "spai"))
}

fn newest_insert_pos(out: &Vec<SpaiNoteItem>, e: &SpaiNoteItem) -> (j: usize)
    ensures
        j == insert_index(out@, *e, newer_first()),
        j <= out@.len(),
{
    let ghost ov = out@;
    let mut j: usize = 0;
    assert(ov.skip(0) == ov);
    let et = chars_of(e.timestamp.as_str());
    while j < out.len()
        invariant
            0 <= j <= out@.len(),
            ov == out@,
            et@ == e.timestamp@,
            insert_index(ov, *e, newer_first()) == j + insert_index(ov.skip(j as int), *e, newer_first()),
        decreases out.len() - j,
    {
        assert(ov.skip(j as int)[0] == ov[j as int]);
        if lex_less(chars_of(out[j].timestamp.as_str()).as_slice(), et.as_slice()) {
            return j;
        }
        assert(ov.skip(j as int).drop_first() == ov.skip(j + 1));
        j = j + 1;
    }
    j
}

impl SpaiProjectSummary {
    /// Takes the notes read from the project's SPAI folder, newest first
    /// (a stable sort by timestamp, descending).
    pub fn set_items(&mut self, items: Vec<SpaiNoteItem>)
        ensures
            final(self).items@ == insertion_sort(items@, newer_first()),
            final(self).name == old(self).name,
            final(self).path == old(self).path,
            final(self).spai_dir == old(self).spai_dir,
    {
        let ghost all = items@;
        let total = items.len();
        let mut rest = items;
        let mut out: Vec<SpaiNoteItem> = Vec::new();
        let mut i: usize = 0;
        assert(all.take(0) =~= Seq::<SpaiNoteItem>::empty());
        while rest.len() > 0
            invariant
                i + rest@.len() == all.len(),
                total == all.len(),
                rest@ == all.skip(i as int),
                out@ == insertion_sort(all.take(i as int), newer_first()),
            decreases rest.len(),
        {
            let e = rest.remove(0);
            assert(e == all[i as int]);
            assert(rest@ == all.skip(i + 1));
            let j = newest_insert_pos(&out, &e);
            proof {
                assert(all.take(i + 1).drop_last() == all.take(i as int));
                assert(all.take(i + 1).last() == e);
            }
            out.insert(j, e);
            i = i + 1;
        }
        assert(all.take(i as int) == all);
        self.items = out;
    }
}

} // verus!
