//! The command line: which subcommand runs, which sidebar face opens
//! first, and which snapshot the renderer reads.
use crate::text::{chars_eq, chars_of, lower_chars, lower_seq};
use vstd::prelude::*;

verus! {

/// What the program is asked to do; each maps onto one Herdr entrypoint.
#[derive(Debug, Clone, Copy, PartialEq, Eq, Structural)]
pub enum Subcommand {
    /// The standalone plugin-usage overview window.
    Usage,
    /// The sidebar in its own pane.
    View,
    /// The sidebar as a popup.
    Popup,
    /// The sidebar drawn from a snapshot file.
    Renderer,
    /// Shows or hides the sidebar.
    Toggle,
    /// Opens the popup face.
    PopupAction,
    /// Opens the notes modal.
    NotesPopupAction,
    /// Opens the usage overview.
    UsagePopupAction,
    /// Asks the sidebar to switch tab.
    SwitchTab,
    /// Makes sure a sidebar stands beside the agent.
    Ensure,
}

/// A face of the sidebar.
#[derive(Debug, Clone, Copy, PartialEq, Eq, Structural)]
pub enum Tab {
    Zen,
    Status,
    Skills,
    Mcp,
    Notes,
    Shortcuts,
}

pub open spec fn arg_views(args: Seq<String>) -> Seq<Seq<char>> {
    args.map_values(|a: String| a@)
}

/// The subcommand a word names; any other word shows the sidebar.
pub open spec fn spec_subcommand(word: Seq<char>) -> Subcommand {
    if word == "usage"@ {
        Subcommand::Usage
    } else if word == "popup"@ {
        Subcommand::Popup
    } else if word == "renderer"@ {
        Subcommand::Renderer
    } else if word == "toggle"@ {
        Subcommand::Toggle
    } else if word == "popup-action"@ {
        Subcommand::PopupAction
    } else if word == "notes-popup-action"@ {
        Subcommand::NotesPopupAction
    } else if word == "usage-popup-action"@ {
        Subcommand::UsagePopupAction
    } else if word == "switch-tab"@ {
        Subcommand::SwitchTab
    } else if word == "ensure"@ {
        Subcommand::Ensure
    } else {
        Subcommand::View
    }
}

/// The subcommand of the arguments (the program's name first): the
/// second argument's, the sidebar when there is none.
pub open spec fn spec_parse_subcommand(args: Seq<Seq<char>>) -> Subcommand {
    if args.len() > 1 {
        spec_subcommand(args[1])
    } else {
        Subcommand::View
    }
}

/// The face a `--tab` value names, by name or number, case aside.
pub open spec fn spec_tab_named(value: Seq<char>) -> Option<Tab> {
    let v = lower_seq(value);
    if v == "notes"@ || v == "4"@ {
        Some(Tab::Notes)
    } else if v == "shortcuts"@ || v == "keys"@ || v == "5"@ {
        Some(Tab::Shortcuts)
    } else if v == "mcp"@ || v == "3"@ {
        Some(Tab::Mcp)
    } else if v == "skills"@ || v == "2"@ {
        Some(Tab::Skills)
    } else if v == "status"@ || v == "1"@ {
        Some(Tab::Status)
    } else if v == "zen"@ || v == "0"@ {
        Some(Tab::Zen)
    } else {
        None
    }
}

/// Position of the first `--tab`.
pub open spec fn first_tab_flag(args: Seq<Seq<char>>) -> Option<int> {
    if exists|i: int| 0 <= i < args.len() && args[i] == "--tab"@ {
        Some(choose|i: int| 0 <= i < args.len() && args[i] == "--tab"@ && forall|j: int| 0 <= j < i ==> args[j] != "--tab"@)
    } else {
        None
    }
}

/// The face named after the first `--tab`, if it names one.
pub open spec fn spec_parse_tab(args: Seq<Seq<char>>) -> Option<Tab> {
    match first_tab_flag(args) {
        Some(i) => if i + 1 < args.len() {
            spec_tab_named(args[i + 1])
        } else {
            None
        },
        None => None,
    }
}

/// The path after the last `--snapshot` read from `i` on; a flag reads
/// the word after it, so that word is no flag itself.
pub open spec fn snapshot_from(args: Seq<Seq<char>>, i: int) -> Option<Seq<char>>
    decreases args.len() - i,
{
    if i < 0 || i >= args.len() {
        None
    } else if args[i] == "--snapshot"@ && i + 1 < args.len() {
        match snapshot_from(args, i + 2) {
            Some(p) => Some(p),
            None => Some(args[i + 1]),
        }
    } else {
        snapshot_from(args, i + 1)
    }
}

fn is(a: &String, w: &str) -> (r: bool)
    ensures
        r == (a@ == w@),
{
    chars_eq(chars_of(a.as_str()).as_slice(), chars_of(w).as_slice())
}

fn is_chars(a: &[char], w: &str) -> (r: bool)
    ensures
        r == (a@ == w@),
{
    chars_eq(a, chars_of(w).as_slice())
}

/// The subcommand of the arguments (see [`spec_parse_subcommand`]).
pub fn parse_subcommand(args: &[String]) -> (r: Subcommand)
    ensures
        r == spec_parse_subcommand(arg_views(args@)),
{
    if args.len() < 2 {
        return Subcommand::View;
    }
    let w = &args[1];
    if is(w, "usage") {
        Subcommand::Usage
    } else if is(w, "popup") {
        Subcommand::Popup
    } else if is(w, "renderer") {
        Subcommand::Renderer
    } else if is(w, "toggle") {
        Subcommand::Toggle
    } else if is(w, "popup-action") {
        Subcommand::PopupAction
    } else if is(w, "notes-popup-action") {
        Subcommand::NotesPopupAction
    } else if is(w, "usage-popup-action") {
        Subcommand::UsagePopupAction
    } else if is(w, "switch-tab") {
        Subcommand::SwitchTab
    } else if is(w, "ensure") {
        Subcommand::Ensure
    } else {
        Subcommand::View
    }
}

/// The face a `--tab` value names (see [`spec_tab_named`]).
pub fn tab_named(value: &str) -> (r: Option<Tab>)
    ensures
        r == spec_tab_named(value@),
{
    let v = lower_chars(chars_of(value).as_slice());
    let v = v.as_slice();
    if is_chars(v, "notes") || is_chars(v, "4") {
        Some(Tab::Notes)
    } else if is_chars(v, "shortcuts") || is_chars(v, "keys") || is_chars(v, "5") {
        Some(Tab::Shortcuts)
    } else if is_chars(v, "mcp") || is_chars(v, "3") {
        Some(Tab::Mcp)
    } else if is_chars(v, "skills") || is_chars(v, "2") {
        Some(Tab::Skills)
    } else if is_chars(v, "status") || is_chars(v, "1") {
        Some(Tab::Status)
    } else if is_chars(v, "zen") || is_chars(v, "0") {
        Some(Tab::Zen)
    } else {
        None
    }
}

/// Parses `--tab <name>` so Herdr entrypoints can open a specific face
/// (see [`spec_parse_tab`]).
pub fn parse_tab(args: &[String]) -> (r: Option<Tab>)
    ensures
        r == spec_parse_tab(arg_views(args@)),
{
    let ghost av = arg_views(args@);
    let mut i: usize = 0;
    while i < args.len()
        invariant
            0 <= i <= args@.len(),
            av == arg_views(args@),
            forall|j: int| 0 <= j < i ==> av[j] != "--tab"@,
        decreases args.len() - i,
    {
        if is(&args[i], "--tab") {
            proof {
                let f = first_tab_flag(av);
                assert(av[i as int] == "--tab"@);
                let k = choose|k: int| 0 <= k < av.len() && av[k] == "--tab"@ && forall|j: int| 0 <= j < k ==> av[j] != "--tab"@;
                assert(0 <= i < av.len() && av[i as int] == "--tab"@ && forall|j: int| 0 <= j < i ==> av[j] != "--tab"@);
                if k < i {
                    assert(av[k] != "--tab"@);
                }
                if i < k {
                    assert(av[i as int] != "--tab"@);
                }
                assert(f == Some(i as int));
            }
            if i + 1 < args.len() {
                return tab_named(args[i + 1].as_str());
            } else {
                return None;
            }
        }
        i = i + 1;
    }
    None
}

/// The snapshot path the renderer reads: the word after the last
/// `--snapshot` past the subcommand.
pub fn snapshot_arg(args: &[String]) -> (r: Option<String>)
    ensures
        match r {
            Some(p) => snapshot_from(arg_views(args@), 2) == Some(p@),
            None => snapshot_from(arg_views(args@), 2) is None,
        },
{
    let ghost av = arg_views(args@);
    let mut found: Option<usize> = None;
    let mut i: usize = 2;
    while i < args.len()
        invariant
            2 <= i,
            av == arg_views(args@),
            i <= args@.len() + 2,
            match found {
                Some(k) => k + 1 < args@.len() && snapshot_from(av, 2) == (match snapshot_from(av, i as int) {
                    Some(p) => Some(p),
                    None => Some(av[k + 1]),
                }),
                None => snapshot_from(av, 2) == snapshot_from(av, i as int),
            },
        decreases args.len() + 2 - i,
    {
        if is(&args[i], "--snapshot") && i + 1 < args.len() {
            found = Some(i);
            i = i + 2;
        } else {
            i = i + 1;
        }
    }
    match found {
        Some(k) => Some(crate::text::to_string(args[k + 1].as_str())),
        None => None,
    }
}

} // verus!
