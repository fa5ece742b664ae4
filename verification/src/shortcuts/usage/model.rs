//! What the usage scanner counts, and how a tool name is attributed to the
//! plugin that provides it.
use crate::text::{chars_eq, chars_of, contains, contains_chars, starts_with, starts_with_chars};
use vstd::prelude::*;

verus! {

/// Tools that ship with the agent itself rather than with a plugin.
pub open spec fn builtin_tools() -> Seq<Seq<char>> {
    seq![
        "bash"@,
        "read"@,
        "edit"@,
        "write"@,
        "read_all"@,
        "ls"@,
        "glob"@,
        "grep"@,
        "task"@,
        "todo"@,
        "read_skill"@,
    ]
}

/// The plugin that answers a tool: `mcp__<server>` proxies and the
/// hyphenated knowledge-base variants are matched before the generic rules.
pub open spec fn spec_plugin_of(t: Seq<char>) -> Seq<char> {
    if starts_with(t, "mcp__"@) {
        let r = t.skip(5);
        if starts_with(r, "lotusscript"@) {
            "mcp-lotusscript-lsp"@
        } else if starts_with(r, "openrouter"@) {
            "mcp-openrouter"@
        } else if contains(r, "knowledge"@) {
            "mcp-knowledge-base"@
        } else {
            "other"@
        }
    } else if starts_with(t, "ctx_"@) {
        "context-mode"@
    } else if starts_with(t, "knowledge_base"@) || starts_with(t, "knowledge-base"@) {
        "mcp-knowledge-base"@
    } else if starts_with(t, "lotusscript_lsp"@) || starts_with(t, "lotusscript-lsp"@) {
        "mcp-lotusscript-lsp"@
    } else if starts_with(t, "lotusscript"@) {
        "pi-lotusscript-modular"@
    } else if starts_with(t, "openrouter_"@) {
        "mcp-openrouter"@
    } else if starts_with(t, "lens_"@) || starts_with(t, "lsp_"@) || starts_with(t, "pi_lens_"@)
        || starts_with(t, "pi_lsp_"@) || t == "symbol_search"@ || t == "module_report"@ || t
        == "project_report"@ || t == "read_symbol"@ || t == "read_enclosing"@ || t
        == "effective_config"@ || t == "lsp_navigation"@ || t == "lens_diagnostic_mark"@ {
        "pi-lens"@
    } else if t == "web_search"@ || t == "fetch_content"@ || t == "get_search_content"@ || t
        == "source_check"@ || t == "web_fetch"@ {
        "pi-web-access"@
    } else if starts_with(t, "subagent"@) || t == "bg_wait"@ {
        "pi-subagents"@
    } else if starts_with(t, "batch_"@) {
        "pi-batch"@
    } else if t == "record_spai_item"@ || t == "search_spai_items"@ || t == "update_spai_status"@ {
        "pi-spai"@
    } else if t == "list_projects"@ || t == "search_projects"@ || t == "add_project_root"@ || t
        == "add_project_manually"@ {
        "pi-projects"@
    } else if t == "mcp"@ || t == "mcpScript"@ {
        "pi-mcp-adapter"@
    } else if starts_with(t, "herdr_"@) {
        "herdr-plugin-dev"@
    } else if starts_with(t, "goal_"@) {
        "pi-goal"@
    } else if t == "record_adr"@ || t == "search_adrs"@ {
        "pi-adr"@
    } else if starts_with(t, "metaculus_"@) {
        "metaculus"@
    } else if starts_with(t, "pixellab_"@) {
        "pixellab"@
    } else if starts_with(t, "career_"@) {
        "career"@
    } else if starts_with(t, "spai_"@) {
        "pi-spai"@
    } else if builtin_tools().contains(t) {
        "builtin"@
    } else {
        "other"@
    }
}

fn sw(t: &[char], p: &str) -> (b: bool)
    ensures
        b == starts_with(t@, p@),
{
    starts_with_chars(t, chars_of(p).as_slice())
}

fn same_as(t: &[char], p: &str) -> (b: bool)
    ensures
        b == (t@ == p@),
{
    chars_eq(t, chars_of(p).as_slice())
}

fn is_builtin(t: &[char]) -> (b: bool)
    ensures
        b == builtin_tools().contains(t@),
{
    let r = same_as(t, "bash") || same_as(t, "read") || same_as(t, "edit") || same_as(t, "write") || same_as(t, "read_all")
        || same_as(t, "ls") || same_as(t, "glob") || same_as(t, "grep") || same_as(t, "task") || same_as(t, "todo") || same_as(
        t,
        "read_skill",
    );
    proof {
        let bs = builtin_tools();
        if r {
            if t@ == "bash"@ {
                assert(bs[0] == t@);
            } else if t@ == "read"@ {
                assert(bs[1] == t@);
            } else if t@ == "edit"@ {
                assert(bs[2] == t@);
            } else if t@ == "write"@ {
                assert(bs[3] == t@);
            } else if t@ == "read_all"@ {
                assert(bs[4] == t@);
            } else if t@ == "ls"@ {
                assert(bs[5] == t@);
            } else if t@ == "glob"@ {
                assert(bs[6] == t@);
            } else if t@ == "grep"@ {
                assert(bs[7] == t@);
            } else if t@ == "task"@ {
                assert(bs[8] == t@);
            } else if t@ == "todo"@ {
                assert(bs[9] == t@);
            } else {
                assert(bs[10] == t@);
            }
        } else {
            assert forall|i: int| 0 <= i < bs.len() implies bs[i] != t@ by {
                assert(bs[i] == builtin_tools()[i]);
            }
        }
    }
    r
}

/// Attributes a tool name to the plugin that provides it.
pub fn plugin_of(tool: &str) -> (r: &'static str)
    ensures
        r@ == spec_plugin_of(tool@),
{
    let v = chars_of(tool);
    let t = v.as_slice();
    if sw(t, "mcp__") {
        proof {
            assert("mcp__"@.len() == 5) by {
                reveal_strlit("mcp__");
            }
        }
        let rest = crate::text::slice_chars(t, 5, t.len());
        assert(rest@ == t@.skip(5));
        let r = rest.as_slice();
        return if sw(r, "lotusscript") {
            "mcp-lotusscript-lsp"
        } else if sw(r, "openrouter") {
            "mcp-openrouter"
        } else if contains_chars(r, chars_of("knowledge").as_slice()) {
            "mcp-knowledge-base"
        } else {
            "other"
        };
    }
    if sw(t, "ctx_") {
        return "context-mode";
    }
    if sw(t, "knowledge_base") || sw(t, "knowledge-base") {
        return "mcp-knowledge-base";
    }
    if sw(t, "lotusscript_lsp") || sw(t, "lotusscript-lsp") {
        return "mcp-lotusscript-lsp";
    }
    if sw(t, "lotusscript") {
        return "pi-lotusscript-modular";
    }
    if sw(t, "openrouter_") {
        return "mcp-openrouter";
    }
    if sw(t, "lens_") || sw(t, "lsp_") || sw(t, "pi_lens_") || sw(t, "pi_lsp_") || same_as(
        t,
        "symbol_search",
    ) || same_as(t, "module_report") || same_as(t, "project_report") || same_as(t, "read_symbol") || same_as(
        t,
        "read_enclosing",
    ) || same_as(t, "effective_config") || same_as(t, "lsp_navigation") || same_as(t, "lens_diagnostic_mark") {
        return "pi-lens";
    }
    if same_as(t, "web_search") || same_as(t, "fetch_content") || same_as(t, "get_search_content") || same_as(
        t,
        "source_check",
    ) || same_as(t, "web_fetch") {
        return "pi-web-access";
    }
    if sw(t, "subagent") || same_as(t, "bg_wait") {
        return "pi-subagents";
    }
    if sw(t, "batch_") {
        return "pi-batch";
    }
    if same_as(t, "record_spai_item") || same_as(t, "search_spai_items") || same_as(t, "update_spai_status") {
        return "pi-spai";
    }
    if same_as(t, "list_projects") || same_as(t, "search_projects") || same_as(t, "add_project_root") || same_as(
        t,
        "add_project_manually",
    ) {
        return "pi-projects";
    }
    if same_as(t, "mcp") || same_as(t, "mcpScript") {
        return "pi-mcp-adapter";
    }
    if sw(t, "herdr_") {
        return "herdr-plugin-dev";
    }
    if sw(t, "goal_") {
        return "pi-goal";
    }
    if same_as(t, "record_adr") || same_as(t, "search_adrs") {
        return "pi-adr";
    }
    if sw(t, "metaculus_") {
        return "metaculus";
    }
    if sw(t, "pixellab_") {
        return "pixellab";
    }
    if sw(t, "career_") {
        return "career";
    }
    if sw(t, "spai_") {
        return "pi-spai";
    }
    if is_builtin(t) {
        return "builtin";
    }
    "other"
}

#[derive(Debug, Clone, PartialEq, Eq)]
pub struct PluginUsage {
    pub plugin: String,
    pub calls: u64,
    /// Distinct tools this plugin answered, most used first.
    pub tools: Vec<(String, u64)>,
}

#[derive(Debug, Clone, PartialEq, Eq)]
pub struct Counted {
    pub name: String,
    pub count: u64,
}

#[derive(Debug, Clone, PartialEq, Eq)]
pub struct UsageStats {
    pub files: usize,
    pub messages: u64,
    pub tool_calls: u64,
    pub builtin_calls: u64,
    pub plugins: Vec<PluginUsage>,
    pub tools: Vec<Counted>,
    pub skills: Vec<Counted>,
    pub commands: Vec<Counted>,
    pub elapsed_ms: u64,
    /// Unix seconds of the newest session file seen.
    pub newest_session: Option<u64>,
}

impl Default for UsageStats {
    fn default() -> (r: Self)
        ensures
            r.files == 0,
            r.messages == 0,
            r.tool_calls == 0,
            r.builtin_calls == 0,
            r.plugins@.len() == 0,
            r.tools@.len() == 0,
            r.skills@.len() == 0,
            r.commands@.len() == 0,
            r.elapsed_ms == 0,
            r.newest_session is None,
    {
        UsageStats {
            files: 0,
            messages: 0,
            tool_calls: 0,
            builtin_calls: 0,
            plugins: Vec::new(),
            tools: Vec::new(),
            skills: Vec::new(),
            commands: Vec::new(),
            elapsed_ms: 0,
            newest_session: None,
        }
    }
}

/// The plugin rows other than the agent's own tools, in order.
pub open spec fn non_builtin(ps: Seq<PluginUsage>) -> Seq<PluginUsage>
    decreases ps.len(),
{
    if ps.len() == 0 {
        Seq::empty()
    } else {
        let r = non_builtin(ps.drop_last());
        if ps.last().plugin@ == "builtin"@ {
            r
        } else {
            r.push(ps.last())
        }
    }
}

impl UsageStats {
    /// Calls served by plugins, i.e. everything except the agent's own tools.
    pub fn plugin_calls(&self) -> (r: u64)
        ensures
            r == (if self.tool_calls >= self.builtin_calls {
                self.tool_calls - self.builtin_calls
            } else {
                0
            }),
    {
        if self.tool_calls >= self.builtin_calls {
            self.tool_calls - self.builtin_calls
        } else {
            0
        }
    }

    /// Plugin rows worth showing: builtins are reported separately.
    pub fn ranked_plugins(&self) -> (r: Vec<&PluginUsage>)
        ensures
            r@.map_values(|p: &PluginUsage| *p) == non_builtin(self.plugins@),
    {
        let mut out: Vec<&PluginUsage> = Vec::new();
        let mut i: usize = 0;
        while i < self.plugins.len()
            invariant
                0 <= i <= self.plugins@.len(),
                out@.map_values(|p: &PluginUsage| *p) == non_builtin(self.plugins@.take(i as int)),
            decreases self.plugins.len() - i,
        {
            let p = &self.plugins[i];
            assert(self.plugins@.take(i + 1).drop_last() == self.plugins@.take(i as int));
            if !same_as(chars_of(p.plugin.as_str()).as_slice(), "builtin") {
                let ghost before = out@;
                out.push(p);
                assert(out@.map_values(|p: &PluginUsage| *p) == before.map_values(
                    |p: &PluginUsage| *p,
                ).push(*p));
            }
            i = i + 1;
        }
        assert(self.plugins@.take(i as int) == self.plugins@);
        out
    }

    /// The row of the agent's own tools, if there is one (the first).
    pub fn builtin_row(&self) -> (r: Option<&PluginUsage>)
        ensures
            match r {
                Some(p) => exists|i: int|
                    0 <= i < self.plugins@.len() && self.plugins@[i] == *p && p.plugin@ == "builtin"@
                        && forall|j: int| 0 <= j < i ==> self.plugins@[j].plugin@ != "builtin"@,
                None => forall|j: int|
                    0 <= j < self.plugins@.len() ==> self.plugins@[j].plugin@ != "builtin"@,
            },
    {
        let mut i: usize = 0;
        while i < self.plugins.len()
            invariant
                0 <= i <= self.plugins@.len(),
                forall|j: int| 0 <= j < i ==> self.plugins@[j].plugin@ != "builtin"@,
            decreases self.plugins.len() - i,
        {
            if same_as(chars_of(self.plugins[i].plugin.as_str()).as_slice(), "builtin") {
                return Some(&self.plugins[i]);
            }
            i = i + 1;
        }
        None
    }
}

} // verus!
