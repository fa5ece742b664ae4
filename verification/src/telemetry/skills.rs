//! Skill state of the Skills face: the active skill, the guidance it
//! loaded, recent actions, and the compliance gates over mutated files.
use crate::text::{chars_eq, chars_of};
use vstd::prelude::*;

verus! {

#[derive(Debug, Clone)]
pub struct SkillSnapshotFile {
    pub version: u32,
    pub live: bool,
    pub generated_at: String,
    pub state: Option<SkillState>,
}

/// Live skill tracking state.
#[derive(Debug, Clone)]
pub struct SkillState {
    pub active_skill: Option<String>,
    pub references: Vec<SkillReference>,
    pub actions: Vec<SkillAction>,
    pub compliance: Vec<ComplianceCheck>,
    pub inspected_count: u64,
    pub modified_count: u64,
    pub start_time: u64,
    pub last_update_time: u64,
    pub in_turn: bool,
    pub turn_count: u64,
}

#[derive(Debug, Clone)]
pub struct SkillReference {
    pub name: String,
    pub summary: String,
}

#[derive(Debug, Clone)]
pub struct SkillAction {
    pub kind: String,
    pub target: String,
    pub summary: String,
    pub timestamp: u64,
}

/// One Gates entry: a compliance rule checked against the agent's mutations.
#[derive(Debug, Clone)]
pub struct ComplianceCheck {
    pub rule: String,
    pub label: String,
    /// `pass` | `warn` | `fail`
    pub status: String,
    pub details: String,
}

/// Number of checks that passed.
pub open spec fn passed_count(cs: Seq<ComplianceCheck>) -> nat
    decreases cs.len(),
{
    if cs.len() == 0 {
        0
    } else {
        passed_count(cs.drop_last()) + if cs.last().status@ == "pass"@ {
            1nat
        } else {
            0nat
        }
    }
}

impl SkillSnapshotFile {
    /// Gates scorecard: `(passed, total)`.
    pub fn gate_score(&self) -> (r: (usize, usize))
        ensures
            match self.state {
                None => r == (0usize, 0usize),
                Some(s) => r.0 == passed_count(s.compliance@) && r.1 == s.compliance@.len(),
            },
    {
        match &self.state {
            None => (0, 0),
            Some(s) => {
                let pass = chars_of("pass");
                let mut n: usize = 0;
                let mut i: usize = 0;
                while i < s.compliance.len()
                    invariant
                        0 <= i <= s.compliance@.len(),
                        pass@ == "pass"@,
                        n == passed_count(s.compliance@.take(i as int)),
                        n <= i,
                    decreases s.compliance.len() - i,
                {
                    assert(s.compliance@.take(i + 1).drop_last() == s.compliance@.take(i as int));
                    if chars_eq(chars_of(s.compliance[i].status.as_str()).as_slice(), pass.as_slice()) {
                        n = n + 1;
                    }
                    i = i + 1;
                }
                assert(s.compliance@.take(i as int) == s.compliance@);
                (n, s.compliance.len())
            },
        }
    }
}

/// `PASS` / `WARN` / `FAIL` badge for a check status.
pub fn gate_badge(status: &str) -> (r: &'static str)
    ensures
        r@ == (if status@ == "pass"@ {
            "PASS"@
        } else if status@ == "fail"@ {
            "FAIL"@
        } else {
            "WARN"@
        }),
{
    let s = chars_of(status);
    if chars_eq(s.as_slice(), chars_of("pass").as_slice()) {
        "PASS"
    } else if chars_eq(s.as_slice(), chars_of("fail").as_slice()) {
        "FAIL"
    } else {
        "WARN"
    }
}

/// Action icon mirroring the skills panel of the TS extension.
pub fn action_icon(kind: &str) -> (r: &'static str)
    ensures
        r@ == (if kind@ == "bash"@ {
            "🧪"@
        } else if kind@ == "edit"@ {
            "✏️"@
        } else if kind@ == "write"@ {
            "✍️"@
        } else if kind@ == "doc_consult"@ {
            "📚"@
        } else {
            "📖"@
        }),
{
    let k = chars_of(kind);
    let k = k.as_slice();
    if chars_eq(k, chars_of("bash").as_slice()) {
        "🧪"
    } else if chars_eq(k, chars_of("edit").as_slice()) {
        "✏️"
    } else if chars_eq(k, chars_of("write").as_slice()) {
        "✍️"
    } else if chars_eq(k, chars_of("doc_consult").as_slice()) {
        "📚"
    } else {
        "📖"
    }
}

} // verus!
