//! Closed sets of names: goal scopes and statuses, check kinds, loop phases.
//!
//! Each enum has a canonical name per variant, which `as_str` gives and which
//! `parse` reads, ignoring surrounding white space and ASCII case.
use crate::text;
use crate::text::{normalize, same_text};
use vstd::prelude::*;

verus! {

/// How far a goal reaches.
#[derive(Debug, Clone, Copy, PartialEq, Eq, Structural)]
pub enum GoalScope {
    Global,
    Project,
}

impl GoalScope {
    /// The canonical name.
    pub open spec fn name(self) -> Seq<char> {
        match self {
            GoalScope::Global => "global"@,
            GoalScope::Project => "project"@,
        }
    }

    /// The scope with the given canonical name, if there is one.
    pub open spec fn named(name: Seq<char>) -> Option<Self> {
        if name == "global"@ {
            Some(GoalScope::Global)
        } else if name == "project"@ {
            Some(GoalScope::Project)
        } else {
            None
        }
    }

    /// Reads a scope, ignoring surrounding white space and ASCII case.
    pub fn parse(value: &str) -> (scope: Option<Self>)
        ensures
            scope == Self::named(text::normalized(value@)),
    {
        let name = normalize(value);
        if same_text(name.as_str(), "global") {
            Some(GoalScope::Global)
        } else if same_text(name.as_str(), "project") {
            Some(GoalScope::Project)
        } else {
            None
        }
    }

    /// The canonical name.
    pub fn as_str(&self) -> (name: &'static str)
        ensures
            name@ == self.name(),
    {
        match self {
            GoalScope::Global => "global",
            GoalScope::Project => "project",
        }
    }
}

impl Default for GoalScope {
    fn default() -> (scope: Self)
        ensures
            scope == GoalScope::Project,
    {
        GoalScope::Project
    }
}

/// Where a goal stands.
#[derive(Debug, Clone, Copy, PartialEq, Eq, Structural)]
pub enum GoalStatus {
    Draft,
    Active,
    Paused,
    Blocked,
    Completed,
    Archived,
    Abandoned,
}

impl GoalStatus {
    /// The canonical name.
    pub open spec fn name(self) -> Seq<char> {
        match self {
            GoalStatus::Draft => "draft"@,
            GoalStatus::Active => "active"@,
            GoalStatus::Paused => "paused"@,
            GoalStatus::Blocked => "blocked"@,
            GoalStatus::Completed => "completed"@,
            GoalStatus::Archived => "archived"@,
            GoalStatus::Abandoned => "abandoned"@,
        }
    }

    /// The status with the given canonical name, if there is one.
    pub open spec fn named(name: Seq<char>) -> Option<Self> {
        if name == "draft"@ {
            Some(GoalStatus::Draft)
        } else if name == "active"@ {
            Some(GoalStatus::Active)
        } else if name == "paused"@ {
            Some(GoalStatus::Paused)
        } else if name == "blocked"@ {
            Some(GoalStatus::Blocked)
        } else if name == "completed"@ {
            Some(GoalStatus::Completed)
        } else if name == "archived"@ {
            Some(GoalStatus::Archived)
        } else if name == "abandoned"@ {
            Some(GoalStatus::Abandoned)
        } else {
            None
        }
    }

    /// Reads a status, ignoring surrounding white space and ASCII case.
    pub fn parse(value: &str) -> (status: Option<Self>)
        ensures
            status == Self::named(text::normalized(value@)),
    {
        let name = normalize(value);
        if same_text(name.as_str(), "draft") {
            Some(GoalStatus::Draft)
        } else if same_text(name.as_str(), "active") {
            Some(GoalStatus::Active)
        } else if same_text(name.as_str(), "paused") {
            Some(GoalStatus::Paused)
        } else if same_text(name.as_str(), "blocked") {
            Some(GoalStatus::Blocked)
        } else if same_text(name.as_str(), "completed") {
            Some(GoalStatus::Completed)
        } else if same_text(name.as_str(), "archived") {
            Some(GoalStatus::Archived)
        } else if same_text(name.as_str(), "abandoned") {
            Some(GoalStatus::Abandoned)
        } else {
            None
        }
    }

    /// The canonical name.
    pub fn as_str(&self) -> (name: &'static str)
        ensures
            name@ == self.name(),
    {
        match self {
            GoalStatus::Draft => "draft",
            GoalStatus::Active => "active",
            GoalStatus::Paused => "paused",
            GoalStatus::Blocked => "blocked",
            GoalStatus::Completed => "completed",
            GoalStatus::Archived => "archived",
            GoalStatus::Abandoned => "abandoned",
        }
    }

    /// The position at which goals of this status are listed.
    pub open spec fn rank(self) -> u8 {
        match self {
            GoalStatus::Active => 0,
            GoalStatus::Blocked => 1,
            GoalStatus::Draft => 2,
            GoalStatus::Paused => 3,
            GoalStatus::Completed => 4,
            GoalStatus::Archived => 5,
            GoalStatus::Abandoned => 6,
        }
    }

    /// The position at which goals of this status are listed.
    pub fn sort_rank(self) -> (rank: u8)
        ensures
            rank == self.rank(),
    {
        match self {
            GoalStatus::Active => 0,
            GoalStatus::Blocked => 1,
            GoalStatus::Draft => 2,
            GoalStatus::Paused => 3,
            GoalStatus::Completed => 4,
            GoalStatus::Archived => 5,
            GoalStatus::Abandoned => 6,
        }
    }

    /// Whether work on a goal of this status can be taken up again.
    pub fn is_resumable(self) -> (resumable: bool)
        ensures
            resumable == (self is Active || self is Blocked || self is Draft),
    {
        matches!(self, GoalStatus::Active | GoalStatus::Blocked | GoalStatus::Draft)
    }
}

impl Default for GoalStatus {
    fn default() -> (status: Self)
        ensures
            status == GoalStatus::Active,
    {
        GoalStatus::Active
    }
}

/// How a success check is carried out.
#[derive(Debug, Clone, Copy, PartialEq, Eq, Structural)]
pub enum SuccessCheckKind {
    /// A shell command, which passes on exit status zero.
    Shell,
    /// A `cargo test` filter.
    CargoTest,
    /// A pytest selector.
    Pytest,
    /// A jest selector.
    JestTest,
    /// A glob, which passes if nothing matches.
    FileAbsent,
    /// A regex, which passes if no line in the repository matches.
    Regex,
    /// An assertion in natural language, which an agent judges.
    AgentAssertion,
}

impl SuccessCheckKind {
    /// The canonical name.
    pub open spec fn name(self) -> Seq<char> {
        match self {
            SuccessCheckKind::Shell => "shell"@,
            SuccessCheckKind::CargoTest => "cargo_test"@,
            SuccessCheckKind::Pytest => "pytest"@,
            SuccessCheckKind::JestTest => "jest_test"@,
            SuccessCheckKind::FileAbsent => "file_absent"@,
            SuccessCheckKind::Regex => "regex"@,
            SuccessCheckKind::AgentAssertion => "agent_assertion"@,
        }
    }

    /// The kind with the given canonical name, if there is one.
    pub open spec fn named(name: Seq<char>) -> Option<Self> {
        if name == "shell"@ {
            Some(SuccessCheckKind::Shell)
        } else if name == "cargo_test"@ {
            Some(SuccessCheckKind::CargoTest)
        } else if name == "pytest"@ {
            Some(SuccessCheckKind::Pytest)
        } else if name == "jest_test"@ {
            Some(SuccessCheckKind::JestTest)
        } else if name == "file_absent"@ {
            Some(SuccessCheckKind::FileAbsent)
        } else if name == "regex"@ {
            Some(SuccessCheckKind::Regex)
        } else if name == "agent_assertion"@ {
            Some(SuccessCheckKind::AgentAssertion)
        } else {
            None
        }
    }

    /// Reads a kind, ignoring surrounding white space and ASCII case.
    pub fn parse(value: &str) -> (kind: Option<Self>)
        ensures
            kind == Self::named(text::normalized(value@)),
    {
        let name = normalize(value);
        if same_text(name.as_str(), "shell") {
            Some(SuccessCheckKind::Shell)
        } else if same_text(name.as_str(), "cargo_test") {
            Some(SuccessCheckKind::CargoTest)
        } else if same_text(name.as_str(), "pytest") {
            Some(SuccessCheckKind::Pytest)
        } else if same_text(name.as_str(), "jest_test") {
            Some(SuccessCheckKind::JestTest)
        } else if same_text(name.as_str(), "file_absent") {
            Some(SuccessCheckKind::FileAbsent)
        } else if same_text(name.as_str(), "regex") {
            Some(SuccessCheckKind::Regex)
        } else if same_text(name.as_str(), "agent_assertion") {
            Some(SuccessCheckKind::AgentAssertion)
        } else {
            None
        }
    }

    /// The canonical name.
    pub fn as_str(self) -> (name: &'static str)
        ensures
            name@ == self.name(),
    {
        match self {
            SuccessCheckKind::Shell => "shell",
            SuccessCheckKind::CargoTest => "cargo_test",
            SuccessCheckKind::Pytest => "pytest",
            SuccessCheckKind::JestTest => "jest_test",
            SuccessCheckKind::FileAbsent => "file_absent",
            SuccessCheckKind::Regex => "regex",
            SuccessCheckKind::AgentAssertion => "agent_assertion",
        }
    }
}

/// A phase of the goal loop.
#[derive(Debug, Clone, Copy, PartialEq, Eq, Structural)]
pub enum GoalLoopPhase {
    Define,
    Decompose,
    Dispatch,
    Execute,
    Verify,
    Repair,
    Replan,
    Done,
    Aborted,
}

impl GoalLoopPhase {
    /// The canonical name.
    pub open spec fn name(self) -> Seq<char> {
        match self {
            GoalLoopPhase::Define => "define"@,
            GoalLoopPhase::Decompose => "decompose"@,
            GoalLoopPhase::Dispatch => "dispatch"@,
            GoalLoopPhase::Execute => "execute"@,
            GoalLoopPhase::Verify => "verify"@,
            GoalLoopPhase::Repair => "repair"@,
            GoalLoopPhase::Replan => "replan"@,
            GoalLoopPhase::Done => "done"@,
            GoalLoopPhase::Aborted => "aborted"@,
        }
    }

    /// The phase with the given canonical name, if there is one.
    pub open spec fn named(name: Seq<char>) -> Option<Self> {
        if name == "define"@ {
            Some(GoalLoopPhase::Define)
        } else if name == "decompose"@ {
            Some(GoalLoopPhase::Decompose)
        } else if name == "dispatch"@ {
            Some(GoalLoopPhase::Dispatch)
        } else if name == "execute"@ {
            Some(GoalLoopPhase::Execute)
        } else if name == "verify"@ {
            Some(GoalLoopPhase::Verify)
        } else if name == "repair"@ {
            Some(GoalLoopPhase::Repair)
        } else if name == "replan"@ {
            Some(GoalLoopPhase::Replan)
        } else if name == "done"@ {
            Some(GoalLoopPhase::Done)
        } else if name == "aborted"@ {
            Some(GoalLoopPhase::Aborted)
        } else {
            None
        }
    }

    /// Reads a phase, ignoring surrounding white space and ASCII case.
    pub fn parse(value: &str) -> (phase: Option<Self>)
        ensures
            phase == Self::named(text::normalized(value@)),
    {
        let name = normalize(value);
        if same_text(name.as_str(), "define") {
            Some(GoalLoopPhase::Define)
        } else if same_text(name.as_str(), "decompose") {
            Some(GoalLoopPhase::Decompose)
        } else if same_text(name.as_str(), "dispatch") {
            Some(GoalLoopPhase::Dispatch)
        } else if same_text(name.as_str(), "execute") {
            Some(GoalLoopPhase::Execute)
        } else if same_text(name.as_str(), "verify") {
            Some(GoalLoopPhase::Verify)
        } else if same_text(name.as_str(), "repair") {
            Some(GoalLoopPhase::Repair)
        } else if same_text(name.as_str(), "replan") {
            Some(GoalLoopPhase::Replan)
        } else if same_text(name.as_str(), "done") {
            Some(GoalLoopPhase::Done)
        } else if same_text(name.as_str(), "aborted") {
            Some(GoalLoopPhase::Aborted)
        } else {
            None
        }
    }

    /// The canonical name.
    pub fn as_str(self) -> (name: &'static str)
        ensures
            name@ == self.name(),
    {
        match self {
            GoalLoopPhase::Define => "define",
            GoalLoopPhase::Decompose => "decompose",
            GoalLoopPhase::Dispatch => "dispatch",
            GoalLoopPhase::Execute => "execute",
            GoalLoopPhase::Verify => "verify",
            GoalLoopPhase::Repair => "repair",
            GoalLoopPhase::Replan => "replan",
            GoalLoopPhase::Done => "done",
            GoalLoopPhase::Aborted => "aborted",
        }
    }

    /// The loop ends in this phase.
    pub open spec fn terminal(self) -> bool {
        self is Done || self is Aborted
    }

    /// Whether the loop ends in this phase.
    pub fn is_terminal(self) -> (terminal: bool)
        ensures
            terminal == self.terminal(),
    {
        matches!(self, GoalLoopPhase::Done | GoalLoopPhase::Aborted)
    }

}

/// A name made of lower-case ASCII letters and underscores.
pub open spec fn is_plain_name(name: Seq<char>) -> bool {
    &&& name.len() > 0
    &&& forall|i: int|
        0 <= i < name.len() ==> ('a' <= #[trigger] name[i] <= 'z' || name[i] == '_')
}

proof fn lemma_plain_name_is_normalized(name: Seq<char>)
    requires
        is_plain_name(name),
    ensures
        text::normalized(name) == name,
{
    assert(!text::is_white_space(name[0]));
    assert(!text::is_white_space(name[name.len() - 1]));
    assert(text::lowered(name) =~= name);
}

/// Reading a scope's canonical name gives the scope back, and a value reads as that
/// scope exactly if it is its canonical name up to white space and case.
pub proof fn scope_names_round_trip(scope: GoalScope, value: Seq<char>)
    ensures
        GoalScope::named(text::normalized(scope.name())) == Some(scope),
        GoalScope::named(text::normalized(value)) == Some(scope) <==> text::normalized(value)
            == scope.name(),
{
    reveal_strlit("global");
    reveal_strlit("project");
    assert(is_plain_name(scope.name()));
    lemma_plain_name_is_normalized(scope.name());
}

/// Reading a status's canonical name gives the status back, and a value reads as that
/// status exactly if it is its canonical name up to white space and case.
pub proof fn status_names_round_trip(status: GoalStatus, value: Seq<char>)
    ensures
        GoalStatus::named(text::normalized(status.name())) == Some(status),
        GoalStatus::named(text::normalized(value)) == Some(status) <==> text::normalized(value)
            == status.name(),
{
    reveal_strlit("draft");
    reveal_strlit("active");
    reveal_strlit("paused");
    reveal_strlit("blocked");
    reveal_strlit("completed");
    reveal_strlit("archived");
    reveal_strlit("abandoned");
    assert(is_plain_name(status.name()));
    lemma_plain_name_is_normalized(status.name());
}

/// Reading a kind's canonical name gives the kind back, and a value reads as that
/// kind exactly if it is its canonical name up to white space and case.
pub proof fn kind_names_round_trip(kind: SuccessCheckKind, value: Seq<char>)
    ensures
        SuccessCheckKind::named(text::normalized(kind.name())) == Some(kind),
        SuccessCheckKind::named(text::normalized(value)) == Some(kind) <==> text::normalized(value)
            == kind.name(),
{
    reveal_strlit("shell");
    reveal_strlit("cargo_test");
    reveal_strlit("pytest");
    reveal_strlit("jest_test");
    reveal_strlit("file_absent");
    reveal_strlit("regex");
    reveal_strlit("agent_assertion");
    assert(is_plain_name(kind.name()));
    lemma_plain_name_is_normalized(kind.name());
}

/// Reading a phase's canonical name gives the phase back, and a value reads as that
/// phase exactly if it is its canonical name up to white space and case.
pub proof fn phase_names_round_trip(phase: GoalLoopPhase, value: Seq<char>)
    ensures
        GoalLoopPhase::named(text::normalized(phase.name())) == Some(phase),
        GoalLoopPhase::named(text::normalized(value)) == Some(phase) <==> text::normalized(value)
            == phase.name(),
{
    reveal_strlit("define");
    reveal_strlit("decompose");
    reveal_strlit("dispatch");
    reveal_strlit("execute");
    reveal_strlit("verify");
    reveal_strlit("repair");
    reveal_strlit("replan");
    reveal_strlit("done");
    reveal_strlit("aborted");
    assert(is_plain_name(phase.name()));
    lemma_plain_name_is_normalized(phase.name());
}

/// Goals that can be taken up again are listed before all others, and no two
/// statuses are listed at the same position.
pub proof fn resumable_statuses_rank_first(a: GoalStatus, b: GoalStatus)
    ensures
        (a is Active || a is Blocked || a is Draft) && !(b is Active || b is Blocked || b is Draft)
            ==> a.rank() < b.rank(),
        a.rank() == b.rank() ==> a == b,
{
}

} // verus!
