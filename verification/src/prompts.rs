//! What the language models are asked, and what to make of their replies.
use crate::agents::{PlannerError, PlannerErrorView};
use crate::checks::{SuccessCheck, SuccessCheckView, DEFAULT_CHECK_TIMEOUT_MS};
use crate::controller;
use crate::goal::{Goal, GoalView};
use crate::names::SuccessCheckKind;
use crate::plan::{PlanItem, PlanItemView};
use crate::text;
use crate::text::{chars_of, find_in, rfind_in, trim_range};
use vstd::prelude::*;

verus! {

/// Asks for a first plan.
pub const DECOMPOSE_PROMPT: &'static str = r#"You are the planner for a coding agent's goal-driven loop.

Decompose the user's goal into a minimal list of plan items. Each item must be:
- self-contained (a single sub-agent can complete it in one turn),
- ordered or labelled with `blocked_by` if there are dependencies,
- attached to a `success_check` that the verifier can run *automatically*.

Return ONLY a JSON object of the form:

```json
{
  "items": [
    {
      "id": "<slug, e.g. add-middleware>",
      "content": "<short imperative description>",
      "priority": "<high|medium|low>",
      "blocked_by": ["<id>", ...],
      "success_check": {
        "kind": "shell|cargo_test|pytest|jest_test|file_absent|regex|agent_assertion",
        "spec": "<command-or-pattern>",
        "timeout_ms": <number>
      }
    }
  ]
}
```

Constraints:
- Prefer `cargo_test`, `pytest`, or `jest_test` when the goal includes test coverage.
- Use `regex` to enforce "absent from repo" (e.g. ban a deprecated symbol).
- Use `agent_assertion` only when no mechanical check is possible.
- Every spec must be runnable in the project root with no further setup.
- Do not include success_criteria the user did not state.
"#;

/// Asks for a new plan after a failure.
pub const REPLAN_PROMPT: &'static str = r#"You are replanning a goal-driven loop because the verifier rejected progress.

You receive: the original goal, the items that PASSED, and the items that FAILED with their
last verifier detail. Produce a new minimal item list that finishes the goal without
re-doing already-passing work.

Return ONLY a JSON object using the same shape as the decompose prompt:

```json
{ "items": [ ... ] }
```

Rules:
- Do NOT include items that have already passed.
- If a previous item failed because the success_check itself was wrong, propose a corrected
  `success_check` in the new item.
- Keep the new list shorter than the original.
"#;

/// Asks for a verdict on an assertion.
pub const VERIFIER_PROMPT: &'static str = r#"You are the verifier for a goal-driven loop.

You receive an assertion about a repository and the most recent sub-agent's completion report.
Decide whether the assertion is TRUE based on file contents you may inspect through tools (if
any are provided). Respond ONLY with this JSON:

```json
{ "passed": <true|false>, "detail": "<one sentence quoting evidence>" }
```

Never say "passed" unless you can quote concrete evidence.
"#;

/// The priority of an item whose plan names none.
pub fn default_priority() -> (priority: String)
    ensures
        priority@ == "medium"@,
{
    "medium".to_string()
}

/// The trimmed text between the first `fence` in `s` and the next three
/// backticks.
pub open spec fn fenced(s: Seq<char>, fence: Seq<char>) -> Option<Seq<char>> {
    match text::find(s, fence) {
        Some(i) => {
            let after = s.skip(i + fence.len());
            match text::find(after, "```"@) {
                Some(end) => Some(text::trimmed(after.take(end))),
                None => None,
            }
        },
        None => None,
    }
}

/// The text from the first `{` in `s` to the last `}`.
pub open spec fn braced(s: Seq<char>) -> Option<Seq<char>> {
    match (text::find(s, "{"@), text::rfind_char(s, '}')) {
        (Some(first), Some(last)) => if last > first {
            Some(s.subrange(first, last + 1))
        } else {
            None
        },
        _ => None,
    }
}

/// Where a reply holds its JSON: what stands between braces if it starts with
/// one, else what stands between fences, else what stands between braces. A reply
/// that starts with a brace and closes none is taken whole.
pub open spec fn json_block(raw: Seq<char>) -> Option<Seq<char>> {
    let s = text::trimmed(raw);
    if s.len() > 0 && s[0] == '{' {
        match braced(s) {
            Some(object) => Some(object),
            None => Some(s),
        }
    } else if fenced(s, "```json"@) is Some {
        fenced(s, "```json"@)
    } else if fenced(s, "```"@) is Some {
        fenced(s, "```"@)
    } else {
        braced(s)
    }
}

/// Where the text between the first `fence` and the next three backticks begins
/// and ends once trimmed, between `from` and `to`.
fn fenced_range(chars: &Vec<char>, from: usize, to: usize, fence: &str) -> (range: Option<
    (usize, usize),
>)
    requires
        from <= to <= chars.len(),
    ensures
        match (range, fenced(chars@.subrange(from as int, to as int), fence@)) {
            (Some((a, b)), Some(inner)) => from <= a <= b <= to && chars@.subrange(
                a as int,
                b as int,
            ) == inner,
            (None, None) => true,
            _ => false,
        },
{
    let ghost s = chars@.subrange(from as int, to as int);
    let width: usize = chars_of(fence).len();
    let open: usize = match find_in(chars, from, to, fence) {
        Some(at) => at + width,
        None => {
            return None;
        },
    };
    assert(s.skip(open - from) =~= chars@.subrange(open as int, to as int));
    match find_in(chars, open, to, "```") {
        Some(close) => {
            assert(s.skip(open - from).take(close - open) =~= chars@.subrange(
                open as int,
                close as int,
            ));
            Some(trim_range(chars, open, close))
        },
        None => None,
    }
}

/// Where the text from the first `{` to the last `}` begins and ends, between
/// `from` and `to`.
fn braced_range(chars: &Vec<char>, from: usize, to: usize) -> (range: Option<(usize, usize)>)
    requires
        from <= to <= chars.len(),
    ensures
        match (range, braced(chars@.subrange(from as int, to as int))) {
            (Some((a, b)), Some(inner)) => from <= a <= b <= to && chars@.subrange(
                a as int,
                b as int,
            ) == inner,
            (None, None) => true,
            _ => false,
        },
{
    let ghost s = chars@.subrange(from as int, to as int);
    match (find_in(chars, from, to, "{"), rfind_in(chars, from, to, '}')) {
        (Some(first), Some(last)) => {
            if last > first {
                assert(s.subrange(first - from, last + 1 - from) =~= chars@.subrange(
                    first as int,
                    last + 1,
                ));
                Some((first, last + 1))
            } else {
                None
            }
        },
        _ => None,
    }
}

/// Extracts the JSON object from a reply that may be fenced or chatty.
pub fn extract_json(raw: &str) -> (json: Option<&str>)
    ensures
        match (json, json_block(raw@)) {
            (Some(found), Some(block)) => found@ == block,
            (None, None) => true,
            _ => false,
        },
{
    let chars = chars_of(raw);
    let (from, to): (usize, usize) = trim_range(&chars, 0, chars.len());
    assert(chars@.subrange(0, chars.len() as int) =~= raw@);
    if from < to && chars[from] == '{' {
        assert(chars@.subrange(from as int, to as int)[0] == chars@[from as int]);
        return match braced_range(&chars, from, to) {
            Some((a, b)) => Some(raw.substring_char(a, b)),
            None => Some(raw.substring_char(from, to)),
        };
    }
    if let Some((a, b)) = fenced_range(&chars, from, to, "```json") {
        return Some(raw.substring_char(a, b));
    }
    if let Some((a, b)) = fenced_range(&chars, from, to, "```") {
        return Some(raw.substring_char(a, b));
    }
    match braced_range(&chars, from, to) {
        Some((a, b)) => Some(raw.substring_char(a, b)),
        None => None,
    }
}

/// A success check as planners write it.
#[derive(Debug, PartialEq, Eq)]
pub struct SuccessCheckWire {
    pub kind: String,
    pub spec: String,
    pub timeout_ms: Option<u32>,
}

/// The model of a [`SuccessCheckWire`].
pub struct SuccessCheckWireView {
    pub kind: Seq<char>,
    pub spec: Seq<char>,
    pub timeout_ms: Option<u32>,
}

impl View for SuccessCheckWire {
    type V = SuccessCheckWireView;

    open spec fn view(&self) -> SuccessCheckWireView {
        SuccessCheckWireView {
            kind: self.kind@,
            spec: self.spec@,
            timeout_ms: self.timeout_ms,
        }
    }
}

impl DeepView for SuccessCheckWire {
    type V = SuccessCheckWireView;

    open spec fn deep_view(&self) -> SuccessCheckWireView {
        self@
    }
}

/// A plan item as planners write it.
#[derive(Debug, PartialEq, Eq)]
pub struct PlanItemWire {
    pub id: String,
    pub content: String,
    pub priority: String,
    pub blocked_by: Vec<String>,
    pub success_check: Option<SuccessCheckWire>,
    pub subsystem: Option<String>,
    pub file_scope: Vec<String>,
}

/// The model of a [`PlanItemWire`].
pub struct PlanItemWireView {
    pub id: Seq<char>,
    pub content: Seq<char>,
    pub priority: Seq<char>,
    pub blocked_by: Seq<Seq<char>>,
    pub success_check: Option<SuccessCheckWireView>,
    pub subsystem: Option<Seq<char>>,
    pub file_scope: Seq<Seq<char>>,
}

impl View for PlanItemWire {
    type V = PlanItemWireView;

    open spec fn view(&self) -> PlanItemWireView {
        PlanItemWireView {
            id: self.id@,
            content: self.content@,
            priority: self.priority@,
            blocked_by: self.blocked_by.deep_view(),
            success_check: self.success_check.deep_view(),
            subsystem: self.subsystem.deep_view(),
            file_scope: self.file_scope.deep_view(),
        }
    }
}

impl DeepView for PlanItemWire {
    type V = PlanItemWireView;

    open spec fn deep_view(&self) -> PlanItemWireView {
        self@
    }
}

/// A plan as planners write it.
#[derive(Debug, PartialEq, Eq)]
pub struct PlanWire {
    pub items: Vec<PlanItemWire>,
}

/// What was read of a planner's JSON: the items, or what is wrong with it.
pub open spec fn decoded_items(decoded: Result<PlanWire, String>) -> Result<
    Seq<PlanItemWireView>,
    Seq<char>,
> {
    match decoded {
        Ok(wire) => Ok(wire.items.deep_view()),
        Err(problem) => Err(problem@),
    }
}

/// The check that a planner meant. A check without a timeout gets the default
/// one.
pub open spec fn check_meant(wire: SuccessCheckWireView) -> Result<
    SuccessCheckView,
    PlannerErrorView,
> {
    match SuccessCheckKind::named(text::normalized(wire.kind)) {
        Some(kind) => Ok(
            SuccessCheckView {
                kind,
                spec: wire.spec,
                timeout_ms: match wire.timeout_ms {
                    Some(timeout_ms) => timeout_ms,
                    None => DEFAULT_CHECK_TIMEOUT_MS,
                },
            },
        ),
        None => Err(
            PlannerErrorView::InvalidJson("unknown success_check kind `"@ + wire.kind + "`"@),
        ),
    }
}

/// A queued item with the given check.
pub open spec fn queued(
    wire: PlanItemWireView,
    success_check: Option<SuccessCheckView>,
) -> PlanItemView {
    PlanItemView {
        content: wire.content,
        status: "queued"@,
        priority: wire.priority,
        id: wire.id,
        subsystem: wire.subsystem,
        file_scope: wire.file_scope,
        blocked_by: wire.blocked_by,
        assigned_to: None,
        success_check,
    }
}

/// The item that a planner meant.
pub open spec fn item_meant(wire: PlanItemWireView) -> Result<PlanItemView, PlannerErrorView> {
    match wire.success_check {
        None => Ok(queued(wire, None)),
        Some(check) => match check_meant(check) {
            Ok(check) => Ok(queued(wire, Some(check))),
            Err(error) => Err(error),
        },
    }
}

/// The items that a planner meant, or the first error among them.
pub open spec fn items_meant(wires: Seq<PlanItemWireView>) -> Result<
    Seq<PlanItemView>,
    PlannerErrorView,
>
    decreases wires.len(),
{
    if wires.len() == 0 {
        Ok(Seq::empty())
    } else {
        match items_meant(wires.drop_last()) {
            Err(error) => Err(error),
            Ok(items) => match item_meant(wires.last()) {
                Err(error) => Err(error),
                Ok(item) => Ok(items.push(item)),
            },
        }
    }
}

/// The plan that a planner meant. A plan without items is none.
pub open spec fn plan_meant(decoded: Result<Seq<PlanItemWireView>, Seq<char>>) -> Result<
    Seq<PlanItemView>,
    PlannerErrorView,
> {
    match decoded {
        Err(problem) => Err(PlannerErrorView::InvalidJson(problem)),
        Ok(wires) => if wires.len() == 0 {
            Err(PlannerErrorView::Empty)
        } else {
            items_meant(wires)
        },
    }
}

/// The item that a planner meant.
fn item_from_wire(wire: PlanItemWire) -> (item: Result<PlanItem, PlannerError>)
    ensures
        match item {
            Ok(item) => item_meant(wire@) == Ok::<PlanItemView, PlannerErrorView>(item@),
            Err(error) => item_meant(wire@) == Err::<PlanItemView, PlannerErrorView>(error@),
        },
{
    let success_check = match wire.success_check {
        Some(check) => {
            match SuccessCheckKind::parse(check.kind.as_str()) {
                Some(kind) => Some(
                    SuccessCheck {
                        kind,
                        spec: check.spec,
                        timeout_ms: match check.timeout_ms {
                            Some(timeout_ms) => timeout_ms,
                            None => DEFAULT_CHECK_TIMEOUT_MS,
                        },
                    },
                ),
                None => {
                    let mut problem = "unknown success_check kind `".to_string();
                    problem.append(check.kind.as_str());
                    problem.append("`");
                    return Err(PlannerError::InvalidJson(problem));
                },
            }
        },
        None => None,
    };
    Ok(
        PlanItem {
            content: wire.content,
            status: "queued".to_string(),
            priority: wire.priority,
            id: wire.id,
            subsystem: wire.subsystem,
            file_scope: wire.file_scope,
            blocked_by: wire.blocked_by,
            assigned_to: None,
            success_check,
        },
    )
}

/// The first items suffice to tell the first error.
proof fn lemma_first_error_counts(wires: Seq<PlanItemWireView>, k: int)
    requires
        0 <= k <= wires.len(),
        items_meant(wires.take(k)) is Err,
    ensures
        items_meant(wires) == items_meant(wires.take(k)),
    decreases wires.len() - k,
{
    if k < wires.len() {
        assert(wires.take(k + 1).drop_last() =~= wires.take(k));
        lemma_first_error_counts(wires, k + 1);
    } else {
        assert(wires.take(k) =~= wires);
    }
}

/// The plan that a planner meant, given what was read of its JSON.
pub fn plan_from_wire(decoded: Result<PlanWire, String>) -> (plan: Result<
    Vec<PlanItem>,
    PlannerError,
>)
    ensures
        controller::plan_told(plan) == plan_meant(decoded_items(decoded)),
{
    let wire = match decoded {
        Ok(wire) => wire,
        Err(problem) => {
            return Err(PlannerError::InvalidJson(problem));
        },
    };
    if wire.items.is_empty() {
        return Err(PlannerError::Empty);
    }
    let ghost wires = wire.items.deep_view();
    let mut items: Vec<PlanItem> = Vec::new();
    assert(items.deep_view() =~= Seq::empty());
    assert(wires.take(0) =~= Seq::empty());
    for w in it: wire.items
        invariant
            it.seq() == wire.items@,
            wires == wire.items.deep_view(),
            wires.len() > 0,
            decoded_items(decoded) == Ok::<Seq<PlanItemWireView>, Seq<char>>(wires),
            items_meant(wires.take(it.index())) == Ok::<Seq<PlanItemView>, PlannerErrorView>(
                items.deep_view(),
            ),
    {
        let ghost before = items.deep_view();
        proof {
            assert(wires.take(it.index() + 1).drop_last() =~= wires.take(it.index()));
            assert(wires.take(it.index() + 1).last() == w@);
        }
        match item_from_wire(w) {
            Ok(item) => {
                items.push(item);
                assert(items.deep_view() =~= before.push(item@));
            },
            Err(error) => {
                proof {
                    lemma_first_error_counts(wires, it.index() + 1);
                }
                return Err(error);
            },
        }
    }
    assert(wires.take(wires.len() as int) =~= wires);
    Ok(items)
}

/// What was read of a reply's JSON, with the reply in front of what is wrong with
/// it.
pub open spec fn quoting(
    raw: Seq<char>,
    decoded: Result<Seq<PlanItemWireView>, Seq<char>>,
) -> Result<Seq<PlanItemWireView>, Seq<char>> {
    match decoded {
        Ok(wires) => Ok(wires),
        Err(problem) => Err(raw + "\nparser error: "@ + problem),
    }
}

/// A planner's reply reads as the given plan, with `decode` to read its JSON. An
/// error about the JSON quotes the reply.
pub open spec fn reads_as<F: FnOnce(&str) -> Result<PlanWire, String>>(
    raw: Seq<char>,
    decode: F,
    plan: Result<Seq<PlanItemView>, PlannerErrorView>,
) -> bool {
    match json_block(raw) {
        None => plan == Err::<Seq<PlanItemView>, PlannerErrorView>(
            PlannerErrorView::InvalidJson(raw),
        ),
        Some(block) => exists|json: &str, decoded: Result<PlanWire, String>|
            json@ == block && #[trigger] call_ensures(decode, (json,), decoded) && plan
                == plan_meant(quoting(raw, decoded_items(decoded))),
    }
}

/// Reads a planner's reply. `decode` reads its JSON, and tells what is wrong with
/// it if it is no plan. The error then holds the reply and that, so that the
/// planner can be asked again with both.
pub fn parse_plan_items<F: FnOnce(&str) -> Result<PlanWire, String>>(
    raw: &str,
    decode: F,
) -> (plan: Result<Vec<PlanItem>, PlannerError>)
    requires
        forall|json: &str| #[trigger] call_requires(decode, (json,)),
    ensures
        reads_as(raw@, decode, controller::plan_told(plan)),
{
    match extract_json(raw) {
        None => Err(PlannerError::InvalidJson(raw.to_string())),
        Some(json) => {
            let decoded = decode(json);
            match decoded {
                Ok(wire) => plan_from_wire(Ok(wire)),
                Err(problem) => {
                    let mut quoted = raw.to_string();
                    quoted.append("\nparser error: ");
                    quoted.append(problem.as_str());
                    Err(PlannerError::InvalidJson(quoted))
                },
            }
        },
    }
}

/// The given lines, each as an item of a list.
pub open spec fn bullets(lines: Seq<Seq<char>>) -> Seq<char>
    decreases lines.len(),
{
    if lines.len() == 0 {
        Seq::empty()
    } else {
        bullets(lines.drop_last()) + "- "@ + lines.last() + "\n"@
    }
}

/// A goal as planners are told it.
pub open spec fn goal_told(goal: GoalView) -> Seq<char> {
    let title = "GOAL: "@ + goal.title + "\n"@;
    let why = if goal.why.len() == 0 {
        Seq::empty()
    } else {
        "WHY: "@ + goal.why + "\n"@
    };
    let criteria = if goal.success_criteria.len() == 0 {
        Seq::empty()
    } else {
        "SUCCESS CRITERIA:\n"@ + bullets(goal.success_criteria)
    };
    title + why + criteria
}

/// A plan item in one line.
pub open spec fn item_line(item: PlanItemView) -> Seq<char> {
    "["@ + item.id + "] "@ + item.content
}

/// Plan items as planners are told them.
pub open spec fn items_told(items: Seq<PlanItemView>) -> Seq<char> {
    if items.len() == 0 {
        "(none)\n"@
    } else {
        bullets(items.map_values(|item: PlanItemView| item_line(item)))
    }
}

/// A goal and what came of its last plan, as planners are told them.
pub open spec fn failure_told(
    goal: GoalView,
    completed: Seq<PlanItemView>,
    failed: Seq<PlanItemView>,
) -> Seq<char> {
    goal_told(goal) + "\nCOMPLETED ITEMS:\n"@ + items_told(completed) + "\nFAILED ITEMS:\n"@
        + items_told(failed)
}

/// Adds the given lines as items of a list.
fn add_bullets(out: &mut String, lines: &Vec<String>)
    ensures
        final(out)@ == old(out)@ + bullets(lines.deep_view()),
{
    let ghost before = out@;
    let ghost all = lines.deep_view();
    let mut i: usize = 0;
    assert(before + bullets(all.take(0)) =~= before);
    while i < lines.len()
        invariant
            i <= lines.len(),
            all == lines.deep_view(),
            out@ == before + bullets(all.take(i as int)),
        decreases lines.len() - i,
    {
        out.append("- ");
        out.append(lines[i].as_str());
        out.append("\n");
        proof {
            assert(all.take(i + 1).drop_last() =~= all.take(i as int));
            assert(out@ =~= before + bullets(all.take(i + 1)));
        }
        i += 1;
    }
    assert(all.take(i as int) =~= all);
}

/// Tells a planner of a goal.
pub fn render_goal_for_decompose(goal: &Goal) -> (message: String)
    ensures
        message@ == goal_told(goal@),
{
    let mut out = "GOAL: ".to_string();
    out.append(goal.title.as_str());
    out.append("\n");
    if !goal.why.as_str().is_empty() {
        out.append("WHY: ");
        out.append(goal.why.as_str());
        out.append("\n");
    }
    if goal.success_criteria.len() > 0 {
        out.append("SUCCESS CRITERIA:\n");
        add_bullets(&mut out, &goal.success_criteria);
    }
    assert(out@ =~= goal_told(goal@));
    out
}

/// Adds plan items.
fn add_items(out: &mut String, items: &Vec<PlanItem>)
    ensures
        final(out)@ == old(out)@ + items_told(items.deep_view()),
{
    if items.is_empty() {
        out.append("(none)\n");
        return;
    }
    let mut lines: Vec<String> = Vec::new();
    let mut i: usize = 0;
    while i < items.len()
        invariant
            i <= items.len(),
            lines@.len() == i,
            forall|k: int| 0 <= k < i ==> (#[trigger] lines@[k])@ == item_line(items@[k]@),
        decreases items.len() - i,
    {
        let mut line = "[".to_string();
        line.append(items[i].id.as_str());
        line.append("] ");
        line.append(items[i].content.as_str());
        lines.push(line);
        i += 1;
    }
    proof {
        assert(lines.deep_view() =~= items.deep_view().map_values(
            |item: PlanItemView| item_line(item),
        ));
    }
    add_bullets(out, &lines);
}

/// Tells a planner of a goal and of what came of its last plan.
pub fn render_goal_for_replan(
    goal: &Goal,
    completed: &Vec<PlanItem>,
    failed: &Vec<PlanItem>,
) -> (message: String)
    ensures
        message@ == failure_told(goal@, completed.deep_view(), failed.deep_view()),
{
    let mut out = render_goal_for_decompose(goal);
    out.append("\nCOMPLETED ITEMS:\n");
    add_items(&mut out, completed);
    out.append("\nFAILED ITEMS:\n");
    add_items(&mut out, failed);
    out
}

/// A request for a plan that is put to a language model, again if need be.
#[derive(Debug, PartialEq, Eq)]
pub struct PlanRequest {
    /// What the model is told to do.
    pub prompt: String,
    /// What it is told of the goal.
    pub message: String,
    /// How often the request may still be put.
    pub tries_left: u8,
}

/// How often a first plan is asked for.
pub const DECOMPOSE_TRIES: u8 = 2;

/// How often a new plan is asked for.
pub const REPLAN_TRIES: u8 = 1;

/// What a try amounts to: a plan settles the request, an error only if no try is
/// left.
pub open spec fn settled(
    plan: Result<Seq<PlanItemView>, PlannerErrorView>,
    tries_left: int,
) -> Option<Result<Seq<PlanItemView>, PlannerErrorView>> {
    if plan is Ok || tries_left <= 0 {
        Some(plan)
    } else {
        None
    }
}

/// What a try amounted to.
pub open spec fn verdict_told(verdict: Option<Result<Vec<PlanItem>, PlannerError>>) -> Option<
    Result<Seq<PlanItemView>, PlannerErrorView>,
> {
    match verdict {
        Some(plan) => Some(controller::plan_told(plan)),
        None => None,
    }
}

impl PlanRequest {
    /// Asks for a first plan.
    pub fn decompose(goal: &Goal) -> (request: Self)
        ensures
            request.prompt@ == DECOMPOSE_PROMPT@,
            request.message@ == goal_told(goal@),
            request.tries_left == DECOMPOSE_TRIES,
    {
        PlanRequest {
            prompt: DECOMPOSE_PROMPT.to_string(),
            message: render_goal_for_decompose(goal),
            tries_left: DECOMPOSE_TRIES,
        }
    }

    /// Asks for a new plan.
    pub fn replan(goal: &Goal, completed: &Vec<PlanItem>, failed: &Vec<PlanItem>) -> (request: Self)
        ensures
            request.prompt@ == REPLAN_PROMPT@,
            request.message@ == failure_told(goal@, completed.deep_view(), failed.deep_view()),
            request.tries_left == REPLAN_TRIES,
    {
        PlanRequest {
            prompt: REPLAN_PROMPT.to_string(),
            message: render_goal_for_replan(goal, completed, failed),
            tries_left: REPLAN_TRIES,
        }
    }

    /// Takes what was read of a reply. Returns the planner's answer, or `None` if
    /// the request is to be put once more.
    pub fn settle(&mut self, plan: Result<Vec<PlanItem>, PlannerError>) -> (verdict: Option<
        Result<Vec<PlanItem>, PlannerError>,
    >)
        requires
            old(self).tries_left > 0,
        ensures
            final(self).prompt == old(self).prompt,
            final(self).message == old(self).message,
            final(self).tries_left == old(self).tries_left - 1,
            verdict_told(verdict) == settled(
                controller::plan_told(plan),
                final(self).tries_left as int,
            ),
    {
        self.tries_left = self.tries_left - 1;
        if plan.is_ok() || self.tries_left == 0 {
            Some(plan)
        } else {
            None
        }
    }

    /// Takes the model's reply, or what went wrong on the way to it. A request
    /// that did not get through is not put again.
    pub fn received<F: FnOnce(&str) -> Result<PlanWire, String>>(
        &mut self,
        reply: Result<String, String>,
        decode: F,
    ) -> (verdict: Option<Result<Vec<PlanItem>, PlannerError>>)
        requires
            old(self).tries_left > 0,
            forall|json: &str| #[trigger] call_requires(decode, (json,)),
        ensures
            final(self).prompt == old(self).prompt,
            final(self).message == old(self).message,
            final(self).tries_left == old(self).tries_left - 1,
            match reply {
                Err(problem) => verdict_told(verdict) == Some(
                    Err::<Seq<PlanItemView>, PlannerErrorView>(PlannerErrorView::Other(problem@)),
                ),
                Ok(raw) => exists|plan: Result<Seq<PlanItemView>, PlannerErrorView>|
                    #[trigger] reads_as(raw@, decode, plan) && verdict_told(verdict) == settled(
                        plan,
                        final(self).tries_left as int,
                    ),
            },
    {
        match reply {
            Err(problem) => {
                self.tries_left = self.tries_left - 1;
                Some(Err(PlannerError::Other(problem)))
            },
            Ok(raw) => {
                let plan = parse_plan_items(raw.as_str(), decode);
                self.settle(plan)
            },
        }
    }
}

proof fn lemma_fenced_stands_in(s: Seq<char>, fence: Seq<char>)
    ensures
        fenced(s, fence) matches Some(inner) ==> text::stands_in(inner, s),
{
    text::lemma_find(s, fence);
    if let Some(i) = text::find(s, fence) {
        let after = s.skip(i + fence.len());
        text::lemma_find(after, "```"@);
        if let Some(end) = text::find(after, "```"@) {
            text::lemma_trimmed_stands_in(after.take(end));
            text::lemma_subrange_stands_in(after, 0, end);
            assert(after.subrange(0, end) =~= after.take(end));
            text::lemma_subrange_stands_in(s, i + fence.len(), s.len() as int);
            assert(s.subrange(i + fence.len(), s.len() as int) =~= after);
            text::lemma_parts_nest(text::trimmed(after.take(end)), after.take(end), after);
            text::lemma_parts_nest(text::trimmed(after.take(end)), after, s);
        }
    }
}

proof fn lemma_braced(s: Seq<char>)
    ensures
        braced(s) matches Some(inner) ==> {
            &&& text::stands_in(inner, s)
            &&& inner.len() > 1 && inner[0] == '{' && inner.last() == '}'
        },
        s.len() > 0 && s[0] == '{' ==> text::find(s, "{"@) == Some(0int),
        s.len() > 1 && s[0] == '{' && s.last() == '}' ==> braced(s) == Some(s),
{
    reveal_strlit("{");
    text::lemma_find(s, "{"@);
    text::lemma_rfind_char(s, '}');
    if let Some(inner) = braced(s) {
        let first = text::find(s, "{"@)->0;
        let last = text::rfind_char(s, '}')->0;
        text::lemma_subrange_stands_in(s, first, last + 1);
        assert(s.subrange(first, first + 1)[0] == "{"@[0]);
    }
    if s.len() > 0 && s[0] == '{' {
        assert(s.subrange(0, 1) =~= "{"@);
        assert(text::occurs_at(s, "{"@, 0));
        if s.len() > 1 && s.last() == '}' {
            assert(s.subrange(0, s.len() as int) =~= s);
        }
    }
}

/// The JSON of a reply stands in the reply as it is, without white space at
/// either end. From a reply that starts with an object, whatever prose follows is
/// cut off, and a reply that is nothing but an object is taken whole: so
/// extracting once more changes nothing about an object.
pub proof fn extracted_json_stands_in_the_reply(raw: Seq<char>)
    ensures
        json_block(raw) matches Some(json) ==> {
            &&& text::stands_in(json, raw)
            &&& text::trimmed(json) == json
            &&& json.len() > 1 && json[0] == '{' && json.last() == '}' ==> json_block(json) == Some(
                json,
            )
        },
        ({
            let s = text::trimmed(raw);
            &&& s.len() > 1 && s[0] == '{' && s.last() == '}' ==> json_block(raw) == Some(s)
            &&& s.len() > 0 && s[0] == '{' && s.contains('}') ==> {
                &&& json_block(raw) matches Some(json)
                &&& json.len() > 1
                &&& json == s.take(json.len() as int)
                &&& json.last() == '}'
                &&& !s.skip(json.len() as int).contains('}')
            }
        }),
{
    let s = text::trimmed(raw);
    text::trimming_is_stable(raw);
    text::lemma_trimmed_stands_in(raw);
    lemma_braced(s);
    text::lemma_rfind_char(s, '}');
    if s.len() > 0 && s[0] == '{' && s.contains('}') {
        let last = text::rfind_char(s, '}')->0;
        assert(braced(s) == Some(s.subrange(0, last + 1)));
        assert(s.subrange(0, last + 1) =~= s.take(last + 1));
        let rest = s.skip(last + 1);
        assert forall|k: int| 0 <= k < rest.len() implies #[trigger] rest[k] != '}' by {
            assert(rest[k] == s[last + 1 + k]);
        }
    }
    if let Some(json) = json_block(raw) {
        lemma_braced(json);
        if s.len() > 0 && s[0] == '{' {
            if braced(s) is Some {
                text::lemma_parts_nest(json, s, raw);
            }
        } else if fenced(s, "```json"@) is Some || fenced(s, "```"@) is Some {
            let fence = if fenced(s, "```json"@) is Some {
                "```json"@
            } else {
                "```"@
            };
            lemma_fenced_stands_in(s, fence);
            text::lemma_parts_nest(json, s, raw);
            let i = text::find(s, fence)->0;
            let after = s.skip(i + fence.len());
            let end = text::find(after, "```"@)->0;
            text::trimming_is_stable(after.take(end));
        } else {
            text::lemma_parts_nest(json, s, raw);
        }
    }
}

/// A plan is accepted exactly if it has items and the kind of every check in it
/// is known. Then it holds the items in their order, each with its own contents,
/// queued and assigned to nobody.
pub proof fn plans_keep_their_items(wires: Seq<PlanItemWireView>)
    ensures
        plan_meant(Ok(wires)) is Ok <==> wires.len() > 0 && forall|i: int|
            0 <= i < wires.len() ==> ((#[trigger] wires[i]).success_check matches Some(check)
                ==> SuccessCheckKind::named(text::normalized(check.kind)) is Some),
        plan_meant(Ok(wires)) matches Ok(items) ==> items.len() == wires.len() && forall|i: int|
            0 <= i < wires.len() ==> {
                &&& (#[trigger] items[i]) == queued(wires[i], items[i].success_check)
                &&& items[i].success_check is Some <==> wires[i].success_check is Some
                &&& wires[i].success_check matches Some(check) ==> {
                    &&& check_meant(check) is Ok
                    &&& items[i].success_check == Some(check_meant(check)->Ok_0)
                }
            },
    decreases wires.len(),
{
    if wires.len() > 0 {
        let rest = wires.drop_last();
        plans_keep_their_items(rest);
        assert(rest.len() == 0 ==> items_meant(rest) == Ok::<Seq<PlanItemView>, PlannerErrorView>(
            Seq::empty(),
        ));
        let last = wires.len() - 1;
        if forall|i: int|
            0 <= i < wires.len() ==> ((#[trigger] wires[i]).success_check matches Some(check)
                ==> SuccessCheckKind::named(text::normalized(check.kind)) is Some) {
            assert forall|i: int| 0 <= i < rest.len() implies ((
            #[trigger] rest[i]).success_check matches Some(check) ==> SuccessCheckKind::named(
                text::normalized(check.kind),
            ) is Some) by {
                assert(rest[i] == wires[i]);
            }
            assert(wires[last] == wires.last());
        }
        if let Ok(items) = plan_meant(Ok(wires)) {
            let front = items_meant(rest)->Ok_0;
            assert(items == front.push(item_meant(wires.last())->Ok_0));
            assert forall|i: int| 0 <= i < wires.len() implies {
                &&& (#[trigger] items[i]) == queued(wires[i], items[i].success_check)
                &&& items[i].success_check is Some <==> wires[i].success_check is Some
                &&& wires[i].success_check matches Some(check) ==> {
                    &&& check_meant(check) is Ok
                    &&& items[i].success_check == Some(check_meant(check)->Ok_0)
                }
            } by {
                if i < last {
                    assert(items[i] == front[i]);
                    assert(rest[i] == wires[i]);
                }
            }
            assert forall|i: int| 0 <= i < wires.len() implies ((
            #[trigger] wires[i]).success_check matches Some(check) ==> SuccessCheckKind::named(
                text::normalized(check.kind),
            ) is Some) by {
                if i < last {
                    assert(rest[i] == wires[i]);
                }
            }
        }
    }
}

} // verus!
