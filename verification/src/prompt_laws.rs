//! What planners are told, and what is made of their replies, whatever they hold.
use crate::agents::{PlannerError, PlannerErrorView};
use crate::checks::SuccessCheckView;
use crate::controller;
use crate::goal::GoalView;
use crate::names::SuccessCheckKind;
use crate::plan::{PlanItem, PlanItemView};
use crate::prompts;
use crate::prompts::{PlanItemWireView, PlanWire, SuccessCheckWireView};
use crate::text;
use crate::text_laws;
use vstd::prelude::*;

verus! {

/// What stands between the first fence and the next three backticks is taken.
proof fn lemma_fenced(pre: Seq<char>, fence: Seq<char>, body: Seq<char>, post: Seq<char>)
    requires
        forall|k: int|
            0 <= k < pre.len() ==> !#[trigger] text::occurs_at(
                pre + fence + body + "```"@ + post,
                fence,
                k,
            ),
        forall|k: int|
            0 <= k < body.len() ==> !#[trigger] text::occurs_at(body + "```"@ + post, "```"@, k),
    ensures
        prompts::fenced(pre + fence + body + "```"@ + post, fence) == Some(text::trimmed(body)),
{
    let s = pre + fence + body + "```"@ + post;
    let rest = body + "```"@ + post;
    assert(s =~= pre + fence + rest);
    text_laws::the_first_place_is_found(pre, fence, rest);
    assert(s.skip(pre.len() as int + fence.len()) =~= rest);
    text_laws::the_first_place_is_found(body, "```"@, post);
    assert(rest.take(body.len() as int) =~= body);
}

/// From a reply that does not start with a brace, what stands between a fence that
/// is marked as JSON and the next three backticks is extracted: all of it, but for
/// the white space around it. So an object that is put between fences comes out
/// whole.
pub proof fn fenced_json_comes_out_whole(
    raw: Seq<char>,
    pre: Seq<char>,
    body: Seq<char>,
    post: Seq<char>,
)
    requires
        text::trimmed(raw) == pre + "```json"@ + body + "```"@ + post,
        pre.len() > 0 ==> pre[0] != '{',
        forall|k: int|
            0 <= k < pre.len() ==> !#[trigger] text::occurs_at(text::trimmed(raw), "```json"@, k),
        forall|k: int|
            0 <= k < body.len() ==> !#[trigger] text::occurs_at(body + "```"@ + post, "```"@, k),
    ensures
        prompts::json_block(raw) == Some(text::trimmed(body)),
{
    reveal_strlit("```json");
    let s = text::trimmed(raw);
    if pre.len() == 0 {
        assert(s[0] == "```json"@[0]);
    } else {
        assert(s[0] == pre[0]);
    }
    lemma_fenced(pre, "```json"@, body, post);
}

/// Without a closed fence that is marked as JSON, what stands between the first
/// three backticks and the next is extracted, but for the white space around it.
pub proof fn fenced_text_comes_out_whole(
    raw: Seq<char>,
    pre: Seq<char>,
    body: Seq<char>,
    post: Seq<char>,
)
    requires
        text::trimmed(raw) == pre + "```"@ + body + "```"@ + post,
        pre.len() > 0 ==> pre[0] != '{',
        forall|j: int, k: int|
            #[trigger] text::occurs_at(text::trimmed(raw), "```json"@, j)
                && #[trigger] text::occurs_at(text::trimmed(raw), "```"@, k) ==> k < j + 7,
        forall|k: int|
            0 <= k < pre.len() ==> !#[trigger] text::occurs_at(text::trimmed(raw), "```"@, k),
        forall|k: int|
            0 <= k < body.len() ==> !#[trigger] text::occurs_at(body + "```"@ + post, "```"@, k),
    ensures
        prompts::json_block(raw) == Some(text::trimmed(body)),
{
    reveal_strlit("```");
    let s = text::trimmed(raw);
    if pre.len() == 0 {
        assert(s[0] == "```"@[0]);
    } else {
        assert(s[0] == pre[0]);
    }
    reveal_strlit("```json");
    lemma_fence_is_open(s, "```json"@);
    lemma_fenced(pre, "```"@, body, post);
}

/// A fence that no three backticks follow fences nothing.
proof fn lemma_fence_is_open(s: Seq<char>, fence: Seq<char>)
    requires
        forall|j: int, k: int|
            #[trigger] text::occurs_at(s, fence, j) && #[trigger] text::occurs_at(s, "```"@, k)
                ==> k < j + fence.len(),
    ensures
        prompts::fenced(s, fence) is None,
{
    text::lemma_find(s, fence);
    if let Some(i) = text::find(s, fence) {
        let after = s.skip(i + fence.len());
        text::lemma_find(after, "```"@);
        if let Some(end) = text::find(after, "```"@) {
            let k = i + fence.len() + end;
            assert(s.subrange(k, k + "```"@.len()) =~= after.subrange(end, end + "```"@.len()));
            assert(text::occurs_at(s, "```"@, k));
        }
    }
}

proof fn lemma_json_fence_is_a_fence(s: Seq<char>, j: int)
    requires
        text::occurs_at(s, "```json"@, j),
    ensures
        text::occurs_at(s, "```"@, j),
{
    reveal_strlit("```json");
    reveal_strlit("```");
    let there = s.subrange(j, j + 7);
    assert(there == "```json"@);
    assert(s.subrange(j, j + 3) =~= there.subrange(0, 3));
    assert(there.subrange(0, 3) =~= "```"@);
}

/// From a reply that starts with a brace, all up to its last closing brace is
/// extracted: the prose after an object is cut off, and nothing of the object.
pub proof fn leading_objects_come_out_whole(raw: Seq<char>, inner: Seq<char>, post: Seq<char>)
    requires
        text::trimmed(raw) == "{"@ + inner + "}"@ + post,
        !post.contains('}'),
    ensures
        prompts::json_block(raw) == Some("{"@ + inner + "}"@),
{
    lemma_braced(Seq::empty(), inner, post);
    reveal_strlit("{");
    let s = text::trimmed(raw);
    assert(s =~= Seq::<char>::empty() + "{"@ + inner + "}"@ + post);
    assert(s[0] == "{"@[0]);
}

/// From a reply without closed fences, all from its first opening brace to its last
/// closing brace is extracted.
pub proof fn objects_in_prose_come_out_whole(
    raw: Seq<char>,
    pre: Seq<char>,
    inner: Seq<char>,
    post: Seq<char>,
)
    requires
        text::trimmed(raw) == pre + "{"@ + inner + "}"@ + post,
        !pre.contains('{'),
        !post.contains('}'),
        forall|j: int, k: int|
            #[trigger] text::occurs_at(text::trimmed(raw), "```"@, j)
                && #[trigger] text::occurs_at(text::trimmed(raw), "```"@, k) ==> k < j + 3,
    ensures
        prompts::json_block(raw) == Some("{"@ + inner + "}"@),
{
    let s = text::trimmed(raw);
    lemma_braced(pre, inner, post);
    lemma_no_fences(s);
}

/// A reply without closed fences and without an opening or without a closing brace
/// holds no JSON, unless it starts with a brace: then it is taken whole.
pub proof fn replies_without_objects_hold_none(raw: Seq<char>)
    requires
        !text::trimmed(raw).contains('{') || !text::trimmed(raw).contains('}'),
        forall|j: int, k: int|
            #[trigger] text::occurs_at(text::trimmed(raw), "```"@, j)
                && #[trigger] text::occurs_at(text::trimmed(raw), "```"@, k) ==> k < j + 3,
    ensures
        ({
            let s = text::trimmed(raw);
            prompts::json_block(raw) == if s.len() > 0 && s[0] == '{' {
                Some(s)
            } else {
                None::<Seq<char>>
            }
        }),
{
    let s = text::trimmed(raw);
    reveal_strlit("{");
    lemma_no_fences(s);
    text::lemma_find(s, "{"@);
    text::lemma_rfind_char(s, '}');
    if let Some(i) = text::find(s, "{"@) {
        assert(s.subrange(i, i + 1)[0] == "{"@[0]);
        assert(s.contains(s[i]));
    }
    if let Some(i) = text::rfind_char(s, '}') {
        assert(s.contains(s[i]));
    }
}

proof fn lemma_no_fences(s: Seq<char>)
    requires
        forall|j: int, k: int|
            #[trigger] text::occurs_at(s, "```"@, j) && #[trigger] text::occurs_at(s, "```"@, k)
                ==> k < j + 3,
    ensures
        prompts::fenced(s, "```json"@) is None,
        prompts::fenced(s, "```"@) is None,
{
    reveal_strlit("```json");
    reveal_strlit("```");
    assert forall|j: int, k: int|
        #[trigger] text::occurs_at(s, "```json"@, j) && #[trigger] text::occurs_at(s, "```"@, k)
            implies k < j + "```json"@.len() by {
        lemma_json_fence_is_a_fence(s, j);
    }
    lemma_fence_is_open(s, "```json"@);
    lemma_fence_is_open(s, "```"@);
}

proof fn lemma_braced(pre: Seq<char>, inner: Seq<char>, post: Seq<char>)
    requires
        !pre.contains('{'),
        !post.contains('}'),
    ensures
        prompts::braced(pre + "{"@ + inner + "}"@ + post) == Some("{"@ + inner + "}"@),
{
    reveal_strlit("{");
    reveal_strlit("}");
    let s = pre + "{"@ + inner + "}"@ + post;
    let rest = inner + "}"@ + post;
    assert(s =~= pre + "{"@ + rest);
    assert forall|k: int| 0 <= k < pre.len() implies !#[trigger] text::occurs_at(
        pre + "{"@ + rest,
        "{"@,
        k,
    ) by {
        if text::occurs_at(s, "{"@, k) {
            assert(s.subrange(k, k + 1)[0] == "{"@[0]);
            assert(s[k] == pre[k]);
            assert(pre.contains(pre[k]));
        }
    }
    text_laws::the_first_place_is_found(pre, "{"@, rest);
    let front = pre + "{"@ + inner;
    assert(s =~= front.push('}') + post);
    text_laws::the_last_place_is_found(front, '}', post);
    assert(s.subrange(pre.len() as int, front.len() as int + 1) =~= "{"@ + inner + "}"@);
}

proof fn lemma_bullets(lines: Seq<Seq<char>>)
    ensures
        prompts::bullets(lines) == lines.map_values(|line: Seq<char>| "- "@ + line + "\n"@).flatten(),
    decreases lines.len(),
{
    let told = lines.map_values(|line: Seq<char>| "- "@ + line + "\n"@);
    told.lemma_flatten_and_flatten_alt_are_equivalent();
    if lines.len() > 0 {
        let front = lines.drop_last();
        lemma_bullets(front);
        let before = front.map_values(|line: Seq<char>| "- "@ + line + "\n"@);
        before.lemma_flatten_and_flatten_alt_are_equivalent();
        assert(told.drop_last() =~= before);
        assert(told.last() == "- "@ + lines.last() + "\n"@);
        assert(prompts::bullets(lines) =~= told.flatten());
    }
}

/// A planner is told the goal's title in the first line, why it is pursued in the
/// next if that is known, and then the success criteria if there are any: each in a
/// line of its own, in order, and nothing else.
pub proof fn goals_are_told_in_full(goal: GoalView)
    ensures
        prompts::goal_told(goal) == "GOAL: "@ + goal.title + "\n"@ + (if goal.why.len() > 0 {
            "WHY: "@ + goal.why + "\n"@
        } else {
            Seq::empty()
        }) + (if goal.success_criteria.len() > 0 {
            "SUCCESS CRITERIA:\n"@ + goal.success_criteria.map_values(
                |line: Seq<char>| "- "@ + line + "\n"@,
            ).flatten()
        } else {
            Seq::empty()
        }),
{
    lemma_bullets(goal.success_criteria);
}

proof fn lemma_items_told(items: Seq<PlanItemView>)
    ensures
        prompts::items_told(items) == (if items.len() == 0 {
            "(none)\n"@
        } else {
            items.map_values(
                |item: PlanItemView| "- ["@ + item.id + "] "@ + item.content + "\n"@,
            ).flatten()
        }),
{
    let lines = items.map_values(|item: PlanItemView| prompts::item_line(item));
    lemma_bullets(lines);
    let told = lines.map_values(|line: Seq<char>| "- "@ + line + "\n"@);
    let raw = items.map_values(
        |item: PlanItemView| "- ["@ + item.id + "] "@ + item.content + "\n"@,
    );
    reveal_strlit("- ");
    reveal_strlit("[");
    reveal_strlit("- [");
    assert forall|i: int| 0 <= i < items.len() implies told[i] == raw[i] by {
        assert(told[i] =~= raw[i]);
    }
    assert(told =~= raw);
}

/// After a failure a planner is told the goal, then every completed item under its
/// heading, then every failed item under its own: each in a line that gives its id
/// and what it is, in order. `(none)` stands under a heading exactly if there is no
/// such item.
pub proof fn failures_are_told_in_full(
    goal: GoalView,
    completed: Seq<PlanItemView>,
    failed: Seq<PlanItemView>,
)
    ensures
        prompts::failure_told(goal, completed, failed) == prompts::goal_told(goal)
            + "\nCOMPLETED ITEMS:\n"@ + (if completed.len() == 0 {
            "(none)\n"@
        } else {
            completed.map_values(
                |item: PlanItemView| "- ["@ + item.id + "] "@ + item.content + "\n"@,
            ).flatten()
        }) + "\nFAILED ITEMS:\n"@ + (if failed.len() == 0 {
            "(none)\n"@
        } else {
            failed.map_values(
                |item: PlanItemView| "- ["@ + item.id + "] "@ + item.content + "\n"@,
            ).flatten()
        }),
{
    lemma_items_told(completed);
    lemma_items_told(failed);
}

/// One more completed item is told in one more line at the end of the completed
/// ones, and one more failed item in one more line at the end: all else stays. So a
/// planner that is told of more is told more.
pub proof fn every_item_adds_its_line(
    goal: GoalView,
    completed: Seq<PlanItemView>,
    failed: Seq<PlanItemView>,
    item: PlanItemView,
)
    requires
        completed.len() > 0,
        failed.len() > 0,
    ensures
        ({
            let line = "- ["@ + item.id + "] "@ + item.content + "\n"@;
            let told = prompts::failure_told(goal, completed, failed);
            let tail = "\nFAILED ITEMS:\n"@.len() + prompts::items_told(failed).len();
            &&& prompts::failure_told(goal, completed, failed.push(item)) == told + line
            &&& tail <= told.len()
            &&& prompts::failure_told(goal, completed.push(item), failed) == told.take(
                told.len() - tail,
            ) + line + told.skip(told.len() - tail)
        }),
{
    let line = "- ["@ + item.id + "] "@ + item.content + "\n"@;
    lemma_item_pushed(completed, item);
    lemma_item_pushed(failed, item);
    let told = prompts::failure_told(goal, completed, failed);
    let tail = "\nFAILED ITEMS:\n"@ + prompts::items_told(failed);
    let head = prompts::goal_told(goal) + "\nCOMPLETED ITEMS:\n"@ + prompts::items_told(completed);
    assert(told =~= head + tail);
    assert(told.take(told.len() - tail.len()) =~= head);
    assert(told.skip(told.len() - tail.len()) =~= tail);
    assert(prompts::failure_told(goal, completed, failed.push(item)) =~= told + line);
    assert(prompts::failure_told(goal, completed.push(item), failed) =~= head + line + tail);
}

proof fn lemma_item_pushed(items: Seq<PlanItemView>, item: PlanItemView)
    requires
        items.len() > 0,
    ensures
        prompts::items_told(items.push(item)) == prompts::items_told(items) + ("- ["@ + item.id
            + "] "@ + item.content + "\n"@),
{
    let more = items.push(item);
    let lines = more.map_values(|item: PlanItemView| prompts::item_line(item));
    assert(lines.drop_last() =~= items.map_values(|item: PlanItemView| prompts::item_line(item)));
    assert(lines.last() == prompts::item_line(item));
    reveal_strlit("- ");
    reveal_strlit("[");
    reveal_strlit("- [");
    assert(prompts::items_told(more) =~= prompts::items_told(items) + ("- ["@ + item.id + "] "@
        + item.content + "\n"@));
}

/// A check that a planner writes is read with its command as it is, its kind by
/// name, and its timeout, or two minutes without one. An unknown kind is refused,
/// with the name that was written.
pub proof fn checks_are_read_as_written(wire: SuccessCheckWireView)
    ensures
        match SuccessCheckKind::named(text::normalized(wire.kind)) {
            Some(kind) => prompts::check_meant(wire) == Ok::<SuccessCheckView, PlannerErrorView>(
                SuccessCheckView {
                    kind,
                    spec: wire.spec,
                    timeout_ms: match wire.timeout_ms {
                        Some(timeout_ms) => timeout_ms,
                        None => 120_000,
                    },
                },
            ),
            None => prompts::check_meant(wire) == Err::<SuccessCheckView, PlannerErrorView>(
                PlannerErrorView::InvalidJson("unknown success_check kind `"@ + wire.kind + "`"@),
            ),
        },
{
}

/// A plan is read item by item: in order, each with the id, the words, the priority
/// and the rest that the planner wrote, queued and assigned to nobody. Its check is
/// the one that was written, and an item without one has none.
pub proof fn plans_are_read_as_written(wires: Seq<PlanItemWireView>, i: int)
    requires
        prompts::plan_meant(Ok(wires)) is Ok,
        0 <= i < wires.len(),
    ensures
        ({
            let items = prompts::plan_meant(Ok(wires))->Ok_0;
            let item = items[i];
            let wire = wires[i];
            &&& items.len() == wires.len()
            &&& item.id == wire.id && item.content == wire.content
            &&& item.priority == wire.priority && item.subsystem == wire.subsystem
            &&& item.file_scope == wire.file_scope && item.blocked_by == wire.blocked_by
            &&& item.status == "queued"@ && item.assigned_to is None
            &&& match wire.success_check {
                Some(check) => prompts::check_meant(check) is Ok && item.success_check == Some(
                    prompts::check_meant(check)->Ok_0,
                ),
                None => item.success_check is None,
            }
        }),
{
    prompts::plans_keep_their_items(wires);
    let items = prompts::plan_meant(Ok(wires))->Ok_0;
    assert(items[i] == prompts::queued(wires[i], items[i].success_check));
}

/// A plan is refused for the first check in it that is refused, a plan without items
/// as empty, and one that could not be read for what is wrong with it.
pub proof fn plans_are_refused_for_their_first_fault(
    wires: Seq<PlanItemWireView>,
    i: int,
    problem: Seq<char>,
)
    ensures
        prompts::plan_meant(Err(problem)) == Err::<Seq<PlanItemView>, PlannerErrorView>(
            PlannerErrorView::InvalidJson(problem),
        ),
        wires.len() == 0 ==> prompts::plan_meant(Ok(wires)) == Err::<
            Seq<PlanItemView>,
            PlannerErrorView,
        >(PlannerErrorView::Empty),
        0 <= i < wires.len() && (wires[i].success_check matches Some(check) && prompts::check_meant(
            check,
        ) is Err) && (forall|k: int|
            0 <= k < i ==> ((#[trigger] wires[k]).success_check matches Some(check)
                ==> prompts::check_meant(check) is Ok)) ==> prompts::plan_meant(Ok(wires)) == Err::<
            Seq<PlanItemView>,
            PlannerErrorView,
        >(prompts::check_meant(wires[i].success_check->0)->Err_0),
{
    if 0 <= i < wires.len() && (wires[i].success_check matches Some(check) && prompts::check_meant(
        check,
    ) is Err) && (forall|k: int|
        0 <= k < i ==> ((#[trigger] wires[k]).success_check matches Some(check)
            ==> prompts::check_meant(check) is Ok)) {
        let front = wires.take(i);
        lemma_sound_items(front);
        let upto = wires.take(i + 1);
        assert(upto.drop_last() =~= front);
        assert(upto.last() == wires[i]);
        lemma_fault_stays(wires, i + 1);
    }
}

proof fn lemma_sound_items(wires: Seq<PlanItemWireView>)
    requires
        forall|k: int|
            0 <= k < wires.len() ==> ((#[trigger] wires[k]).success_check matches Some(check)
                ==> prompts::check_meant(check) is Ok),
    ensures
        prompts::items_meant(wires) is Ok,
    decreases wires.len(),
{
    if wires.len() > 0 {
        let front = wires.drop_last();
        assert forall|k: int| 0 <= k < front.len() implies ((
        #[trigger] front[k]).success_check matches Some(check) ==> prompts::check_meant(
            check,
        ) is Ok) by {
            assert(front[k] == wires[k]);
        }
        lemma_sound_items(front);
        assert(wires[wires.len() - 1] == wires.last());
    }
}

proof fn lemma_fault_stays(wires: Seq<PlanItemWireView>, k: int)
    requires
        0 <= k <= wires.len(),
        prompts::items_meant(wires.take(k)) is Err,
    ensures
        prompts::items_meant(wires) == prompts::items_meant(wires.take(k)),
    decreases wires.len() - k,
{
    if k < wires.len() {
        assert(wires.take(k + 1).drop_last() =~= wires.take(k));
        lemma_fault_stays(wires, k + 1);
    } else {
        assert(wires.take(k) =~= wires);
    }
}

/// What is wrong with a reply's JSON is told behind the whole reply; what was read
/// of it is left alone.
pub proof fn faults_quote_the_reply(
    raw: Seq<char>,
    wires: Seq<PlanItemWireView>,
    problem: Seq<char>,
)
    ensures
        prompts::quoting(raw, Ok(wires)) == Ok::<Seq<PlanItemWireView>, Seq<char>>(wires),
        prompts::quoting(raw, Err(problem)) matches Err(told) && told == raw + "\nparser error: "@
            + problem,
{
}

/// A plan settles a request at once. An error settles it only when no try is left;
/// else the request is put again.
pub proof fn requests_are_put_again_only_after_errors(
    plan: Result<Seq<PlanItemView>, PlannerErrorView>,
    tries_left: int,
)
    requires
        tries_left >= 0,
    ensures
        prompts::settled(plan, tries_left) is None <==> plan is Err && tries_left > 0,
        prompts::settled(plan, tries_left) matches Some(answer) ==> answer == plan,
        prompts::DECOMPOSE_TRIES == 2,
        prompts::REPLAN_TRIES == 1,
{
}

/// A plan is read from the JSON in the planner's reply and from nothing else: a reply
/// without any is refused as it stands, JSON that is no plan with what is wrong with
/// it behind the reply, and JSON that is one gives the plan that it holds.
pub proof fn plans_are_read_from_the_replys_json<F: FnOnce(&str) -> Result<PlanWire, String>>(
    raw: Seq<char>,
    decode: F,
    plan: Result<Seq<PlanItemView>, PlannerErrorView>,
)
    requires
        prompts::reads_as(raw, decode, plan),
    ensures
        prompts::json_block(raw) is None ==> (plan matches Err(PlannerErrorView::InvalidJson(told))
            && told == raw),
        prompts::json_block(raw) matches Some(block) ==> exists|
            json: &str,
            decoded: Result<PlanWire, String>,
        |
            json@ == block && #[trigger] call_ensures(decode, (json,), decoded) && match decoded {
                Ok(wire) => plan == prompts::plan_meant(Ok(wire.items.deep_view())),
                Err(problem) => plan matches Err(PlannerErrorView::InvalidJson(told)) && told
                    == raw + "\nparser error: "@ + problem@,
            },
{
    if let Some(block) = prompts::json_block(raw) {
        let (json, decoded) = choose|json: &str, decoded: Result<PlanWire, String>|
            json@ == block && #[trigger] call_ensures(decode, (json,), decoded) && plan
                == prompts::plan_meant(prompts::quoting(raw, prompts::decoded_items(decoded)));
        assert(json@ == block && call_ensures(decode, (json,), decoded));
    }
}

/// A planner's reply reaches the loop as it came: a plan with all its items, in order,
/// and an error as that error. So does the answer to a request, once there is one.
pub proof fn planners_are_quoted(items: Vec<PlanItem>, error: PlannerError)
    ensures
        controller::plan_told(Ok(items)) == Ok::<Seq<PlanItemView>, PlannerErrorView>(
            items.deep_view(),
        ),
        controller::plan_told(Err(error)) == Err::<Seq<PlanItemView>, PlannerErrorView>(error@),
        prompts::verdict_told(Some(Ok(items))) == Some(
            Ok::<Seq<PlanItemView>, PlannerErrorView>(items.deep_view()),
        ),
        prompts::verdict_told(Some(Err(error))) == Some(
            Err::<Seq<PlanItemView>, PlannerErrorView>(error@),
        ),
        prompts::verdict_told(None) is None,
{
}

} // verus!
