use goal_loop::prompts::{
    default_priority, plan_from_wire, render_goal_for_decompose, render_goal_for_replan,
    PlanItemWire, PlanWire, SuccessCheckWire,
};
use goal_loop::{
    extract_json, parse_plan_items, Goal, GoalScope, PlanItem, PlanRequest, PlannerError,
    SuccessCheckKind, DECOMPOSE_PROMPT, REPLAN_PROMPT, VERIFIER_PROMPT,
};
use serde_json::Value;

fn text(v: &Value) -> Option<String> {
    v.as_str().map(|s| s.to_string())
}

fn texts(v: Option<&Value>) -> Result<Vec<String>, String> {
    match v {
        None => Ok(Vec::new()),
        Some(v) => v
            .as_array()
            .ok_or("not a list")?
            .iter()
            .map(|s| text(s).ok_or("not a string".to_string()))
            .collect(),
    }
}

fn read_item(v: &Value) -> Result<PlanItemWire, String> {
    let field = |name: &str| {
        v.get(name)
            .and_then(text)
            .ok_or(format!("missing field `{name}`"))
    };
    let success_check = match v.get("success_check") {
        None => None,
        Some(c) => Some(SuccessCheckWire {
            kind: c.get("kind").and_then(text).ok_or("missing field `kind`")?,
            spec: c.get("spec").and_then(text).ok_or("missing field `spec`")?,
            timeout_ms: c.get("timeout_ms").and_then(|t| t.as_u64()).map(|t| t as u32),
        }),
    };
    Ok(PlanItemWire {
        id: field("id")?,
        content: field("content")?,
        priority: v.get("priority").and_then(text).unwrap_or_else(default_priority),
        blocked_by: texts(v.get("blocked_by"))?,
        success_check,
        subsystem: v.get("subsystem").and_then(text),
        file_scope: texts(v.get("file_scope"))?,
    })
}

fn decode(json: &str) -> Result<PlanWire, String> {
    let v: Value = serde_json::from_str(json).map_err(|e| e.to_string())?;
    let items = v
        .get("items")
        .and_then(|i| i.as_array())
        .ok_or("missing field `items`")?;
    let items = items.iter().map(read_item).collect::<Result<Vec<_>, _>>()?;
    Ok(PlanWire { items })
}

#[test]
fn extract_json_unwraps_fenced_block() {
    let raw = "Sure thing:\n```json\n{\"items\":[]}\n```";
    assert_eq!(extract_json(raw), Some("{\"items\":[]}"));
}

#[test]
fn extract_json_unwraps_bare_object() {
    let raw = "  {\"items\": []}  ";
    assert_eq!(extract_json(raw), Some("{\"items\": []}"));
}

#[test]
fn extract_json_falls_back_to_brace_range() {
    let raw = "Sure: {\"items\":[{\"id\":\"a\",\"content\":\"x\"}]} done";
    let got = extract_json(raw).unwrap();
    assert!(got.starts_with('{') && got.ends_with('}'));
    assert_eq!(got, "{\"items\":[{\"id\":\"a\",\"content\":\"x\"}]}");
}

#[test]
fn extract_json_cuts_off_what_follows_an_object() {
    assert_eq!(
        extract_json("{\"items\":[]} Hope that helps!"),
        Some("{\"items\":[]}")
    );
    assert_eq!(extract_json("{\"a\":{}} ok"), Some("{\"a\":{}}"));
    assert_eq!(extract_json("{oops"), Some("{oops"));
    let raw = "{\"items\":[{\"id\":\"a\",\"content\":\"x\"}]} Hope that helps!";
    assert_eq!(parse_plan_items(raw, decode).unwrap().len(), 1);
}

#[test]
fn extract_json_takes_what_it_can_get() {
    assert_eq!(extract_json("é ```\n {\"a\": 1} \n``` é"), Some("{\"a\": 1}"));
    assert_eq!(extract_json("```json\n{\"a\": 1}"), Some("{\"a\": 1}"));
    assert_eq!(extract_json("```json```"), Some(""));
    assert_eq!(extract_json("``` x"), None);
    assert_eq!(extract_json("} {"), None);
    assert_eq!(extract_json("only { here"), None);
    assert_eq!(extract_json("only } here"), None);
    assert_eq!(extract_json("nothing"), None);
    assert_eq!(extract_json(""), None);
}

#[test]
fn parse_plan_items_minimal() {
    let raw = r#"{"items":[{"id":"a","content":"do a"}]}"#;
    let items = parse_plan_items(raw, decode).unwrap();
    assert_eq!(items.len(), 1);
    assert_eq!(items[0].id, "a");
    assert_eq!(items[0].priority, "medium");
    assert!(items[0].success_check.is_none());
    assert_eq!(items[0].status, "queued");
}

#[test]
fn parse_plan_items_with_success_check() {
    let raw = r#"{"items":[
            {"id":"a","content":"do a","priority":"high",
             "success_check":{"kind":"cargo_test","spec":"rate_limit::*","timeout_ms":30000}}
        ]}"#;
    let items = parse_plan_items(raw, decode).unwrap();
    let check = items[0].success_check.as_ref().unwrap();
    assert_eq!(check.kind, SuccessCheckKind::CargoTest);
    assert_eq!(check.spec, "rate_limit::*");
    assert_eq!(check.timeout_ms, 30_000);
}

#[test]
fn parse_plan_items_rejects_unknown_kind() {
    let raw = r#"{"items":[
            {"id":"a","content":"do a",
             "success_check":{"kind":"nonsense","spec":"x"}}
        ]}"#;
    let err = parse_plan_items(raw, decode).unwrap_err();
    assert_eq!(
        err,
        PlannerError::InvalidJson("unknown success_check kind `nonsense`".to_string())
    );
}

#[test]
fn parse_plan_items_rejects_empty() {
    let raw = r#"{"items":[]}"#;
    let err = parse_plan_items(raw, decode).unwrap_err();
    assert_eq!(err, PlannerError::Empty);
}

#[test]
fn replies_without_json_are_handed_back() {
    let err = parse_plan_items("not json at all", decode).unwrap_err();
    assert_eq!(err, PlannerError::InvalidJson("not json at all".to_string()));
    let err = parse_plan_items("{\"items\": 3}", decode).unwrap_err();
    assert_eq!(
        err,
        PlannerError::InvalidJson(
            "{\"items\": 3}\nparser error: missing field `items`".to_string()
        )
    );
    let PlannerError::InvalidJson(m) = parse_plan_items("{oops", decode).unwrap_err() else {
        panic!("expected invalid JSON");
    };
    assert!(m.contains("{oops"), "{m}");
    assert!(m.contains("key must be a string"), "{m}");
}

#[test]
fn checks_without_a_timeout_get_two_minutes() {
    let wire = PlanWire {
        items: vec![PlanItemWire {
            id: "a".to_string(),
            content: "do a".to_string(),
            priority: "low".to_string(),
            blocked_by: vec!["b".to_string()],
            success_check: Some(SuccessCheckWire {
                kind: " Shell ".to_string(),
                spec: "true".to_string(),
                timeout_ms: None,
            }),
            subsystem: Some("core".to_string()),
            file_scope: vec!["src".to_string()],
        }],
    };
    let items = plan_from_wire(Ok(wire)).unwrap();
    let check = items[0].success_check.as_ref().unwrap();
    assert_eq!(check.timeout_ms, 120_000);
    assert_eq!(check.kind, SuccessCheckKind::Shell);
    assert_eq!(items[0].blocked_by, vec!["b"]);
    assert_eq!(items[0].file_scope, vec!["src"]);
    assert_eq!(items[0].subsystem.as_deref(), Some("core"));
    assert_eq!(items[0].assigned_to, None);
}

#[test]
fn llm_planner_retries_on_first_invalid_parse() {
    let goal = Goal::new("ship it", GoalScope::Project);
    let mut request = PlanRequest::decompose(&goal);
    assert_eq!(request.prompt, DECOMPOSE_PROMPT);
    assert_eq!(request.message, "GOAL: ship it\n");
    assert!(request.received(Ok("not json at all".to_string()), decode).is_none());
    let items = request
        .received(Ok(r#"{"items":[{"id":"a","content":"x"}]}"#.to_string()), decode)
        .unwrap()
        .unwrap();
    assert_eq!(items.len(), 1);
}

#[test]
fn requests_give_up() {
    let goal = Goal::new("ship it", GoalScope::Project);
    let mut request = PlanRequest::decompose(&goal);
    assert!(request.received(Ok("{\"items\":[]}".to_string()), decode).is_none());
    let last = request.received(Ok("nope".to_string()), decode).unwrap();
    assert_eq!(last, Err(PlannerError::InvalidJson("nope".to_string())));

    let mut request = PlanRequest::decompose(&goal);
    let down = request.received(Err("network down".to_string()), decode).unwrap();
    assert_eq!(down, Err(PlannerError::Other("network down".to_string())));

    let mut request = PlanRequest::replan(&goal, &Vec::new(), &Vec::new());
    assert_eq!(request.prompt, REPLAN_PROMPT);
    let empty = request.received(Ok("{\"items\":[]}".to_string()), decode).unwrap();
    assert_eq!(empty, Err(PlannerError::Empty));
}

#[test]
fn goals_are_told_to_planners() {
    let mut goal = Goal::new("ship it", GoalScope::Project);
    goal.why = "users wait".to_string();
    goal.success_criteria = vec!["tests pass".to_string(), "docs exist".to_string()];
    assert_eq!(
        render_goal_for_decompose(&goal),
        "GOAL: ship it\nWHY: users wait\nSUCCESS CRITERIA:\n- tests pass\n- docs exist\n"
    );
    let item = PlanItem {
        content: "do a".to_string(),
        status: "queued".to_string(),
        priority: "high".to_string(),
        id: "a".to_string(),
        subsystem: None,
        file_scope: Vec::new(),
        blocked_by: Vec::new(),
        assigned_to: None,
        success_check: None,
    };
    let goal = Goal::new("ship it", GoalScope::Project);
    assert_eq!(
        render_goal_for_replan(&goal, &Vec::new(), &vec![item]),
        "GOAL: ship it\n\nCOMPLETED ITEMS:\n(none)\n\nFAILED ITEMS:\n- [a] do a\n"
    );
}

#[test]
fn prompts_ask_for_json() {
    for prompt in [DECOMPOSE_PROMPT, REPLAN_PROMPT, VERIFIER_PROMPT] {
        assert!(prompt.contains("```json"));
        assert!(prompt.starts_with("You are"));
        assert!(prompt.ends_with(".\n"));
    }
}
