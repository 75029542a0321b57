use andromeda::agent::tools::calendar::{
    apply_chinese_calendar, chinese_calendar_tool_def, int_field, lookup_festival,
    normalize_festival, pred_solar, SolarDate,
};
use andromeda::agent::tools::plan::{
    apply_write_todos, ensure_plan_nudge, inject_plan_tools, is_server_tool, parse_status,
    tool_result_err, tool_result_ok, write_todos_tool_def, PLAN_NUDGE_PREFIX, WRITE_TODOS_NAME,
};
use andromeda::agent::tools::task::{
    build_subagent_context, filter_tools_for_agent, inject_lead_tools, is_server_tool_name,
    is_task_tool, parse_task_args, task_result_err, task_result_ok, task_tool_def, TaskAgentKind,
    TaskArgs, EXPLORE_NUDGE_PREFIX, TASK_NAME,
};
use andromeda::json::JsonValue;
use andromeda::protocol::{Role, TodoItem, TodoStatus, ToolDef, WireMessage};

fn json(raw: &str) -> JsonValue {
    JsonValue::parse(raw).unwrap()
}

fn tool(name: &str, description: &str, readonly: Option<bool>) -> ToolDef {
    ToolDef {
        name: name.into(),
        description: description.into(),
        parameters: json("{}"),
        readonly,
    }
}

#[test]
fn parse_task_args_defaults_agent() {
    let args = parse_task_args(&json(r#"{ "goal": "find layers" }"#)).unwrap();
    assert_eq!(args.agent, TaskAgentKind::General);
    assert!(args.context_hints.is_empty());
}

#[test]
fn filter_explore_prefers_readonly() {
    let tools = vec![tool("read", "r", Some(true)), tool("write", "w", None)];
    let filtered = filter_tools_for_agent(&tools, &TaskAgentKind::Explore);
    assert_eq!(filtered.len(), 1);
    assert_eq!(filtered[0].name, "read");
}

#[test]
fn inject_lead_tools_orders_server_first() {
    let client = vec![tool("echo", "e", None)];
    let tools = inject_lead_tools(&client, true, true);
    assert_eq!(tools[0].name, "write_todos");
    assert_eq!(tools[1].name, "task");
    assert_eq!(tools[2].name, "echo");
}

#[test]
fn mid_autumn_2026() {
    let out = apply_chinese_calendar(&json(
        r#"{ "action": "festival", "festival": "中秋节", "year": 2026 }"#,
    ))
    .unwrap();
    assert!(out.contains("2026年9月25日"), "got: {out}");
}

#[test]
fn lunar_roundtrip_sample() {
    let out = apply_chinese_calendar(&json(
        r#"{ "action": "lunar_to_solar", "year": 2026, "month": 8, "day": 15 }"#,
    ))
    .unwrap();
    assert!(out.contains("公历"), "{out}");
    assert!(out.contains("9月25日"), "{out}");
}

#[test]
fn apply_write_todos_happy_path() {
    let args = json(
        r#"{
            "todos": [
                {"id": "t1", "content": "a", "status": "pending"},
                {"id": "t2", "content": "b", "status": "in_progress"}
            ]
        }"#,
    );
    let list = apply_write_todos(&args).unwrap();
    assert_eq!(list.len(), 2);
    assert_eq!(list[1].status, TodoStatus::InProgress);
}

#[test]
fn apply_write_todos_rejects_bad_status() {
    let args = json(r#"{ "todos": [{"id": "t1", "content": "a", "status": "doing"}] }"#);
    let err = apply_write_todos(&args).unwrap_err();
    assert!(err.contains("invalid status"));
}

#[test]
fn inject_plan_tools_drops_client_duplicate() {
    let client = vec![
        tool("echo", "e", None),
        tool(WRITE_TODOS_NAME, "client should lose", None),
    ];
    let tools = inject_plan_tools(&client);
    assert_eq!(tools.len(), 2);
    assert_eq!(tools[0].name, WRITE_TODOS_NAME);
    assert!(tools[0].description.contains("Replace"));
    assert_eq!(tools[1].name, "echo");
}

#[test]
fn ensure_plan_nudge_is_idempotent() {
    let mut ctx = vec![WireMessage {
        role: Role::User,
        content: "hi".into(),
        tool_call_id: None,
        name: None,
        tool_calls: None,
        reasoning_content: None,
    }];
    ensure_plan_nudge(&mut ctx);
    ensure_plan_nudge(&mut ctx);
    assert_eq!(ctx.len(), 2);
    assert!(ctx[0].content.starts_with(PLAN_NUDGE_PREFIX));
    assert_eq!(ctx[1].role, Role::User);
}

#[test]
fn kinds_of_agents_are_read_back() {
    assert_eq!(TaskAgentKind::parse("general"), Some(TaskAgentKind::General));
    assert_eq!(TaskAgentKind::parse("explore"), Some(TaskAgentKind::Explore));
    assert_eq!(TaskAgentKind::parse("other"), None);
    assert_eq!(TaskAgentKind::Explore.as_str(), "explore");
    assert_eq!(TaskAgentKind::General.as_str(), "general");
}

#[test]
fn task_arguments_that_cannot_be_read_are_refused() {
    assert_eq!(
        parse_task_args(&json("{}")).unwrap_err(),
        "missing string `goal`"
    );
    assert!(parse_task_args(&json(r#"{ "goal": "   " }"#)).is_err());
    assert!(parse_task_args(&json(r#"{ "goal": "g", "agent": "nope" }"#)).is_err());
    assert!(parse_task_args(&json(r#"{ "goal": "g", "context_hints": "x" }"#)).is_err());
    assert!(parse_task_args(&json(r#"{ "goal": "g", "context_hints": [1] }"#)).is_err());
    let args = parse_task_args(&json(
        r#"{ "goal": " g ", "agent": "explore", "context_hints": ["a", "b"] }"#,
    ))
    .unwrap();
    assert_eq!(args.goal, "g");
    assert_eq!(args.agent, TaskAgentKind::Explore);
    assert_eq!(args.context_hints, vec!["a".to_string(), "b".to_string()]);
}

#[test]
fn server_tools_are_known_by_mode() {
    assert!(is_task_tool(TASK_NAME));
    assert!(!is_task_tool("echo"));
    assert!(is_server_tool("write_todos"));
    assert!(!is_server_tool("task"));
    assert!(is_server_tool_name("write_todos", true, false));
    assert!(!is_server_tool_name("write_todos", false, true));
    assert!(is_server_tool_name("task", false, true));
    assert!(!is_server_tool_name("task", true, false));
}

#[test]
fn explore_without_marked_tools_keeps_the_client_tools() {
    let tools = vec![tool("a", "", None), tool("task", "", None), tool("b", "", Some(false))];
    let filtered = filter_tools_for_agent(&tools, &TaskAgentKind::Explore);
    let names: Vec<&str> = filtered.iter().map(|t| t.name.as_str()).collect();
    assert!(names.contains(&"a"));
    assert!(names.contains(&"b"));
}

#[test]
fn a_subagent_is_told_its_goal_and_its_hints() {
    let ctx = build_subagent_context(&TaskArgs {
        goal: "find layers".into(),
        agent: TaskAgentKind::Explore,
        context_hints: vec!["roads".into()],
    });
    assert!(ctx[0].content.starts_with(EXPLORE_NUDGE_PREFIX));
    assert!(ctx.iter().any(|m| m.content.contains("roads")));
    assert_eq!(ctx.last().unwrap().role, Role::User);
    assert!(ctx.last().unwrap().content.contains("find layers"));
}

#[test]
fn results_of_server_tools_are_json() {
    assert_eq!(
        task_result_ok("found \"X\""),
        r#"{"ok":true,"summary":"found \"X\""}"#
    );
    assert_eq!(task_result_err("bad"), r#"{"error":"bad","ok":false}"#);
    assert_eq!(tool_result_err("bad\n"), r#"{"error":"bad\n","ok":false}"#);
    let text = tool_result_ok(&[TodoItem {
        id: "t1".into(),
        content: "a".into(),
        status: TodoStatus::Completed,
    }]);
    let value: serde_json::Value = serde_json::from_str(&text).unwrap();
    assert_eq!(value["ok"], true);
    assert_eq!(value["todos"][0]["status"], "completed");
}

#[test]
fn statuses_are_read_back() {
    for status in [
        TodoStatus::Pending,
        TodoStatus::InProgress,
        TodoStatus::Completed,
        TodoStatus::Cancelled,
    ] {
        assert_eq!(parse_status(status.as_str()), Some(status));
    }
    assert_eq!(parse_status("doing"), None);
}

#[test]
fn todo_lists_that_cannot_be_read_are_refused() {
    assert!(apply_write_todos(&json("{}")).is_err());
    assert!(apply_write_todos(&json(r#"{ "todos": 3 }"#)).is_err());
    assert!(apply_write_todos(&json(r#"{ "todos": [{"content": "a", "status": "pending"}] }"#)).is_err());
    assert!(apply_write_todos(&json(r#"{ "todos": [{"id": "t", "status": "pending"}] }"#)).is_err());
    assert!(apply_write_todos(&json(r#"{ "todos": [{"id": "t", "content": "a"}] }"#)).is_err());
    assert_eq!(apply_write_todos(&json(r#"{ "todos": [] }"#)).unwrap().len(), 0);
}

#[test]
fn tool_schemas_have_their_names() {
    assert_eq!(write_todos_tool_def().name, "write_todos");
    assert_eq!(task_tool_def().name, "task");
    assert_eq!(chinese_calendar_tool_def().name, "chinese_calendar");
    assert_eq!(
        task_tool_def().parameters.str_field("type"),
        Some("object")
    );
}

#[test]
fn festivals_by_the_sun_and_by_the_moon() {
    assert_eq!(
        lookup_festival("国庆节", 2026).unwrap(),
        "2026年「国庆节」为公历2026年10月1日（固定公历节日）"
    );
    assert_eq!(
        lookup_festival("元旦", 2026).unwrap(),
        "2026年「元旦」为公历2026年1月1日（固定公历节日）"
    );
    assert_eq!(
        lookup_festival("端午节", 2026).unwrap(),
        "2026年「端午节」为公历2026年6月19日（农历五月初五）"
    );
    assert_eq!(
        lookup_festival("除夕", 2026).unwrap(),
        "2026年「除夕」为公历2026年2月16日（春节前一天）"
    );
    assert!(lookup_festival("清明节", 2026).is_err());
    assert!(lookup_festival("万圣节", 2026)
        .unwrap_err()
        .starts_with("unsupported festival: 万圣节"));
}

#[test]
fn supported_festivals_that_end_in_the_word_for_festival() {
    assert_eq!(
        lookup_festival("春节", 2026).unwrap(),
        "2026年「春节」为公历2026年2月17日（农历正月初一）"
    );
    assert_eq!(
        lookup_festival("劳动节", 2026).unwrap(),
        "2026年「劳动节」为公历2026年5月1日（固定公历节日）"
    );
}

#[test]
fn solar_dates_are_turned_into_lunar_dates() {
    assert_eq!(
        apply_chinese_calendar(&json(
            r#"{ "action": "solar_to_lunar", "year": 2026, "month": 9, "day": 25 }"#
        ))
        .unwrap(),
        "公历2026年9月25日 → 农历2026年8月15日"
    );
}

#[test]
fn calendar_arguments_that_cannot_be_read_are_refused() {
    assert!(apply_chinese_calendar(&json("{}")).is_err());
    assert_eq!(
        apply_chinese_calendar(&json(r#"{ "action": "nope" }"#)).unwrap_err(),
        "unknown action: nope"
    );
    assert_eq!(
        apply_chinese_calendar(&json(r#"{ "action": "festival", "year": 2026 }"#)).unwrap_err(),
        "festival requires festival name"
    );
    assert_eq!(
        apply_chinese_calendar(&json(r#"{ "action": "festival", "festival": "中秋" }"#))
            .unwrap_err(),
        "festival requires year (Gregorian)"
    );
    assert_eq!(
        apply_chinese_calendar(&json(r#"{ "action": "lunar_to_solar", "month": 1, "day": 1 }"#))
            .unwrap_err(),
        "missing year"
    );
    assert_eq!(
        apply_chinese_calendar(&json(r#"{ "action": "solar_to_lunar", "year": 2026, "day": 1 }"#))
            .unwrap_err(),
        "missing month"
    );
    assert!(apply_chinese_calendar(&json(
        r#"{ "action": "lunar_to_solar", "year": 2026, "month": 13, "day": 1 }"#
    ))
    .unwrap_err()
    .starts_with("lunar_to_solar failed: "));
}

#[test]
fn numbers_are_read_as_integers() {
    let args = json(r#"{ "a": 7, "b": -7, "c": 7.9, "d": "7" }"#);
    assert_eq!(int_field(&args, "a"), Some(7));
    assert_eq!(int_field(&args, "b"), Some(-7));
    assert_eq!(int_field(&args, "c"), Some(7));
    assert_eq!(int_field(&args, "d"), None);
    assert_eq!(int_field(&args, "e"), None);
}

#[test]
fn the_day_before_crosses_months_and_years() {
    let date = |year, month, day| SolarDate { year, month, day };
    assert_eq!(pred_solar(date(2024, 3, 1)), Ok(date(2024, 2, 29)));
    assert_eq!(pred_solar(date(2026, 1, 1)), Ok(date(2025, 12, 31)));
    assert_eq!(
        pred_solar(date(2026, 2, 30)),
        Err("invalid solar date 2026-2-30".to_string())
    );
}

#[test]
fn names_of_festivals_lose_white_space() {
    assert_eq!(normalize_festival(" 中 秋 节 "), "中秋");
}
