use horseman::dispatch::{child_tool_ids, link_subagent_children, process_event};
use horseman::events::{BackendEvent, Role, ToolStatus};
use horseman::reconcile::{
    agent_id_from_parts, extract_agent_id_from_result, parse_todos, resolve_parent_tool_id,
};
use horseman::records::{
    ContentItem, FieldValue, RawTodo, StreamRecord, ToolInput, UsageRecord, UserContent,
};
use horseman::session::{
    build_args, mcp_config_plan, ClaudeManager, ExitOutcome, PollOutcome, SpawnSessionArgs,
};
use horseman::stream::parse_assistant_event;
use horseman::tracking::StreamTrackingState;

fn input() -> ToolInput {
    ToolInput {
        raw: "{}".to_string(),
        parent_tool_id: FieldValue::Missing,
        parent_tool_id_camel: FieldValue::Missing,
        subagent_type: None,
        description: None,
        todos: None,
        questions: None,
    }
}

fn tool_use(id: &str, name: &str) -> ContentItem {
    ContentItem::ToolUse { id: Some(id.to_string()), name: Some(name.to_string()), input: input() }
}

fn text(t: &str) -> ContentItem {
    ContentItem::Text { text: Some(t.to_string()) }
}

fn result(id: &str, out: &str, err: bool) -> ContentItem {
    ContentItem::ToolResult { tool_use_id: Some(id.to_string()), is_error: Some(err), output: out.to_string() }
}

fn assistant(id: &str, items: Vec<ContentItem>) -> StreamRecord {
    StreamRecord::Assistant { message_id: Some(id.to_string()), parent_tool_use_id: None, content: Some(items) }
}

fn user(items: Vec<ContentItem>) -> StreamRecord {
    StreamRecord::User { parent_tool_use_id: None, content: UserContent::Items(items) }
}

#[test]
fn live_session_scenario() {
    let args = build_args(&None, &Some("Summarise the repo".to_string()), &None, &None).unwrap();
    assert_eq!(args.last(), Some(&"Summarise the repo".to_string()));
    let mut manager = ClaudeManager::new();
    let (seq, started) = manager.spawn_session("ui-1".to_string(), "/tmp".to_string(), 4242, &None);
    assert!(started.is_none());
    assert!(manager.contains("ui-1"));

    let rec = assistant("msg-1", vec![text("Looking."), tool_use("tool-1", "Read")]);
    let d = manager.process_record("ui-1", seq, &rec, 200000).unwrap();
    assert_eq!(d.events.len(), 2);
    match &d.events[0] {
        BackendEvent::MessageAssistant { ui_session_id, message } => {
            assert_eq!(ui_session_id, "ui-1");
            assert_eq!(message.id, "msg-1");
            assert_eq!(message.role, Role::Assistant);
            assert_eq!(message.text, "Looking.");
            assert_eq!(message.is_streaming, Some(true));
            let calls = message.tool_calls.as_ref().unwrap();
            assert_eq!(calls.len(), 1);
            assert_eq!(calls[0].status, ToolStatus::Running);
        }
        other => panic!("unexpected {:?}", other),
    }
    let started: Vec<_> = d.events.iter().filter(|e| matches!(e, BackendEvent::ToolStarted { .. })).collect();
    assert_eq!(started.len(), 1);
    match started[0] {
        BackendEvent::ToolStarted { tool, .. } => {
            assert_eq!(tool.id, "tool-1");
            assert_eq!(tool.name, "Read");
            assert_eq!(tool.status, ToolStatus::Running);
            assert_eq!(tool.status.label(), "running");
        }
        _ => unreachable!(),
    }

    let rec = user(vec![result("tool-1", "file contents", false)]);
    let d = manager.process_record("ui-1", seq, &rec, 200000).unwrap();
    assert_eq!(d.events.len(), 1);
    match &d.events[0] {
        BackendEvent::ToolCompleted { tool_id, output, .. } => {
            assert_eq!(tool_id, "tool-1");
            assert_eq!(output, "file contents");
        }
        other => panic!("unexpected {:?}", other),
    }
    // A stale reader is ignored.
    assert!(manager.process_record("ui-1", seq + 1, &rec, 200000).is_none());
}

#[test]
fn single_active_delegator_is_parent() {
    let one = vec!["task-1".to_string()];
    assert_eq!(resolve_parent_tool_id("Read", &input(), &None, &one), Some("task-1".to_string()));
    assert_eq!(resolve_parent_tool_id("Task", &input(), &None, &one), None);
    let two = vec!["task-1".to_string(), "task-2".to_string()];
    assert_eq!(resolve_parent_tool_id("Read", &input(), &None, &two), None);
    assert_eq!(resolve_parent_tool_id("Read", &input(), &None, &vec![]), None);
    let mut explicit = input();
    explicit.parent_tool_id_camel = FieldValue::Text("p-9".to_string());
    assert_eq!(resolve_parent_tool_id("Read", &explicit, &None, &two), Some("p-9".to_string()));
    assert_eq!(resolve_parent_tool_id("Read", &input(), &Some("ev-1".to_string()), &one), Some("ev-1".to_string()));
    // A non-text value under the first key hides the second.
    explicit.parent_tool_id = FieldValue::NonText;
    assert_eq!(resolve_parent_tool_id("Read", &explicit, &None, &vec![]), None);
}

#[test]
fn delegation_stack_links_children() {
    let mut tracking = StreamTrackingState::new();
    let mut task_input = input();
    task_input.subagent_type = Some("general".to_string());
    task_input.description = Some("explore".to_string());
    let items = vec![
        ContentItem::ToolUse { id: Some("task-1".to_string()), name: Some("Task".to_string()), input: task_input },
        tool_use("read-1", "Read"),
    ];
    let p = parse_assistant_event(&Some("m".to_string()), &None, &Some(items), &mut tracking, true).unwrap();
    assert_eq!(p.tool_calls[0].parent_tool_id, None);
    let info = p.tool_calls[0].subagent.as_ref().unwrap();
    assert_eq!(info.agent_type, "general");
    assert_eq!(info.description, "explore");
    assert_eq!(p.tool_calls[1].parent_tool_id, Some("task-1".to_string()));
    assert_eq!(tracking.active_task_stack, vec!["task-1".to_string()]);

    tracking.transcript_path = Some("/logs/session.jsonl".to_string());
    let rec = StreamRecord::User {
        parent_tool_use_id: None,
        content: UserContent::Items(vec![result("task-1", "done\nagentId: abc123 \n", false)]),
    };
    let d = process_event(&rec, &mut tracking, "ui", 200000);
    assert!(tracking.active_task_stack.is_empty());
    assert_eq!(d.lookups.len(), 1);
    assert_eq!(d.lookups[0].agent_id, "abc123");
    assert_eq!(d.lookups[0].task_id, "task-1");
    assert_eq!(d.lookups[0].transcript_path, "/logs/session.jsonl");
}

#[test]
fn empty_assistant_record_yields_nothing() {
    let mut tracking = StreamTrackingState::new();
    assert!(parse_assistant_event(&None, &None, &Some(vec![]), &mut tracking, true).is_none());
    assert!(parse_assistant_event(&None, &None, &None, &mut tracking, true).is_none());
    let p = parse_assistant_event(&None, &None, &Some(vec![tool_use("t", "Bash")]), &mut tracking, true).unwrap();
    assert_eq!(p.message.id.len(), 36);
    assert_eq!(p.message.text, "");
}

#[test]
fn todos_drop_malformed_entries() {
    let good = RawTodo {
        content: Some("write".to_string()),
        status: Some("pending".to_string()),
        active_form: FieldValue::Missing,
        active_form_snake: FieldValue::Text("Writing".to_string()),
    };
    let bad = RawTodo {
        content: Some("x".to_string()),
        status: None,
        active_form: FieldValue::Text("X".to_string()),
        active_form_snake: FieldValue::Missing,
    };
    let mut inp = input();
    inp.todos = Some(vec![bad.clone(), good]);
    let todos = parse_todos(&inp).unwrap();
    assert_eq!(todos.len(), 1);
    assert_eq!(todos[0].active_form, "Writing");
    inp.todos = Some(vec![bad]);
    assert!(parse_todos(&inp).is_none());
    inp.todos = None;
    assert!(parse_todos(&inp).is_none());
}

#[test]
fn agent_id_from_json_or_text() {
    assert_eq!(extract_agent_id_from_result("{\"agentId\": \"a-1\"}"), Some("a-1".to_string()));
    assert_eq!(extract_agent_id_from_result("line\r\nagentId:   b-2  \r\nmore"), Some("b-2".to_string()));
    assert_eq!(extract_agent_id_from_result("no id here"), None);
    assert_eq!(extract_agent_id_from_result("{\"agentId\": 5}"), None);
}

#[test]
fn system_record_starts_session_once() {
    let mut tracking = StreamTrackingState::new();
    let rec = StreamRecord::System { transcript_path: Some("/l/s.jsonl".to_string()), session_id: Some("s-1".to_string()) };
    let d = process_event(&rec, &mut tracking, "ui", 200000);
    assert_eq!(d.events.len(), 1);
    assert!(matches!(&d.events[0], BackendEvent::SessionStarted { claude_session_id, .. } if claude_session_id == "s-1"));
    let d = process_event(&rec, &mut tracking, "ui", 200000);
    assert!(d.events.is_empty());
    assert_eq!(tracking.transcript_path, Some("/l/s.jsonl".to_string()));
}

#[test]
fn usage_snapshot_defaults() {
    let mut tracking = StreamTrackingState::new();
    let rec = StreamRecord::Result {
        usage: Some(UsageRecord {
            input_tokens: Some(10),
            output_tokens: None,
            cache_read_input_tokens: Some(3),
            cache_creation_input_tokens: None,
            context_window: None,
        }),
        cost: Some("0.25".to_string()),
    };
    let d = process_event(&rec, &mut tracking, "ui", 123456);
    match &d.events[0] {
        BackendEvent::UsageUpdated { usage, .. } => {
            assert_eq!(usage.input_tokens, 10);
            assert_eq!(usage.output_tokens, 0);
            assert_eq!(usage.cache_read_tokens, 3);
            assert_eq!(usage.context_window, 123456);
            assert_eq!(usage.cost, Some("0.25".to_string()));
        }
        other => panic!("unexpected {:?}", other),
    }
    let none = StreamRecord::Result { usage: None, cost: None };
    assert!(process_event(&none, &mut tracking, "ui", 1).events.is_empty());
}

#[test]
fn error_result_and_parent_update() {
    let mut tracking = StreamTrackingState::new();
    let rec = StreamRecord::User {
        parent_tool_use_id: Some("task-7".to_string()),
        content: UserContent::Items(vec![result("t-1", "boom", true)]),
    };
    let d = process_event(&rec, &mut tracking, "ui", 1);
    assert_eq!(d.events.len(), 2);
    assert!(matches!(&d.events[0], BackendEvent::ToolError { tool_id, error, .. } if tool_id == "t-1" && error == "boom"));
    assert!(matches!(&d.events[1], BackendEvent::ToolUpdated { tool_id, update, .. }
        if tool_id == "t-1" && update.parent_tool_id == Some("task-7".to_string())));
}

#[test]
fn subagent_children_are_linked() {
    let recs = vec![
        assistant("x", vec![tool_use("c-1", "Read"), text("hi"), tool_use("c-2", "Grep")]),
        user(vec![result("c-1", "ok", false)]),
    ];
    let ids = child_tool_ids(&recs);
    assert_eq!(ids, vec!["c-1".to_string(), "c-2".to_string()]);
    let evs = link_subagent_children("ui", &"task-1".to_string(), &ids);
    assert_eq!(evs.len(), 2);
    assert!(matches!(&evs[1], BackendEvent::ToolUpdated { tool_id, update, .. }
        if tool_id == "c-2" && update.parent_tool_id == Some("task-1".to_string())));
}

#[test]
fn interrupt_and_poll_lifecycle() {
    let mut manager = ClaudeManager::new();
    assert_eq!(manager.interrupt_session("nope", &ExitOutcome::Exited(Some(0))), Err("Session not found: nope".to_string()));
    let (_, started) = manager.spawn_session("ui".to_string(), "/w".to_string(), 7, &Some("resume-1".to_string()));
    assert!(matches!(started, Some(BackendEvent::SessionStarted { claude_session_id, .. }) if claude_session_id == "resume-1"));
    assert_eq!(manager.child_pid("ui"), Some(7));
    assert!(manager.is_running("ui", PollOutcome::StillRunning));
    let ended = manager.interrupt_session("ui", &ExitOutcome::WaitFailed("gone".to_string())).unwrap().unwrap();
    assert!(matches!(ended, BackendEvent::SessionEnded { exit_code: None, error: Some(e), .. } if e == "Failed to wait for process: gone"));
    assert_eq!(manager.child_pid("ui"), None);
    assert!(!manager.is_running("ui", PollOutcome::StillRunning));
    assert_eq!(manager.interrupt_session("ui", &ExitOutcome::Exited(Some(0))), Ok(None));
    manager.spawn_session("ui".to_string(), "/w".to_string(), 8, &None);
    assert!(!manager.is_running("ui", PollOutcome::Exited));
    assert!(manager.contains("ui"));
    manager.remove_session("ui");
    assert!(!manager.contains("ui"));
}

#[test]
fn spawn_arguments() {
    let err = build_args(&None, &None, &None, &None);
    assert_eq!(err, Err("Initial prompt required for new session".to_string()));
    let args = build_args(
        &Some("/w/.horseman-mcp.json".to_string()),
        &Some("go".to_string()),
        &Some("sess-1".to_string()),
        &Some("opus".to_string()),
    )
    .unwrap();
    assert_eq!(args, vec![
        "-p", "--output-format", "stream-json", "--verbose",
        "--mcp-config", "/w/.horseman-mcp.json",
        "--permission-prompt-tool", "mcp__horseman__request_permission",
        "--resume", "sess-1", "--model", "opus", "go",
    ].into_iter().map(|s| s.to_string()).collect::<Vec<_>>());
    let resume_only = build_args(&None, &None, &Some("sess-2".to_string()), &None).unwrap();
    assert_eq!(resume_only.len(), 6);
}

#[test]
fn spawn_planning() {
    let mut manager = ClaudeManager::new();
    manager.spawn_session("ui".to_string(), "/w".to_string(), 9, &None);
    assert_eq!(manager.replace_decision("ui", PollOutcome::StillRunning), Some(9));
    assert_eq!(manager.replace_decision("ui", PollOutcome::Exited), None);
    assert_eq!(manager.interrupt_target("ui"), Ok(Some(9)));
    assert_eq!(manager.interrupt_target("zz"), Err("Session not found: zz".to_string()));
    let args = SpawnSessionArgs {
        ui_session_id: "ui".to_string(),
        working_directory: "/w".to_string(),
        initial_prompt: None,
        resume_session: None,
        model: None,
    };
    // The old session is dropped before the missing prompt is reported.
    assert!(manager.prepare_spawn(&args, &None).is_err());
    assert!(!manager.contains("ui"));
    assert_eq!(mcp_config_plan(None, Some("/m".to_string()), None), None);
    assert_eq!(mcp_config_plan(Some(7), None, Some("/f".to_string())), Some((7, "/f".to_string())));
    assert_eq!(mcp_config_plan(Some(7), Some("/m".to_string()), Some("/f".to_string())), Some((7, "/m".to_string())));
    assert_eq!(mcp_config_plan(Some(7), None, None), None);
}

#[test]
fn agent_id_from_field_and_lines() {
    let lines = vec!["x".to_string(), "agentId:  a-3 ".to_string(), "agentId: a-4".to_string()];
    assert_eq!(agent_id_from_parts(None, &lines), Some("a-3".to_string()));
    assert_eq!(agent_id_from_parts(Some("j-1".to_string()), &lines), Some("j-1".to_string()));
    assert_eq!(agent_id_from_parts(None, &vec!["agentid: no".to_string()]), None);
}
