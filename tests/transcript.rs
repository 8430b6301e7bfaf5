use horseman::events::{Role, ToolStatus};
use horseman::records::{ContentItem, FieldValue, StreamRecord, ToolInput, UsageRecord, UserContent};
use horseman::transcript::{
    parse_transcript_content, parse_transcript_with_subagents, replay_subagent, subagent_agent_ids,
    TranscriptParseResult,
};

fn input() -> ToolInput {
    ToolInput {
        raw: "{}".to_string(),
        parent_tool_id: FieldValue::Missing,
        parent_tool_id_camel: FieldValue::Missing,
        subagent_type: None,
        description: None,
        todos: None,
        questions: None,
    }
}

fn tool_use(id: &str, name: &str) -> ContentItem {
    ContentItem::ToolUse { id: Some(id.to_string()), name: Some(name.to_string()), input: input() }
}

fn assistant(id: &str, items: Vec<ContentItem>) -> StreamRecord {
    StreamRecord::Assistant { message_id: Some(id.to_string()), parent_tool_use_id: None, content: Some(items) }
}

fn result(id: &str, out: &str, err: bool) -> StreamRecord {
    StreamRecord::User {
        parent_tool_use_id: None,
        content: UserContent::Items(vec![ContentItem::ToolResult {
            tool_use_id: Some(id.to_string()),
            is_error: Some(err),
            output: out.to_string(),
        }]),
    }
}

fn all_calls(r: &TranscriptParseResult) -> Vec<(String, ToolStatus, Option<String>, Option<String>)> {
    let mut v = Vec::new();
    for m in &r.messages {
        if let Some(calls) = &m.tool_calls {
            for t in calls {
                v.push((t.id.clone(), t.status, t.output.clone(), t.parent_tool_id.clone()));
            }
        }
    }
    v
}

#[test]
fn results_apply_regardless_of_order() {
    let recs = vec![
        result("early", "before", false),
        assistant("m1", vec![tool_use("early", "Read"), tool_use("late", "Bash"), tool_use("never", "Grep")]),
        result("late", "bad", true),
    ];
    let r = parse_transcript_content(&recs, 200000);
    let calls = all_calls(&r);
    assert_eq!(calls.len(), 3);
    assert_eq!(calls[0].1, ToolStatus::Completed);
    assert_eq!(calls[0].2, Some("before".to_string()));
    assert_eq!(calls[1].1, ToolStatus::Error);
    assert_eq!(calls[2].1, ToolStatus::Running);
    assert_eq!(calls[2].2, None);
}

#[test]
fn replay_is_idempotent() {
    let recs = vec![
        StreamRecord::User { parent_tool_use_id: None, content: UserContent::Text("  hello  ".to_string()) },
        assistant("m1", vec![ContentItem::Text { text: Some("a".to_string()) }, tool_use("t1", "Task")]),
        assistant("m1", vec![ContentItem::Text { text: Some("b".to_string()) }, tool_use("t2", "Read")]),
        result("t2", "out", false),
        StreamRecord::Summary { summary: Some("compacted".to_string()) },
    ];
    let a = parse_transcript_content(&recs, 200000);
    let b = parse_transcript_content(&recs, 200000);
    assert_eq!(a.messages.len(), b.messages.len());
    assert_eq!(all_calls(&a), all_calls(&b));
    for (x, y) in a.messages.iter().zip(b.messages.iter()) {
        assert_eq!(x.role, y.role);
        assert_eq!(x.text, y.text);
    }
    assert_eq!(a.summaries, b.summaries);
    // The synthetic user message, then one merged assistant message.
    assert_eq!(a.messages.len(), 2);
    assert_eq!(a.messages[0].role, Role::User);
    assert_eq!(a.messages[0].text, "hello");
    assert_eq!(a.messages[1].text, "ab");
    assert_eq!(a.messages[1].is_streaming, Some(false));
    assert_eq!(a.summaries[0].summary, "compacted");
    let calls = all_calls(&a);
    assert_eq!(calls[1].3, Some("t1".to_string()));
}

#[test]
fn trailing_user_text_and_usage() {
    let recs = vec![
        StreamRecord::Result {
            usage: Some(UsageRecord {
                input_tokens: Some(1),
                output_tokens: Some(2),
                cache_read_input_tokens: None,
                cache_creation_input_tokens: None,
                context_window: Some(1000),
            }),
            cost: Some("1.5".to_string()),
        },
        StreamRecord::User { parent_tool_use_id: None, content: UserContent::Text("bye".to_string()) },
    ];
    let r = parse_transcript_content(&recs, 200000);
    assert_eq!(r.messages.len(), 1);
    assert_eq!(r.messages[0].text, "bye");
    let usage = r.usage.unwrap();
    assert_eq!(usage.output_tokens, 2);
    assert_eq!(usage.context_window, 1000);
    assert_eq!(r.total_cost, Some("1.5".to_string()));
}

#[test]
fn subagent_tools_are_stitched() {
    let recs = vec![
        assistant("m1", vec![tool_use("task-1", "Task")]),
        result("task-1", "finished\nagentId: ag7", false),
    ];
    let main = parse_transcript_content(&recs, 200000);
    assert_eq!(subagent_agent_ids(&main), vec!["ag7".to_string()]);
    let sub = replay_subagent(
        "ag7".to_string(),
        &vec![assistant("s1", vec![tool_use("c1", "Read"), tool_use("c2", "Grep")])],
        200000,
    );
    let other = replay_subagent("zz".to_string(), &vec![assistant("s9", vec![tool_use("x9", "Read")])], 200000);
    let r = parse_transcript_with_subagents(main, &vec![other, sub]);
    assert_eq!(r.subagent_tools.len(), 2);
    assert_eq!(r.subagent_tools[0].parent_tool_id, Some("task-1".to_string()));
    let task = &r.messages[0].tool_calls.as_ref().unwrap()[0];
    assert_eq!(task.subagent.as_ref().unwrap().tool_count, Some(2));
}

#[test]
fn replay_closes_finished_delegations() {
    let recs = vec![
        assistant("m1", vec![tool_use("task-1", "Task")]),
        assistant("m2", vec![tool_use("inner", "Read")]),
        result("task-1", "done", false),
        assistant("m3", vec![tool_use("after", "Read")]),
    ];
    let r = parse_transcript_content(&recs, 200000);
    let calls = all_calls(&r);
    assert_eq!(calls[1].0, "inner");
    assert_eq!(calls[1].3, Some("task-1".to_string()));
    assert_eq!(calls[2].0, "after");
    assert_eq!(calls[2].3, None);
}
