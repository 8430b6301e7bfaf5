//! The stream reconciler: from raw records to messages, tool calls, todos and
//! usage, with the resolution of each tool call's parent.
use vstd::prelude::*;
use crate::events::{opt_view, views};
use crate::events::{SubagentInfo, TodoItem};
use crate::records::{FieldValue, RawTodo, ToolInput};
use crate::text::{lines, lines_of, owned, starts_with, str_eq, trim, trim_of};

verus! {

/// The tool name that opens a delegated sub-session.
pub open spec fn task_name() -> Seq<char> {
    "Task"@
}

/// The tool name whose input replaces the todo list.
pub open spec fn todo_tool_name() -> Seq<char> {
    "TodoWrite"@
}

/// The field that is read of a pair: the first unless it is absent.
pub open spec fn first_present(a: FieldValue, b: FieldValue) -> FieldValue {
    match a {
        FieldValue::Missing => b,
        _ => a,
    }
}

/// A parent named in the tool's own input.
pub open spec fn explicit_parent(input: ToolInput) -> Option<Seq<char>> {
    match first_present(input.parent_tool_id, input.parent_tool_id_camel) {
        FieldValue::Text(s) => Some(s@),
        _ => None,
    }
}

/// The parent of a newly opened tool call: the one its input names, else the
/// one its record names, else the single open delegating call unless the new
/// call delegates itself; otherwise none.
pub open spec fn parent_spec(
    name: Seq<char>,
    input: ToolInput,
    event_parent: Option<Seq<char>>,
    stack: Seq<String>,
) -> Option<Seq<char>> {
    if explicit_parent(input) is Some {
        explicit_parent(input)
    } else if event_parent is Some {
        event_parent
    } else if name != task_name() && stack.len() == 1 {
        Some(stack[0]@)
    } else {
        None
    }
}

/// Resolves the parent of a newly observed tool invocation.
pub fn resolve_parent_tool_id(
    tool_name: &str,
    tool_input: &ToolInput,
    event_parent_id: &Option<String>,
    active_task_stack: &Vec<String>,
) -> (r: Option<String>)
    ensures
        opt_view(r) == parent_spec(tool_name@, *tool_input, opt_view(*event_parent_id), active_task_stack@),
{
    let field = match &tool_input.parent_tool_id {
        FieldValue::Missing => &tool_input.parent_tool_id_camel,
        other => other,
    };
    if let FieldValue::Text(p) = field {
        return Some(p.clone());
    }
    if let Some(p) = event_parent_id {
        return Some(p.clone());
    }
    proof {
        reveal_strlit("Task");
    }
    if !str_eq(tool_name, "Task") && active_task_stack.len() == 1 {
        return Some(active_task_stack[0].clone());
    }
    None
}

/// With exactly one delegating call open and no explicit parent, a new
/// non-delegating call becomes that call's child; with none or several open,
/// it has no parent unless its input names one.
pub proof fn lemma_single_delegator_heuristic(
    name: Seq<char>,
    input: ToolInput,
    stack: Seq<String>,
)
    ensures
        explicit_parent(input) is None && stack.len() == 1 && name != task_name()
            ==> parent_spec(name, input, None, stack) == Some(stack[0]@),
        explicit_parent(input) is None && stack.len() != 1
            ==> parent_spec(name, input, None, stack) is None,
        explicit_parent(input) is Some
            ==> parent_spec(name, input, None, stack) == explicit_parent(input),
{
}

/// What a delegating call's input says of its sub-agent.
pub open spec fn subagent_spec(input: ToolInput) -> (Seq<char>, Seq<char>) {
    (
        match input.subagent_type {
            Some(t) => t@,
            None => "Task"@,
        },
        match input.description {
            Some(d) => d@,
            None => Seq::empty(),
        },
    )
}

/// The sub-agent information of a delegating call, before its result is known.
pub fn extract_subagent_info(input: &ToolInput) -> (r: SubagentInfo)
    ensures
        (r.agent_type@, r.description@) == subagent_spec(*input),
        r.agent_id is None,
        r.tool_count is None,
{
    proof {
        reveal_strlit("Task");
    }
    let agent_type = match &input.subagent_type {
        Some(t) => t.clone(),
        None => owned("Task"),
    };
    let description = match &input.description {
        Some(d) => d.clone(),
        None => String::new(),
    };
    SubagentInfo { agent_type, description, agent_id: None, tool_count: None }
}

/// A todo entry when it is well formed: content, status and an active form,
/// all strings.
pub open spec fn todo_of(t: RawTodo) -> Option<(Seq<char>, Seq<char>, Seq<char>)> {
    match (t.content, t.status, first_present(t.active_form, t.active_form_snake)) {
        (Some(c), Some(s), FieldValue::Text(a)) => Some((c@, s@, a@)),
        _ => None,
    }
}

pub open spec fn todo_view(t: TodoItem) -> (Seq<char>, Seq<char>, Seq<char>) {
    (t.content@, t.status@, t.active_form@)
}

/// The todo list that an input replaces the current one with: its well-formed
/// entries, none when there are none.
pub open spec fn todos_spec(input: ToolInput) -> Option<Seq<(Seq<char>, Seq<char>, Seq<char>)>> {
    match input.todos {
        Some(l) => {
            let kept = l@.filter_map(|t: RawTodo| todo_of(t));
            if kept.len() == 0 {
                None
            } else {
                Some(kept)
            }
        },
        None => None,
    }
}

pub open spec fn todos_view(o: Option<Vec<TodoItem>>) -> Option<Seq<(Seq<char>, Seq<char>, Seq<char>)>> {
    match o {
        Some(v) => Some(v@.map_values(|t: TodoItem| todo_view(t))),
        None => None,
    }
}

fn todo_from(t: &RawTodo) -> (r: Option<TodoItem>)
    ensures
        match r {
            Some(item) => todo_of(*t) == Some(todo_view(item)),
            None => todo_of(*t) is None,
        },
{
    let active = match &t.active_form {
        FieldValue::Missing => &t.active_form_snake,
        other => other,
    };
    match (&t.content, &t.status, active) {
        (Some(c), Some(s), FieldValue::Text(a)) => Some(
            TodoItem { content: c.clone(), status: s.clone(), active_form: a.clone() },
        ),
        _ => None,
    }
}

/// The todo list carried by a todo tool's input; malformed entries are dropped
/// one by one, and an empty result is no update.
pub fn parse_todos(input: &ToolInput) -> (r: Option<Vec<TodoItem>>)
    ensures
        todos_view(r) == todos_spec(*input),
{
    match &input.todos {
        None => None,
        Some(raw) => {
            let mut out: Vec<TodoItem> = Vec::new();
            let mut i: usize = 0;
            while i < raw.len()
                invariant
                    i <= raw@.len(),
                    out@.map_values(|t: TodoItem| todo_view(t))
                        == raw@.take(i as int).filter_map(|t: RawTodo| todo_of(t)),
                decreases raw@.len() - i,
            {
                let item = todo_from(&raw[i]);
                proof {
                    raw@.lemma_filter_map_take_succ(|t: RawTodo| todo_of(t), i as int);
                }
                if let Some(todo) = item {
                    out.push(todo);
                }
                assert(out@.map_values(|t: TodoItem| todo_view(t))
                    =~= raw@.take(i + 1).filter_map(|t: RawTodo| todo_of(t)));
                i = i + 1;
            }
            assert(raw@.take(raw@.len() as int) =~= raw@);
            if out.len() == 0 {
                None
            } else {
                Some(out)
            }
        },
    }
}

/// The string that a JSON document holds under a top-level key.
pub uninterp spec fn json_str_field_of(s: Seq<char>, key: Seq<char>) -> Option<Seq<char>>;

/// Relies on `serde_json::from_str`, `Value::get` and `Value::as_str`: the
/// string under `key` when the text parses as a JSON object that has one,
/// which depends on the text and the key alone.
#[verifier::external_body]
fn json_str_field(content: &str, key: &str) -> (r: Option<String>)
    ensures
        opt_view(r) == json_str_field_of(content@, key@),
{
    serde_json::from_str::<serde_json::Value>(content)
        .ok()
        .and_then(|v| v.get(key).and_then(|a| a.as_str()).map(|a| a.to_string()))
}

pub open spec fn agent_key() -> Seq<char> {
    "agentId"@
}

pub open spec fn agent_prefix() -> Seq<char> {
    "agentId: "@
}

/// The first line that starts with the agent prefix, what follows the prefix,
/// trimmed.
pub open spec fn first_agent_line(ls: Seq<Seq<char>>) -> Option<Seq<char>>
    decreases ls.len(),
{
    if ls.len() == 0 {
        None
    } else if agent_prefix().len() <= ls[0].len()
        && ls[0].subrange(0, agent_prefix().len() as int) == agent_prefix() {
        Some(trim_of(ls[0].subrange(agent_prefix().len() as int, ls[0].len() as int)))
    } else {
        first_agent_line(ls.drop_first())
    }
}

/// The agent named by a result whose structured `agentId` field is
/// `json_field` and whose lines are `ls`: the field first, else the first
/// `agentId: <value>` line.
pub open spec fn agent_from_parts(json_field: Option<Seq<char>>, ls: Seq<Seq<char>>) -> Option<Seq<char>> {
    if json_field is Some {
        json_field
    } else {
        first_agent_line(ls)
    }
}

/// The external agent identifier of a delegating call's result: a structured
/// field first, else an `agentId: <value>` line.
pub open spec fn agent_id_spec(content: Seq<char>) -> Option<Seq<char>> {
    agent_from_parts(json_str_field_of(content, agent_key()), lines_of(content))
}

/// The agent identifier, given the result's structured `agentId` field and
/// its lines.
pub fn agent_id_from_parts(json_field: Option<String>, ls: &Vec<String>) -> (r: Option<String>)
    ensures
        opt_view(r) == agent_from_parts(opt_view(json_field), views(ls@)),
{
    if json_field.is_some() {
        return json_field;
    }
    let ghost lv = views(ls@);
    proof {
        reveal_strlit("agentId: ");
        assert(agent_prefix().len() == 9);
        assert(lv.skip(0) =~= lv);
    }
    let mut i: usize = 0;
    while i < ls.len()
        invariant
            i <= ls@.len(),
            lv == views(ls@),
            first_agent_line(lv) == first_agent_line(lv.skip(i as int)),
            agent_prefix().len() == 9,
            json_field is None,
        decreases ls@.len() - i,
    {
        let line = ls[i].as_str();
        assert(lv.skip(i as int)[0] == lv[i as int]);
        assert(lv.skip(i as int).drop_first() =~= lv.skip(i + 1));
        if starts_with(line, "agentId: ") {
            let n = line.unicode_len();
            let rest = line.substring_char(9, n);
            assert(rest@ == lv[i as int].subrange(agent_prefix().len() as int, lv[i as int].len() as int));
            return Some(trim(rest));
        }
        i = i + 1;
    }
    assert(lv.skip(i as int).len() == 0);
    None
}

/// Extracts the external agent identifier from a delegating call's result.
pub fn extract_agent_id_from_result(content: &str) -> (r: Option<String>)
    ensures
        opt_view(r) == agent_id_spec(content@),
{
    proof {
        reveal_strlit("agentId");
    }
    let field = json_str_field(content, "agentId");
    let ls = lines(content);
    assert(views(ls@) =~= lines_of(content@));
    agent_id_from_parts(field, &ls)
}

} // verus!
