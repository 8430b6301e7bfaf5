//! Live handling of assistant records: building the message and opening its
//! tool calls against the session's tracking state.
use vstd::prelude::*;
use crate::events::{copy_calls, opt_view, Message, Role, TodoItem, ToolCall, ToolStatus};
use crate::reconcile::{
    extract_subagent_info, parent_spec, parse_todos, resolve_parent_tool_id, subagent_spec,
    task_name, todo_tool_name, todos_spec, todos_view,
};
use crate::records::{ContentItem, ToolInput};
use crate::text::{fresh_id, now_stamp, owned, str_eq};
use crate::tracking::StreamTrackingState;

verus! {

/// The free text of a record's items, in arrival order.
pub open spec fn text_of(items: Seq<ContentItem>) -> Seq<char>
    decreases items.len(),
{
    if items.len() == 0 {
        Seq::empty()
    } else {
        text_of(items.drop_last()) + match items.last() {
            ContentItem::Text { text: Some(t) } => t@,
            _ => Seq::empty(),
        }
    }
}

pub open spec fn is_tool_use(c: ContentItem) -> bool {
    c is ToolUse
}

/// The tool invocations among a record's items.
pub open spec fn tool_uses(items: Seq<ContentItem>) -> Seq<ContentItem> {
    items.filter(|c: ContentItem| is_tool_use(c))
}

pub open spec fn is_task(t: ToolCall) -> bool {
    t.name@ == task_name()
}

/// The identifiers of the delegating calls among `calls`, in order.
pub open spec fn task_ids(calls: Seq<ToolCall>) -> Seq<String> {
    calls.filter(|t: ToolCall| is_task(t)).map_values(|t: ToolCall| t.id)
}

pub open spec fn name_or_unknown(n: Option<String>) -> Seq<char> {
    match n {
        Some(s) => s@,
        None => "unknown"@,
    }
}

/// `t` is the running tool call opened for the invocation `u`, while `stack`
/// was the stack of open delegating calls.
pub open spec fn opened_as(
    t: ToolCall,
    u: ContentItem,
    event_parent: Option<Seq<char>>,
    stack: Seq<String>,
) -> bool {
    match u {
        ContentItem::ToolUse { id, name, input } => {
            &&& (id is Some ==> t.id@ == id.unwrap()@)
            &&& t.name@ == name_or_unknown(name)
            &&& t.input@ == input.raw@
            &&& t.status == ToolStatus::Running
            &&& t.output is None
            &&& t.error is None
            &&& t.ended_at is None
            &&& t.started_at is Some
            &&& opt_view(t.parent_tool_id) == parent_spec(t.name@, input, event_parent, stack)
            &&& if is_task(t) {
                t.subagent is Some
                    && (t.subagent.unwrap().agent_type@, t.subagent.unwrap().description@)
                    == subagent_spec(input)
                    && t.subagent.unwrap().agent_id is None
                    && t.subagent.unwrap().tool_count is None
            } else {
                t.subagent is None
            }
        },
        _ => false,
    }
}

/// The todo list that the last well-formed todo tool among `items` carries.
pub open spec fn todos_of_items(items: Seq<ContentItem>) -> Option<
    Seq<(Seq<char>, Seq<char>, Seq<char>)>,
>
    decreases items.len(),
{
    if items.len() == 0 {
        None
    } else {
        match items.last() {
            ContentItem::ToolUse { id, name: Some(n), input } => {
                if n@ == todo_tool_name() && todos_spec(input) is Some {
                    todos_spec(input)
                } else {
                    todos_of_items(items.drop_last())
                }
            },
            _ => todos_of_items(items.drop_last()),
        }
    }
}

/// A record whose items carry a todo list has a tool invocation.
pub proof fn lemma_todos_need_a_tool(items: Seq<ContentItem>)
    requires
        todos_of_items(items) is Some,
    ensures
        tool_uses(items).len() > 0,
    decreases items.len(),
{
    reveal(Seq::filter);
    if items.len() > 0 {
        let pre = items.drop_last();
        if items.last() is ToolUse {
            assert(tool_uses(items) == tool_uses(pre).push(items.last()));
        } else {
            lemma_todos_need_a_tool(pre);
            assert(tool_uses(items) == tool_uses(pre));
        }
    }
}

/// What an assistant record yields: the message, its tool calls, and a new
/// todo list if it carries one.
pub struct ParsedAssistant {
    pub message: Message,
    pub tool_calls: Vec<ToolCall>,
    pub todos: Option<Vec<TodoItem>>,
}

/// Opens one tool call: resolves its parent, records its name and, for a
/// delegating call, pushes it on the stack.
fn open_tool_call(
    id: &Option<String>,
    name: &Option<String>,
    input: &ToolInput,
    event_parent: &Option<String>,
    tracking: &mut StreamTrackingState,
) -> (r: ToolCall)
    ensures
        opened_as(
            r,
            ContentItem::ToolUse { id: *id, name: *name, input: *input },
            opt_view(*event_parent),
            old(tracking).active_task_stack@,
        ),
        final(tracking).tool_names@ == old(tracking).tool_names@.push((r.id, r.name)),
        final(tracking).active_task_stack@ == if is_task(r) {
            old(tracking).active_task_stack@.push(r.id)
        } else {
            old(tracking).active_task_stack@
        },
        final(tracking).transcript_path == old(tracking).transcript_path,
        final(tracking).claude_session_id == old(tracking).claude_session_id,
{
    let tool_id = match id {
        Some(s) => s.clone(),
        None => fresh_id(),
    };
    proof {
        reveal_strlit("unknown");
        reveal_strlit("Task");
    }
    let tool_name = match name {
        Some(s) => s.clone(),
        None => owned("unknown"),
    };
    let parent = resolve_parent_tool_id(
        tool_name.as_str(),
        input,
        event_parent,
        &tracking.active_task_stack,
    );
    let ghost names_before = tracking.tool_names@;
    tracking.record_tool(tool_id.clone(), tool_name.clone());
    assert(tracking.tool_names@ == names_before.push((tool_id, tool_name)));
    let subagent = if str_eq(tool_name.as_str(), "Task") {
        tracking.push_task(tool_id.clone());
        Some(extract_subagent_info(input))
    } else {
        None
    };
    ToolCall {
        id: tool_id,
        name: tool_name,
        input: input.raw.clone(),
        status: ToolStatus::Running,
        output: None,
        error: None,
        parent_tool_id: parent,
        started_at: Some(now_stamp()),
        ended_at: None,
        subagent,
    }
}

pub open spec fn name_entry(t: ToolCall) -> (String, String) {
    (t.id, t.name)
}

/// The tracking state after opening `calls`, from `before`.
pub open spec fn opened_all(
    before: StreamTrackingState,
    after: StreamTrackingState,
    calls: Seq<ToolCall>,
) -> bool {
    &&& after.tool_names@ == before.tool_names@ + calls.map_values(|t: ToolCall| name_entry(t))
    &&& after.active_task_stack@ == before.active_task_stack@ + task_ids(calls)
    &&& after.transcript_path == before.transcript_path
    &&& after.claude_session_id == before.claude_session_id
}

/// Each of `calls` was opened for the matching invocation of `uses`, with the
/// delegating calls opened before it on the stack.
pub open spec fn opened_in_order(
    calls: Seq<ToolCall>,
    uses: Seq<ContentItem>,
    event_parent: Option<Seq<char>>,
    stack: Seq<String>,
) -> bool {
    &&& calls.len() == uses.len()
    &&& forall|j: int|
        0 <= j < calls.len() ==> #[trigger] opened_as(
            calls[j],
            uses[j],
            event_parent,
            stack + task_ids(calls.take(j)),
        )
}

pub proof fn lemma_task_ids_push(calls: Seq<ToolCall>, t: ToolCall)
    ensures
        task_ids(calls.push(t)) == if is_task(t) {
            task_ids(calls).push(t.id)
        } else {
            task_ids(calls)
        },
{
    reveal(Seq::filter);
    assert(calls.push(t).drop_last() =~= calls);
    let f = calls.filter(|t: ToolCall| is_task(t));
    if is_task(t) {
        assert(f.push(t).map_values(|t: ToolCall| t.id) =~= f.map_values(|t: ToolCall| t.id).push(
            t.id,
        ));
    }
}

pub proof fn lemma_tool_uses_step(items: Seq<ContentItem>, i: int)
    requires
        0 <= i < items.len(),
    ensures
        tool_uses(items.take(i + 1)) == if is_tool_use(items[i]) {
            tool_uses(items.take(i)).push(items[i])
        } else {
            tool_uses(items.take(i))
        },
        text_of(items.take(i + 1)) == text_of(items.take(i)) + match items[i] {
            ContentItem::Text { text: Some(t) } => t@,
            _ => Seq::empty(),
        },
        todos_of_items(items.take(i + 1)) == match items[i] {
            ContentItem::ToolUse { id, name: Some(n), input } => {
                if n@ == todo_tool_name() && todos_spec(input) is Some {
                    todos_spec(input)
                } else {
                    todos_of_items(items.take(i))
                }
            },
            _ => todos_of_items(items.take(i)),
        },
{
    reveal(Seq::filter);
    assert(items.take(i + 1).drop_last() =~= items.take(i));
    assert(items.take(i + 1).last() == items[i]);
}

/// What parsing an assistant record promises, from the tracking state
/// `before` to `after`.
pub open spec fn assistant_parsed(
    r: Option<ParsedAssistant>,
    message_id: Option<String>,
    event_parent_id: Option<String>,
    content: Option<Vec<ContentItem>>,
    before: StreamTrackingState,
    after: StreamTrackingState,
    is_streaming: bool,
) -> bool {
    &&& r is None ==> after.tool_names@ == before.tool_names@
        && after.active_task_stack@ == before.active_task_stack@
        && after.transcript_path == before.transcript_path
        && after.claude_session_id == before.claude_session_id
    &&& match content {
        None => r is None,
        Some(items) => {
            &&& (r is None <==> (text_of(items@).len() == 0 && tool_uses(items@).len() == 0))
            &&& r matches Some(p) ==> {
                &&& opened_in_order(
                    p.tool_calls@,
                    tool_uses(items@),
                    opt_view(event_parent_id),
                    before.active_task_stack@,
                )
                &&& opened_all(before, after, p.tool_calls@)
                &&& todos_view(p.todos) == todos_of_items(items@)
                &&& p.message.role == Role::Assistant
                &&& p.message.text@ == text_of(items@)
                &&& (message_id is Some ==> p.message.id@ == message_id.unwrap()@)
                &&& (p.message.tool_calls is None <==> p.tool_calls@.len() == 0)
                &&& (p.message.tool_calls matches Some(v) ==> v@ == p.tool_calls@)
                &&& p.message.is_streaming == Some(is_streaming)
            }
        },
    }
}

/// Builds the message of an assistant record and opens its tool calls; none
/// when the record has no content list, or neither text nor tool calls.
pub fn parse_assistant_event(
    message_id: &Option<String>,
    event_parent_id: &Option<String>,
    content: &Option<Vec<ContentItem>>,
    tracking: &mut StreamTrackingState,
    is_streaming: bool,
) -> (r: Option<ParsedAssistant>)
    ensures
        assistant_parsed(r, *message_id, *event_parent_id, *content, *old(tracking), *final(tracking), is_streaming),
{
    let items = match content {
        Some(items) => items,
        None => return None,
    };
    let ghost before = *tracking;
    let ghost ev = opt_view(*event_parent_id);
    let mut text = String::new();
    let mut calls: Vec<ToolCall> = Vec::new();
    let mut todos: Option<Vec<TodoItem>> = None;
    proof {
        reveal_strlit("TodoWrite");
        assert(calls@.map_values(|t: ToolCall| name_entry(t)) =~= Seq::<(String, String)>::empty());
        assert(before.tool_names@ + Seq::<(String, String)>::empty() =~= before.tool_names@);
        reveal(Seq::filter);
        assert(task_ids(calls@) =~= Seq::<String>::empty());
        assert(before.active_task_stack@ + Seq::<String>::empty() =~= before.active_task_stack@);
        assert(items@.take(0) =~= Seq::<ContentItem>::empty());
        assert(text@ =~= text_of(items@.take(0)));
    }
    let mut i: usize = 0;
    while i < items.len()
        invariant
            i <= items@.len(),
            text@ == text_of(items@.take(i as int)),
            opened_in_order(calls@, tool_uses(items@.take(i as int)), ev, before.active_task_stack@),
            opened_all(before, *tracking, calls@),
            todos_view(todos) == todos_of_items(items@.take(i as int)),
            ev == opt_view(*event_parent_id),
            before == *old(tracking),
        decreases items@.len() - i,
    {
        proof {
            lemma_tool_uses_step(items@, i as int);
        }
        match &items[i] {
            ContentItem::Text { text: Some(t) } => {
                text.append(t.as_str());
            },
            ContentItem::ToolUse { id, name, input } => {
                let ghost calls_before = calls@;
                let ghost uses_before = tool_uses(items@.take(i as int));
                let ghost tr_before = *tracking;
                let t = open_tool_call(id, name, input, event_parent_id, tracking);
                if let Some(n) = name {
                    if str_eq(n.as_str(), "TodoWrite") {
                        if let Some(parsed) = parse_todos(input) {
                            todos = Some(parsed);
                        }
                    }
                }
                proof {
                    lemma_task_ids_push(calls_before, t);
                    assert(calls_before.push(t).take(calls_before.len() as int) =~= calls_before);
                    assert forall|j: int| 0 <= j < calls_before.len() implies calls_before.push(t).take(j)
                        =~= calls_before.take(j) by {}
                    assert(calls_before.push(t).map_values(|t: ToolCall| name_entry(t))
                        =~= calls_before.map_values(|t: ToolCall| name_entry(t)).push(name_entry(t)));
                    assert(before.tool_names@ + calls_before.push(t).map_values(|t: ToolCall| name_entry(t))
                        =~= tr_before.tool_names@.push(name_entry(t)));
                    if is_task(t) {
                        assert(before.active_task_stack@ + task_ids(calls_before).push(t.id)
                            =~= tr_before.active_task_stack@.push(t.id));
                    }
                }
                calls.push(t);
                proof {
                    let nu = tool_uses(items@.take(i + 1));
                    assert forall|j: int| 0 <= j < calls@.len() implies #[trigger] opened_as(
                        calls@[j],
                        nu[j],
                        ev,
                        before.active_task_stack@ + task_ids(calls@.take(j)),
                    ) by {
                        if j < calls_before.len() {
                            assert(calls@.take(j) =~= calls_before.take(j));
                            assert(nu[j] == uses_before[j]);
                        } else {
                            assert(calls@.take(j) =~= calls_before);
                        }
                    }
                }
            },
            _ => {},
        }
        i = i + 1;
    }
    proof {
        assert(items@.take(items@.len() as int) =~= items@);
    }
    if text.unicode_len() == 0 && calls.len() == 0 {
        return None;
    }
    let id = match message_id {
        Some(m) => m.clone(),
        None => fresh_id(),
    };
    let message = Message {
        id,
        role: Role::Assistant,
        text,
        tool_calls: if calls.len() == 0 {
            None
        } else {
            Some(copy_calls(&calls))
        },
        is_streaming: Some(is_streaming),
        timestamp: now_stamp(),
    };
    Some(ParsedAssistant { message, tool_calls: calls, todos })
}

} // verus!
