//! What a replayed transcript holds, apart from the identifiers and times that
//! the replay generates: the model that two replays of one log share.
use vstd::prelude::*;
use crate::dispatch::stack_after;
use crate::events::{opt_view, views, Message, Role, ToolCall, ToolStatus};
use crate::reconcile::{explicit_parent, subagent_spec, task_name};
use crate::records::{ContentItem, StreamRecord, ToolInput, UserContent};
use crate::stream::{
    is_task, lemma_task_ids_push, name_or_unknown, opened_as, opened_in_order, task_ids, text_of,
    tool_uses,
};
use crate::text::trim_of;
use crate::tracking::{name_lookup, without, StreamTrackingState};
use crate::transcript::{calls_of, result_for, BufferedResult};

verus! {

/// A tool call without its times.
pub struct CallShape {
    pub id: Seq<char>,
    pub name: Seq<char>,
    pub input: Seq<char>,
    pub status: ToolStatus,
    pub output: Option<Seq<char>>,
    pub error: Option<Seq<char>>,
    pub parent: Option<Seq<char>>,
    pub subagent: Option<(Seq<char>, Seq<char>, Option<Seq<char>>, Option<usize>)>,
}

/// A message without its time; a user message also without its identifier,
/// which the replay makes up.
pub struct MsgShape {
    pub id: Option<Seq<char>>,
    pub role: Role,
    pub text: Seq<char>,
    pub calls: Seq<CallShape>,
    pub streaming: Option<bool>,
}

pub open spec fn call_shape(t: ToolCall) -> CallShape {
    CallShape {
        id: t.id@,
        name: t.name@,
        input: t.input@,
        status: t.status,
        output: opt_view(t.output),
        error: opt_view(t.error),
        parent: opt_view(t.parent_tool_id),
        subagent: match t.subagent {
            Some(i) => Some((i.agent_type@, i.description@, opt_view(i.agent_id), i.tool_count)),
            None => None,
        },
    }
}

pub open spec fn calls_shape(v: Seq<ToolCall>) -> Seq<CallShape> {
    v.map_values(|t: ToolCall| call_shape(t))
}

pub open spec fn msg_shape(m: Message) -> MsgShape {
    MsgShape {
        id: if m.role == Role::User { None } else { Some(m.id@) },
        role: m.role,
        text: m.text@,
        calls: calls_shape(calls_of(m)),
        streaming: m.is_streaming,
    }
}

pub open spec fn msgs_shape(v: Seq<Message>) -> Seq<MsgShape> {
    v.map_values(|m: Message| msg_shape(m))
}

/// The parent rule of `parent_spec`, over the identifiers on the stack.
pub open spec fn parent_v(
    name: Seq<char>,
    input: ToolInput,
    event_parent: Option<Seq<char>>,
    stack: Seq<Seq<char>>,
) -> Option<Seq<char>> {
    if explicit_parent(input) is Some {
        explicit_parent(input)
    } else if event_parent is Some {
        event_parent
    } else if name != task_name() && stack.len() == 1 {
        Some(stack[0])
    } else {
        None
    }
}

/// The calls that the invocations among `items` open, still running, and the
/// stack of open delegating calls afterwards.
pub open spec fn open_calls(items: Seq<ContentItem>, ev: Option<Seq<char>>, stack: Seq<Seq<char>>) -> (
    Seq<CallShape>,
    Seq<Seq<char>>,
)
    decreases items.len(),
{
    if items.len() == 0 {
        (Seq::empty(), stack)
    } else {
        let (prev, st) = open_calls(items.drop_last(), ev, stack);
        match items.last() {
            ContentItem::ToolUse { id, name, input } => {
                let nm = name_or_unknown(name);
                let cid = match id {
                    Some(i) => i@,
                    None => Seq::empty(),
                };
                let c = CallShape {
                    id: cid,
                    name: nm,
                    input: input.raw@,
                    status: ToolStatus::Running,
                    output: None,
                    error: None,
                    parent: parent_v(nm, input, ev, st),
                    subagent: if nm == task_name() {
                        Some((subagent_spec(input).0, subagent_spec(input).1, None, None))
                    } else {
                        None
                    },
                };
                (prev.push(c), if nm == task_name() { st.push(cid) } else { st })
            },
            _ => (prev, st),
        }
    }
}

/// Every invocation among `items` names its call.
pub open spec fn uses_have_ids(items: Seq<ContentItem>) -> bool {
    forall|k: int| 0 <= k < items.len() ==> (#[trigger] items[k] matches ContentItem::ToolUse { id, .. } ==> id is Some)
}

proof fn lemma_uses_prefix(items: Seq<ContentItem>)
    requires
        items.len() > 0,
    ensures
        tool_uses(items) == if items.last() is ToolUse {
            tool_uses(items.drop_last()).push(items.last())
        } else {
            tool_uses(items.drop_last())
        },
{
    reveal(Seq::filter);
}

/// The calls that parsing opens are, apart from times, the ones the model opens.
pub proof fn lemma_opened_shapes(
    items: Seq<ContentItem>,
    calls: Seq<ToolCall>,
    ev: Option<Seq<char>>,
    stack: Seq<String>,
)
    requires
        uses_have_ids(items),
        opened_in_order(calls, tool_uses(items), ev, stack),
    ensures
        calls_shape(calls) == open_calls(items, ev, views(stack)).0,
        views(stack + task_ids(calls)) == open_calls(items, ev, views(stack)).1,
    decreases items.len(),
{
    if items.len() == 0 {
        reveal(Seq::filter);
        assert(tool_uses(items).len() == 0);
        assert(calls =~= Seq::<ToolCall>::empty());
        assert(calls_shape(calls) =~= Seq::<CallShape>::empty());
        assert(task_ids(calls) =~= Seq::<String>::empty());
        assert(stack + task_ids(calls) =~= stack);
    } else {
        let pre = items.drop_last();
        lemma_uses_prefix(items);
        assert(uses_have_ids(pre)) by {
            assert forall|k: int| 0 <= k < pre.len() implies (#[trigger] pre[k] matches ContentItem::ToolUse { id, .. } ==> id is Some) by {
                assert(pre[k] == items[k]);
            }
        }
        if items.last() is ToolUse {
            let n = calls.len() - 1;
            let cp = calls.take(n);
            assert(opened_in_order(cp, tool_uses(pre), ev, stack)) by {
                assert forall|j: int| 0 <= j < cp.len() implies #[trigger] opened_as(
                    cp[j],
                    tool_uses(pre)[j],
                    ev,
                    stack + task_ids(cp.take(j)),
                ) by {
                    assert(cp.take(j) =~= calls.take(j));
                    assert(cp[j] == calls[j]);
                    assert(tool_uses(pre)[j] == tool_uses(items)[j]);
                    assert(opened_as(calls[j], tool_uses(items)[j], ev, stack + task_ids(calls.take(j))));
                }
            }
            lemma_opened_shapes(pre, cp, ev, stack);
            let c = calls[n];
            assert(calls.take(n) == cp);
            assert(opened_as(c, tool_uses(items)[n], ev, stack + task_ids(calls.take(n))));
            assert(tool_uses(items)[n] == items.last());
            assert(items.last() == items[items.len() - 1]);
            assert(calls =~= cp.push(c));
            lemma_task_ids_push(cp, c);
            let st = open_calls(pre, ev, views(stack)).1;
            assert(views(stack + task_ids(cp)) == st);
            assert(st.len() == (stack + task_ids(cp)).len());
            assert(st.len() > 0 ==> st[0] == (stack + task_ids(cp))[0]@);
            assert(calls_shape(calls) =~= calls_shape(cp).push(call_shape(c)));
            if is_task(c) {
                assert(views(stack + task_ids(calls)) =~= views(stack + task_ids(cp)).push(c.id@)) by {
                    assert(stack + task_ids(calls) =~= (stack + task_ids(cp)).push(c.id));
                }
            } else {
                assert(stack + task_ids(calls) =~= stack + task_ids(cp));
            }
        } else {
            lemma_opened_shapes(pre, calls, ev, stack);
        }
    }
}

/// A call with the result buffered for it applied, if it is still running.
pub open spec fn fill(c: CallShape, rs: Seq<BufferedResult>) -> CallShape {
    if c.status == ToolStatus::Running {
        match result_for(rs, c.id) {
            Some(b) => CallShape {
                status: if b.is_error { ToolStatus::Error } else { ToolStatus::Completed },
                output: Some(b.output@),
                error: if b.is_error { Some(b.output@) } else { None },
                ..c
            },
            None => c,
        }
    } else {
        c
    }
}

pub open spec fn fill_all(cs: Seq<CallShape>, rs: Seq<BufferedResult>) -> Seq<CallShape> {
    cs.map_values(|c: CallShape| fill(c, rs))
}

/// The replay's state between records.
pub struct Model {
    pub msgs: Seq<MsgShape>,
    pub results: Seq<BufferedResult>,
    pub last_user: Option<Seq<char>>,
    pub stack: Seq<Seq<char>>,
    pub names: Seq<(Seq<char>, Seq<char>)>,
}

pub open spec fn user_shape(t: Seq<char>) -> MsgShape {
    MsgShape { id: None, role: Role::User, text: t, calls: Seq::empty(), streaming: None }
}

pub open spec fn has_msg(msgs: Seq<MsgShape>, id: Seq<char>) -> bool {
    exists|i: int| 0 <= i < msgs.len() && #[trigger] msgs[i].id == Some(id)
}

/// Adds an assistant message, merged into the earlier one of the same identifier.
pub open spec fn merge(msgs: Seq<MsgShape>, id: Seq<char>, text: Seq<char>, calls: Seq<CallShape>) -> Seq<MsgShape> {
    if has_msg(msgs, id) {
        let i = choose|i: int| 0 <= i < msgs.len() && #[trigger] msgs[i].id == Some(id);
        msgs.update(i, MsgShape { text: msgs[i].text + text, calls: msgs[i].calls + calls, ..msgs[i] })
    } else {
        msgs.push(MsgShape { id: Some(id), role: Role::Assistant, text, calls, streaming: Some(false) })
    }
}

/// The buffered results and the pending plain text after a user record's items.
pub open spec fn absorb_items(
    rs: Seq<BufferedResult>,
    last_user: Option<Seq<char>>,
    items: Seq<ContentItem>,
) -> (Seq<BufferedResult>, Option<Seq<char>>)
    decreases items.len(),
{
    if items.len() == 0 {
        (rs, last_user)
    } else {
        let p = absorb_items(rs, last_user, items.drop_last());
        match items.last() {
            ContentItem::Text { text: Some(t) } => (p.0, Some(t@)),
            ContentItem::ToolResult { tool_use_id: Some(id), is_error, output } => (
                p.0.push(
                    BufferedResult {
                        id,
                        output,
                        is_error: match is_error {
                            Some(e) => e,
                            None => false,
                        },
                    },
                ),
                p.1,
            ),
            _ => p,
        }
    }
}

pub open spec fn id_or_empty(o: Option<String>) -> Seq<char> {
    match o {
        Some(s) => s@,
        None => Seq::empty(),
    }
}

pub open spec fn pairs_view(s: Seq<(String, String)>) -> Seq<(Seq<char>, Seq<char>)> {
    s.map_values(|p: (String, String)| (p.0@, p.1@))
}

pub open spec fn name_lookup_v(s: Seq<(Seq<char>, Seq<char>)>, id: Seq<char>) -> Option<Seq<char>>
    decreases s.len(),
{
    if s.len() == 0 {
        None
    } else if s.last().0 == id {
        Some(s.last().1)
    } else {
        name_lookup_v(s.drop_last(), id)
    }
}

/// The delegating call that a tool-result item closes, by the recorded names.
pub open spec fn closes_v(item: ContentItem, names: Seq<(Seq<char>, Seq<char>)>) -> Option<Seq<char>> {
    match item {
        ContentItem::ToolResult { tool_use_id: Some(id), .. } => {
            if name_lookup_v(names, id@) == Some(task_name()) {
                Some(id@)
            } else {
                None
            }
        },
        _ => None,
    }
}

/// The open delegating calls after a user record's results.
pub open spec fn stack_after_v(
    stack: Seq<Seq<char>>,
    items: Seq<ContentItem>,
    names: Seq<(Seq<char>, Seq<char>)>,
) -> Seq<Seq<char>>
    decreases items.len(),
{
    if items.len() == 0 {
        stack
    } else {
        let prev = stack_after_v(stack, items.drop_last(), names);
        match closes_v(items.last(), names) {
            Some(id) => prev.filter(|x: Seq<char>| x != id),
            None => prev,
        }
    }
}

pub proof fn lemma_name_lookup_v(s: Seq<(String, String)>, id: Seq<char>)
    ensures
        name_lookup(s, id) == name_lookup_v(pairs_view(s), id),
    decreases s.len(),
{
    if s.len() > 0 {
        assert(pairs_view(s).drop_last() =~= pairs_view(s.drop_last()));
        lemma_name_lookup_v(s.drop_last(), id);
    }
}

pub proof fn lemma_without_view(s: Seq<String>, id: Seq<char>)
    ensures
        views(without(s, id)) == views(s).filter(|x: Seq<char>| x != id),
    decreases s.len(),
{
    reveal(Seq::filter);
    if s.len() > 0 {
        lemma_without_view(s.drop_last(), id);
        assert(views(s).drop_last() =~= views(s.drop_last()));
        let w = s.drop_last().filter(|x: String| x@ != id);
        if s.last()@ != id {
            assert(views(w.push(s.last())) =~= views(w).push(s.last()@));
        }
    } else {
        assert(views(without(s, id)) =~= Seq::<Seq<char>>::empty());
    }
}

pub proof fn lemma_stack_after_v(s: Seq<String>, items: Seq<ContentItem>, st: StreamTrackingState)
    ensures
        views(stack_after(s, items, st)) == stack_after_v(views(s), items, pairs_view(st.tool_names@)),
    decreases items.len(),
{
    if items.len() > 0 {
        lemma_stack_after_v(s, items.drop_last(), st);
        match items.last() {
            ContentItem::ToolResult { tool_use_id: Some(id), .. } => {
                lemma_name_lookup_v(st.tool_names@, id@);
                lemma_without_view(stack_after(s, items.drop_last(), st), id@);
            },
            _ => {},
        }
    }
}

/// One record of the replay.
pub open spec fn step(m: Model, r: StreamRecord) -> Model {
    match r {
        StreamRecord::User { content: UserContent::Text(s), .. } => if trim_of(s@).len() > 0 {
            Model { last_user: Some(trim_of(s@)), ..m }
        } else {
            m
        },
        StreamRecord::User { content: UserContent::Items(items), .. } => {
            let a = absorb_items(m.results, m.last_user, items@);
            Model { results: a.0, last_user: a.1, stack: stack_after_v(m.stack, items@, m.names), ..m }
        },
        StreamRecord::Assistant { message_id, parent_tool_use_id, content } => {
            let m1 = match m.last_user {
                Some(t) => Model { msgs: m.msgs.push(user_shape(t)), last_user: None, ..m },
                None => m,
            };
            match content {
                Some(items) => {
                    let opened = open_calls(items@, opt_view(parent_tool_use_id), m1.stack);
                    if text_of(items@).len() == 0 && tool_uses(items@).len() == 0 {
                        m1
                    } else {
                        Model {
                            msgs: merge(
                                m1.msgs,
                                id_or_empty(message_id),
                                text_of(items@),
                                fill_all(opened.0, m1.results),
                            ),
                            stack: opened.1,
                            names: m1.names + opened.0.map_values(|c: CallShape| (c.id, c.name)),
                            ..m1
                        }
                    }
                },
                None => m1,
            }
        },
        _ => m,
    }
}

pub open spec fn empty_model() -> Model {
    Model {
        msgs: Seq::empty(),
        results: Seq::empty(),
        last_user: None,
        stack: Seq::empty(),
        names: Seq::empty(),
    }
}

pub open spec fn model_of(rs: Seq<StreamRecord>) -> Model
    decreases rs.len(),
{
    if rs.len() == 0 {
        empty_model()
    } else {
        step(model_of(rs.drop_last()), rs.last())
    }
}

pub open spec fn settle(s: MsgShape, rs: Seq<BufferedResult>) -> MsgShape {
    MsgShape { calls: fill_all(s.calls, rs), ..s }
}

/// The messages of a replayed log, apart from generated identifiers and times.
pub open spec fn replay_shape(rs: Seq<StreamRecord>) -> Seq<MsgShape> {
    let m = model_of(rs);
    let msgs = match m.last_user {
        Some(t) => m.msgs.push(user_shape(t)),
        None => m.msgs,
    };
    msgs.map_values(|s: MsgShape| settle(s, m.results))
}

/// Every assistant record of the log names its message and its tool calls.
pub open spec fn ids_given(rs: Seq<StreamRecord>) -> bool {
    forall|i: int|
        0 <= i < rs.len() ==> (#[trigger] rs[i] matches StreamRecord::Assistant { message_id, content, .. }
            ==> message_id is Some && (content matches Some(items) ==> uses_have_ids(items@)))
}

/// The index from assistant message identifiers to positions, for `msgs`.
pub open spec fn index_matches(index: Seq<(String, usize)>, msgs: Seq<MsgShape>) -> bool {
    &&& forall|k: int| 0 <= k < index.len() ==> (#[trigger] index[k]).1 < msgs.len()
        && msgs[index[k].1 as int].id == Some(index[k].0@)
    &&& forall|i: int| 0 <= i < msgs.len() && (#[trigger] msgs[i]).id is Some ==> exists|k: int|
        0 <= k < index.len() && #[trigger] index[k].1 == i
    &&& forall|i: int, j: int|
        0 <= i < msgs.len() && 0 <= j < msgs.len() && i != j && (#[trigger] msgs[i]).id is Some
            ==> msgs[i].id != (#[trigger] msgs[j]).id
}

/// A user message, which has no identifier of its own here, leaves the index valid.
pub proof fn lemma_index_push_user(index: Seq<(String, usize)>, msgs: Seq<MsgShape>, t: Seq<char>)
    requires
        index_matches(index, msgs),
    ensures
        index_matches(index, msgs.push(user_shape(t))),
{
    let m2 = msgs.push(user_shape(t));
    assert forall|k: int| 0 <= k < index.len() implies (#[trigger] index[k]).1 < m2.len()
        && m2[index[k].1 as int].id == Some(index[k].0@) by {
        assert(m2[index[k].1 as int] == msgs[index[k].1 as int]);
    }
    assert forall|i: int| 0 <= i < m2.len() && (#[trigger] m2[i]).id is Some implies exists|k: int|
        0 <= k < index.len() && #[trigger] index[k].1 == i by {
        assert(i < msgs.len());
        assert(m2[i] == msgs[i]);
    }
    assert forall|i: int, j: int|
        0 <= i < m2.len() && 0 <= j < m2.len() && i != j && (#[trigger] m2[i]).id is Some
            implies m2[i].id != (#[trigger] m2[j]).id by {
        assert(i < msgs.len());
        assert(m2[i] == msgs[i]);
        if j < msgs.len() {
            assert(m2[j] == msgs[j]);
        }
    }
}

} // verus!
