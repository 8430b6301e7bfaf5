//! Live dispatch: one stream record in, the notifications it causes out, with
//! the session's tracking state brought up to date.
use vstd::prelude::*;
use crate::events::{
    all_for, notices, opt_view, parent_updates_only, views, BackendEvent, Notice, SessionUsage, ToolUpdate,
};
use crate::reconcile::{agent_id_spec, extract_agent_id_from_result, task_name};
use crate::records::{ContentItem, StreamRecord, UsageRecord, UserContent};
use crate::stream::{assistant_parsed, parse_assistant_event, ParsedAssistant};
use crate::text::{copy_opt, owned, str_eq};
use crate::tracking::{without, StreamTrackingState};

verus! {

/// A sub-agent transcript to read: the delegating call, its agent, and the
/// session transcript that the sub-agent's file sits beside.
#[derive(Clone, Debug, PartialEq, Eq)]
pub struct SubagentLookup {
    pub task_id: String,
    pub agent_id: String,
    pub transcript_path: String,
}

/// The outcome of one record: notifications in publishing order, and the
/// sub-agent transcripts whose children should be linked afterwards.
pub struct Dispatch {
    pub events: Vec<BackendEvent>,
    pub lookups: Vec<SubagentLookup>,
}

pub open spec fn lookup_view(l: SubagentLookup) -> (Seq<char>, Seq<char>, Seq<char>) {
    (l.task_id@, l.agent_id@, l.transcript_path@)
}

/// The notifications of one tool-result item.
pub open spec fn result_notices(item: ContentItem, parent: Option<Seq<char>>) -> Seq<Notice> {
    match item {
        ContentItem::ToolResult { tool_use_id: Some(id), is_error, output } => {
            let first = if is_error == Some(true) {
                Notice::Failed(id@, output@)
            } else {
                Notice::Completed(id@, output@)
            };
            match parent {
                Some(p) => seq![first, Notice::ParentSet(id@, Some(p))],
                None => seq![first],
            }
        },
        _ => Seq::empty(),
    }
}

pub open spec fn results_notices(items: Seq<ContentItem>, parent: Option<Seq<char>>) -> Seq<Notice>
    decreases items.len(),
{
    if items.len() == 0 {
        Seq::empty()
    } else {
        results_notices(items.drop_last(), parent) + result_notices(items.last(), parent)
    }
}

/// The delegating call that a tool-result item closes, if it closes one.
pub open spec fn closes_task(item: ContentItem, st: StreamTrackingState) -> Option<Seq<char>> {
    match item {
        ContentItem::ToolResult { tool_use_id: Some(id), .. } => {
            if st.name_of(id@) == Some(task_name()) {
                Some(id@)
            } else {
                None
            }
        },
        _ => None,
    }
}

pub open spec fn stack_after(stack: Seq<String>, items: Seq<ContentItem>, st: StreamTrackingState) -> Seq<String>
    decreases items.len(),
{
    if items.len() == 0 {
        stack
    } else {
        let prev = stack_after(stack, items.drop_last(), st);
        match closes_task(items.last(), st) {
            Some(id) => without(prev, id),
            None => prev,
        }
    }
}

pub open spec fn lookup_of(item: ContentItem, st: StreamTrackingState) -> Seq<(Seq<char>, Seq<char>, Seq<char>)> {
    match (closes_task(item, st), item, st.transcript_path) {
        (Some(id), ContentItem::ToolResult { output, .. }, Some(p)) => match agent_id_spec(output@) {
            Some(a) => seq![(id, a, p@)],
            None => Seq::empty(),
        },
        _ => Seq::empty(),
    }
}

pub open spec fn lookups_of(items: Seq<ContentItem>, st: StreamTrackingState) -> Seq<(Seq<char>, Seq<char>, Seq<char>)>
    decreases items.len(),
{
    if items.len() == 0 {
        Seq::empty()
    } else {
        lookups_of(items.drop_last(), st) + lookup_of(items.last(), st)
    }
}

proof fn lemma_results_step(items: Seq<ContentItem>, i: int, parent: Option<Seq<char>>, st: StreamTrackingState, stack: Seq<String>)
    requires
        0 <= i < items.len(),
    ensures
        results_notices(items.take(i + 1), parent) == results_notices(items.take(i), parent) + result_notices(items[i], parent),
        lookups_of(items.take(i + 1), st) == lookups_of(items.take(i), st) + lookup_of(items[i], st),
        stack_after(stack, items.take(i + 1), st) == match closes_task(items[i], st) {
            Some(id) => without(stack_after(stack, items.take(i), st), id),
            None => stack_after(stack, items.take(i), st),
        },
{
    assert(items.take(i + 1).drop_last() =~= items.take(i));
    assert(items.take(i + 1).last() == items[i]);
}

/// Closes the delegating calls whose results a user record carries.
pub fn close_tasks(items: &Vec<ContentItem>, tracking: &mut StreamTrackingState)
    ensures
        final(tracking).active_task_stack@ == stack_after(old(tracking).active_task_stack@, items@, *old(tracking)),
        final(tracking).tool_names == old(tracking).tool_names,
        final(tracking).transcript_path == old(tracking).transcript_path,
        final(tracking).claude_session_id == old(tracking).claude_session_id,
{
    let ghost st = *tracking;
    proof {
        assert(items@.take(0) =~= Seq::<ContentItem>::empty());
    }
    let mut i: usize = 0;
    while i < items.len()
        invariant
            i <= items@.len(),
            tracking.active_task_stack@ == stack_after(st.active_task_stack@, items@.take(i as int), st),
            tracking.tool_names == st.tool_names,
            tracking.transcript_path == st.transcript_path,
            tracking.claude_session_id == st.claude_session_id,
            st == *old(tracking),
        decreases items@.len() - i,
    {
        proof {
            lemma_results_step(items@, i as int, None, st, st.active_task_stack@);
            reveal_strlit("Task");
        }
        if let ContentItem::ToolResult { tool_use_id: Some(id), .. } = &items[i] {
            let name = tracking.tool_name(id.as_str());
            let is_task = match &name {
                Some(n) => str_eq(n.as_str(), "Task"),
                None => false,
            };
            if is_task {
                tracking.remove_task(id.as_str());
            }
        }
        i = i + 1;
    }
    proof {
        assert(items@.take(items@.len() as int) =~= items@);
    }
}

/// Handles the tool results of a user record.
fn dispatch_results(
    items: &Vec<ContentItem>,
    parent: &Option<String>,
    tracking: &mut StreamTrackingState,
    ui_session_id: &str,
) -> (r: Dispatch)
    ensures
        notices(r.events@) == results_notices(items@, opt_view(*parent)),
        all_for(r.events@, ui_session_id@),
        parent_updates_only(r.events@),
        r.lookups@.map_values(|l: SubagentLookup| lookup_view(l)) == lookups_of(items@, *old(tracking)),
        final(tracking).active_task_stack@ == stack_after(old(tracking).active_task_stack@, items@, *old(tracking)),
        final(tracking).tool_names == old(tracking).tool_names,
        final(tracking).transcript_path == old(tracking).transcript_path,
        final(tracking).claude_session_id == old(tracking).claude_session_id,
{
    let ghost st = *tracking;
    let ghost pv = opt_view(*parent);
    let mut events: Vec<BackendEvent> = Vec::new();
    let mut lookups: Vec<SubagentLookup> = Vec::new();
    proof {
        assert(items@.take(0) =~= Seq::<ContentItem>::empty());
        assert(notices(events@) =~= Seq::<Notice>::empty());
        assert(lookups@.map_values(|l: SubagentLookup| lookup_view(l)) =~= Seq::<(Seq<char>, Seq<char>, Seq<char>)>::empty());
    }
    let mut i: usize = 0;
    while i < items.len()
        invariant
            i <= items@.len(),
            notices(events@) == results_notices(items@.take(i as int), pv),
            all_for(events@, ui_session_id@),
            parent_updates_only(events@),
            lookups@.map_values(|l: SubagentLookup| lookup_view(l)) == lookups_of(items@.take(i as int), st),
            tracking.active_task_stack@ == stack_after(st.active_task_stack@, items@.take(i as int), st),
            tracking.tool_names == st.tool_names,
            tracking.transcript_path == st.transcript_path,
            tracking.claude_session_id == st.claude_session_id,
            pv == opt_view(*parent),
            st == *old(tracking),
        decreases items@.len() - i,
    {
        proof {
            lemma_results_step(items@, i as int, pv, st, st.active_task_stack@);
        }
        let ghost ev0 = events@;
        let ghost lk0 = lookups@;
        if let ContentItem::ToolResult { tool_use_id: Some(id), is_error, output } = &items[i] {
            let failed = match is_error {
                Some(b) => *b,
                None => false,
            };
            if failed {
                events.push(BackendEvent::ToolError {
                    ui_session_id: owned(ui_session_id),
                    tool_id: id.clone(),
                    error: output.clone(),
                });
            } else {
                events.push(BackendEvent::ToolCompleted {
                    ui_session_id: owned(ui_session_id),
                    tool_id: id.clone(),
                    output: output.clone(),
                });
            }
            if let Some(p) = parent {
                events.push(BackendEvent::ToolUpdated {
                    ui_session_id: owned(ui_session_id),
                    tool_id: id.clone(),
                    update: ToolUpdate { parent_tool_id: Some(p.clone()), status: None, subagent: None },
                });
            }
            proof {
                reveal_strlit("Task");
                assert(notices(events@) =~= notices(ev0) + result_notices(items@[i as int], pv));
            }
            let name = tracking.tool_name(id.as_str());
            let is_task = match &name {
                Some(n) => str_eq(n.as_str(), "Task"),
                None => false,
            };
            if is_task {
                if let Some(agent_id) = extract_agent_id_from_result(output.as_str()) {
                    if let Some(path) = &tracking.transcript_path {
                        lookups.push(SubagentLookup {
                            task_id: id.clone(),
                            agent_id,
                            transcript_path: path.clone(),
                        });
                    }
                }
                tracking.remove_task(id.as_str());
            }
            proof {
                assert(lookups@.map_values(|l: SubagentLookup| lookup_view(l))
                    =~= lk0.map_values(|l: SubagentLookup| lookup_view(l)) + lookup_of(items@[i as int], st));
            }
        } else {
            proof {
                assert(notices(events@) =~= notices(ev0) + result_notices(items@[i as int], pv));
                assert(lookups@.map_values(|l: SubagentLookup| lookup_view(l))
                    =~= lk0.map_values(|l: SubagentLookup| lookup_view(l)) + lookup_of(items@[i as int], st));
            }
        }
        i = i + 1;
    }
    proof {
        assert(items@.take(items@.len() as int) =~= items@);
    }
    Dispatch { events, lookups }
}

pub open spec fn or_zero(o: Option<u64>) -> u64 {
    match o {
        Some(v) => v,
        None => 0,
    }
}

/// The usage snapshot of a result record: missing counts are zero, and a
/// missing context window is the configured one.
pub open spec fn usage_notice(u: UsageRecord, default_context_window: u64) -> Notice {
    Notice::Usage(
        or_zero(u.input_tokens),
        or_zero(u.output_tokens),
        or_zero(u.cache_read_input_tokens),
        or_zero(u.cache_creation_input_tokens),
        match u.context_window {
            Some(c) => c,
            None => default_context_window,
        },
    )
}

/// The notifications of a parsed assistant record: the message, the new todo
/// list if any, and one tool-started per tool call, in that order.
pub open spec fn assistant_events(evs: Seq<BackendEvent>, p: Option<ParsedAssistant>) -> bool {
    match p {
        None => evs.len() == 0,
        Some(p) => {
            let off: int = if p.todos is Some { 2 } else { 1 };
            &&& evs.len() == off + p.tool_calls@.len()
            &&& evs[0] matches BackendEvent::MessageAssistant { message, .. } && message == p.message
            &&& p.todos matches Some(t) ==> (evs[1] matches BackendEvent::TodosUpdated { todos, .. }
                && todos == t)
            &&& forall|j: int|
                0 <= j < p.tool_calls@.len() ==> (#[trigger] evs[off + j] matches BackendEvent::ToolStarted { tool, .. }
                    && tool == p.tool_calls@[j])
        },
    }
}

pub fn usage_snapshot(u: &UsageRecord, cost: &Option<String>, default_context_window: u64) -> (r: SessionUsage)
    ensures
        Notice::Usage(r.input_tokens, r.output_tokens, r.cache_read_tokens, r.cache_creation_tokens, r.context_window)
            == usage_notice(*u, default_context_window),
        r.cost == *cost,
{
    SessionUsage {
        input_tokens: match u.input_tokens { Some(v) => v, None => 0 },
        output_tokens: match u.output_tokens { Some(v) => v, None => 0 },
        cache_read_tokens: match u.cache_read_input_tokens { Some(v) => v, None => 0 },
        cache_creation_tokens: match u.cache_creation_input_tokens { Some(v) => v, None => 0 },
        context_window: match u.context_window { Some(c) => c, None => default_context_window },
        cost: copy_opt(cost),
    }
}

fn assistant_notifications(p: ParsedAssistant, ui_session_id: &str) -> (r: Vec<BackendEvent>)
    ensures
        assistant_events(r@, Some(p)),
        all_for(r@, ui_session_id@),
{
    let ghost pg = p;
    let ParsedAssistant { message, tool_calls, todos } = p;
    let mut events: Vec<BackendEvent> = Vec::new();
    events.push(BackendEvent::MessageAssistant { ui_session_id: owned(ui_session_id), message });
    if let Some(t) = todos {
        events.push(BackendEvent::TodosUpdated { ui_session_id: owned(ui_session_id), todos: t });
    }
    let ghost off: int = if pg.todos is Some { 2 } else { 1 };
    let mut j: usize = 0;
    while j < tool_calls.len()
        invariant
            j <= tool_calls@.len(),
            tool_calls == pg.tool_calls,
            off == (if pg.todos is Some { 2int } else { 1int }),
            events@.len() == off + j,
            events@[0] matches BackendEvent::MessageAssistant { message, .. } && message == pg.message,
            pg.todos matches Some(t) ==> (events@[1] matches BackendEvent::TodosUpdated { todos, .. } && todos == t),
            forall|k: int|
                0 <= k < j ==> (#[trigger] events@[off + k] matches BackendEvent::ToolStarted { tool, .. }
                    && tool == pg.tool_calls@[k]),
            all_for(events@, ui_session_id@),
        decreases tool_calls@.len() - j,
    {
        let ghost ev0 = events@;
        events.push(BackendEvent::ToolStarted { ui_session_id: owned(ui_session_id), tool: tool_calls[j].copy() });
        proof {
            assert forall|k: int| 0 <= k < j + 1 implies (#[trigger] events@[off + k] matches BackendEvent::ToolStarted { tool, .. }
                && tool == pg.tool_calls@[k]) by {
                if k < j {
                    assert(events@[off + k] == ev0[off + k]);
                }
            }
        }
        j = j + 1;
    }
    events
}

/// What handling `record` promises: notifications for session `ui`, and the
/// tracking state going from `before` to `after`.
pub open spec fn dispatched(
    record: StreamRecord,
    before: StreamTrackingState,
    after: StreamTrackingState,
    ui: Seq<char>,
    cw: u64,
    r: Dispatch,
) -> bool {
    &&& all_for(r.events@, ui)
    &&& match record {
            StreamRecord::System { transcript_path, session_id } => {
                &&& r.lookups@.len() == 0
                &&& after.transcript_path == if transcript_path is Some {
                    transcript_path
                } else {
                    before.transcript_path
                }
                &&& after.active_task_stack == before.active_task_stack
                &&& after.tool_names == before.tool_names
                &&& match session_id {
                    None => r.events@.len() == 0 && after.claude_session_id == before.claude_session_id,
                    Some(sid) => {
                        &&& after.claude_session_id == Some(sid)
                        &&& notices(r.events@) == if before.claude_session_id is Some
                            && before.claude_session_id.unwrap()@ == sid@ {
                            Seq::<Notice>::empty()
                        } else {
                            seq![Notice::Started(sid@)]
                        }
                    },
                }
            },
            StreamRecord::Assistant { message_id, parent_tool_use_id, content } => {
                &&& r.lookups@.len() == 0
                &&& exists|p: Option<ParsedAssistant>|
                    assistant_parsed(
                        p,
                        message_id,
                        parent_tool_use_id,
                        content,
                        before,
                        after,
                        true,
                    ) && #[trigger] assistant_events(r.events@, p)
            },
            StreamRecord::User { parent_tool_use_id, content } => match content {
                UserContent::Items(items) => {
                    &&& notices(r.events@) == results_notices(items@, opt_view(parent_tool_use_id))
                    &&& parent_updates_only(r.events@)
                    &&& r.lookups@.map_values(|l: SubagentLookup| lookup_view(l)) == lookups_of(
                        items@,
                        before,
                    )
                    &&& after.active_task_stack@ == stack_after(
                        before.active_task_stack@,
                        items@,
                        before,
                    )
                    &&& after.tool_names == before.tool_names
                    &&& after.transcript_path == before.transcript_path
                    &&& after.claude_session_id == before.claude_session_id
                },
                _ => r.events@.len() == 0 && r.lookups@.len() == 0 && after == before,
            },
            StreamRecord::Result { usage, cost } => {
                &&& r.lookups@.len() == 0
                &&& after == before
                &&& match usage {
                    Some(u) => notices(r.events@) == seq![usage_notice(u, cw)]
                        && (r.events@[0] matches BackendEvent::UsageUpdated { usage: snap, .. }
                        && snap.cost == cost),
                    None => r.events@.len() == 0,
                }
            },
            _ => r.events@.len() == 0 && r.lookups@.len() == 0 && after == before,
        }
}

/// Handles one stream record of a live session.
pub fn process_event(
    record: &StreamRecord,
    tracking: &mut StreamTrackingState,
    ui_session_id: &str,
    default_context_window: u64,
) -> (r: Dispatch)
    ensures
        dispatched(*record, *old(tracking), *final(tracking), ui_session_id@, default_context_window, r),
{
    match record {
        StreamRecord::System { transcript_path, session_id } => {
            let mut events: Vec<BackendEvent> = Vec::new();
            if transcript_path.is_some() {
                tracking.set_transcript_path(transcript_path);
            }
            if let Some(sid) = session_id {
                if tracking.note_session_id(sid) {
                    events.push(BackendEvent::SessionStarted {
                        ui_session_id: owned(ui_session_id),
                        claude_session_id: sid.clone(),
                    });
                    assert(notices(events@) =~= seq![Notice::Started(sid@)]);
                } else {
                    assert(notices(events@) =~= Seq::<Notice>::empty());
                }
            }
            Dispatch { events, lookups: Vec::new() }
        },
        StreamRecord::Assistant { message_id, parent_tool_use_id, content } => {
            let parsed = parse_assistant_event(message_id, parent_tool_use_id, content, tracking, true);
            let ghost pg = parsed;
            let events = match parsed {
                Some(p) => assistant_notifications(p, ui_session_id),
                None => Vec::new(),
            };
            assert(assistant_events(events@, pg));
            Dispatch { events, lookups: Vec::new() }
        },
        StreamRecord::User { parent_tool_use_id, content } => match content {
            UserContent::Items(items) => dispatch_results(items, parent_tool_use_id, tracking, ui_session_id),
            _ => Dispatch { events: Vec::new(), lookups: Vec::new() },
        },
        StreamRecord::Result { usage, cost } => {
            let mut events: Vec<BackendEvent> = Vec::new();
            if let Some(u) = usage {
                events.push(BackendEvent::UsageUpdated {
                    ui_session_id: owned(ui_session_id),
                    usage: usage_snapshot(u, cost, default_context_window),
                });
                assert(notices(events@) =~= seq![usage_notice(*u, default_context_window)]);
            }
            Dispatch { events, lookups: Vec::new() }
        },
        _ => Dispatch { events: Vec::new(), lookups: Vec::new() },
    }
}

/// The identifiers of the tool invocations that assistant records open, in
/// order; invocations without an identifier are skipped.
pub open spec fn record_tool_ids(r: StreamRecord) -> Seq<Seq<char>> {
    match r {
        StreamRecord::Assistant { content: Some(items), .. } => items_tool_ids(items@),
        _ => Seq::empty(),
    }
}

pub open spec fn items_tool_ids(items: Seq<ContentItem>) -> Seq<Seq<char>>
    decreases items.len(),
{
    if items.len() == 0 {
        Seq::empty()
    } else {
        items_tool_ids(items.drop_last()) + match items.last() {
            ContentItem::ToolUse { id: Some(id), .. } => seq![id@],
            _ => Seq::empty(),
        }
    }
}

pub open spec fn records_tool_ids(rs: Seq<StreamRecord>) -> Seq<Seq<char>>
    decreases rs.len(),
{
    if rs.len() == 0 {
        Seq::empty()
    } else {
        records_tool_ids(rs.drop_last()) + record_tool_ids(rs.last())
    }
}

fn push_item_ids(items: &Vec<ContentItem>, out: &mut Vec<String>)
    ensures
        views(final(out)@) == views(old(out)@) + items_tool_ids(items@),
{
    let ghost start = views(out@);
    let mut i: usize = 0;
    assert(items@.take(0) =~= Seq::<ContentItem>::empty());
    assert(start + Seq::<Seq<char>>::empty() =~= start);
    while i < items.len()
        invariant
            i <= items@.len(),
            views(out@) == start + items_tool_ids(items@.take(i as int)),
            start == views(old(out)@),
        decreases items@.len() - i,
    {
        let ghost o0 = out@;
        assert(items@.take(i + 1).drop_last() =~= items@.take(i as int));
        if let ContentItem::ToolUse { id: Some(id), .. } = &items[i] {
            out.push(id.clone());
            assert(views(out@) =~= views(o0).push(id@));
        }
        assert(views(out@) =~= start + items_tool_ids(items@.take(i + 1)));
        i = i + 1;
    }
    assert(items@.take(items@.len() as int) =~= items@);
}

/// The tool-call identifiers that a sub-agent's transcript contains.
pub fn child_tool_ids(records: &Vec<StreamRecord>) -> (r: Vec<String>)
    ensures
        views(r@) == records_tool_ids(records@),
{
    let mut out: Vec<String> = Vec::new();
    let mut i: usize = 0;
    assert(records@.take(0) =~= Seq::<StreamRecord>::empty());
    assert(views(out@) =~= Seq::<Seq<char>>::empty());
    while i < records.len()
        invariant
            i <= records@.len(),
            views(out@) == records_tool_ids(records@.take(i as int)),
        decreases records@.len() - i,
    {
        assert(records@.take(i + 1).drop_last() =~= records@.take(i as int));
        let ghost o0 = views(out@);
        if let StreamRecord::Assistant { content: Some(items), .. } = &records[i] {
            push_item_ids(items, &mut out);
        } else {
            assert(o0 + record_tool_ids(records@[i as int]) =~= o0);
        }
        i = i + 1;
    }
    assert(records@.take(records@.len() as int) =~= records@);
    out
}

/// The parent-assignment notifications that link a delegating call to the
/// tool calls of its sub-agent.
pub fn link_subagent_children(ui_session_id: &str, task_id: &String, child_ids: &Vec<String>) -> (r: Vec<
    BackendEvent,
>)
    ensures
        notices(r@) == views(child_ids@).map_values(
            |c: Seq<char>| Notice::ParentSet(c, Some(task_id@)),
        ),
        all_for(r@, ui_session_id@),
        parent_updates_only(r@),
{
    let mut events: Vec<BackendEvent> = Vec::new();
    let mut i: usize = 0;
    while i < child_ids.len()
        invariant
            i <= child_ids@.len(),
            notices(events@) == views(child_ids@.take(i as int)).map_values(
                |c: Seq<char>| Notice::ParentSet(c, Some(task_id@)),
            ),
            all_for(events@, ui_session_id@),
            parent_updates_only(events@),
        decreases child_ids@.len() - i,
    {
        let ghost ev0 = events@;
        events.push(BackendEvent::ToolUpdated {
            ui_session_id: owned(ui_session_id),
            tool_id: child_ids[i].clone(),
            update: ToolUpdate { parent_tool_id: Some(task_id.clone()), status: None, subagent: None },
        });
        assert(notices(events@) =~= notices(ev0).push(Notice::ParentSet(child_ids@[i as int]@, Some(task_id@))));
        assert(views(child_ids@.take(i + 1)) =~= views(child_ids@.take(i as int)).push(child_ids@[i as int]@));
        assert(notices(events@) =~= views(child_ids@.take(i + 1)).map_values(
            |c: Seq<char>| Notice::ParentSet(c, Some(task_id@)),
        ));
        i = i + 1;
    }
    assert(child_ids@.take(child_ids@.len() as int) =~= child_ids@);
    events
}

} // verus!
