//! Offline replay of a persisted transcript: the stream reconciler run over the
//! whole log, with tool results applied wherever they appear in it.
use vstd::prelude::*;
use crate::dispatch::{close_tasks, usage_notice, usage_snapshot};
use crate::events::{
    opt_view, views, Message, Notice, Question, Role, SessionUsage, TodoItem, ToolCall, ToolStatus,
};
use crate::reconcile::{agent_id_spec, extract_agent_id_from_result, task_name, todos_view};
use crate::records::{ContentItem, StreamRecord, UserContent};
use crate::shape::{
    absorb_items, call_shape, calls_shape, fill, fill_all, has_msg, ids_given, index_matches,
    lemma_index_push_user, lemma_opened_shapes, lemma_stack_after_v, merge, model_of, msg_shape,
    msgs_shape, pairs_view, replay_shape, settle, step, user_shape, uses_have_ids, CallShape, Model,
    MsgShape,
};
use crate::stream::{
    lemma_todos_need_a_tool, name_entry, opened_as, parse_assistant_event, task_ids, todos_of_items,
    tool_uses,
};
use crate::text::{copy_opt, fresh_id, now_stamp, str_eq, trim, trim_of};
use crate::tracking::StreamTrackingState;

verus! {

/// A question tool call whose answer the transcript does not hold.
#[derive(Clone, Debug, PartialEq, Eq)]
pub struct PendingQuestionFromTranscript {
    pub tool_use_id: String,
    pub questions: Vec<Question>,
}

/// A compaction marker, verbatim.
#[derive(Clone, Debug, PartialEq, Eq)]
pub struct TranscriptSummary {
    pub summary: String,
}

/// What a replayed transcript yields.
#[derive(Clone, Debug, PartialEq, Eq)]
pub struct TranscriptParseResult {
    pub messages: Vec<Message>,
    pub todos: Option<Vec<TodoItem>>,
    pub usage: Option<SessionUsage>,
    /// The total monetary cost of the last result record, as decimal text.
    pub total_cost: Option<String>,
    pub pending_question: Option<PendingQuestionFromTranscript>,
    pub summaries: Vec<TranscriptSummary>,
    /// Tool calls of sub-agent transcripts, each with its parent set.
    pub subagent_tools: Vec<ToolCall>,
}

/// A tool result seen in the log, kept until its call is known.
pub struct BufferedResult {
    pub id: String,
    pub output: String,
    pub is_error: bool,
}

/// The result buffered last for `id`.
pub open spec fn result_for(s: Seq<BufferedResult>, id: Seq<char>) -> Option<BufferedResult>
    decreases s.len(),
{
    if s.len() == 0 {
        None
    } else if s.last().id@ == id {
        Some(s.last())
    } else {
        result_for(s.drop_last(), id)
    }
}

/// The tool call that a tool-result item answers.
pub open spec fn item_result_id(c: ContentItem) -> Option<Seq<char>> {
    match c {
        ContentItem::ToolResult { tool_use_id: Some(id), .. } => Some(id@),
        _ => None,
    }
}

pub open spec fn record_has_result(r: StreamRecord, id: Seq<char>) -> bool {
    match r {
        StreamRecord::User { content: UserContent::Items(items), .. } => exists|j: int|
            0 <= j < items@.len() && #[trigger] item_result_id(items@[j]) == Some(id),
        _ => false,
    }
}

/// Some record of the log carries a result for tool call `id`.
pub open spec fn has_result(rs: Seq<StreamRecord>, id: Seq<char>) -> bool {
    exists|i: int| 0 <= i < rs.len() && #[trigger] record_has_result(rs[i], id)
}

/// The tool calls of a message.
pub open spec fn calls_of(m: Message) -> Seq<ToolCall> {
    match m.tool_calls {
        Some(v) => v@,
        None => Seq::empty(),
    }
}

/// Whether a replayed tool call carries the outcome it is in (output set once
/// it is terminal, error text exactly when it failed) and no child count yet.
pub open spec fn call_consistent(t: ToolCall) -> bool {
    &&& t.status.is_terminal() ==> t.output is Some && t.ended_at is Some
    &&& !t.status.is_terminal() ==> t.output is None && t.ended_at is None
    &&& (t.error is Some <==> t.status == ToolStatus::Error)
    &&& (t.subagent matches Some(info) ==> info.tool_count is None)
}

/// A settled call took its outcome from one of the results `rs`.
pub open spec fn outcome_from(t: ToolCall, rs: Seq<BufferedResult>) -> bool {
    exists|k: int|
        0 <= k < rs.len() && #[trigger] rs[k].id@ == t.id@ && t.output == Some(rs[k].output) && (t.status
            == ToolStatus::Error <==> rs[k].is_error) && t.error == if rs[k].is_error {
            Some(rs[k].output)
        } else {
            None
        }
}

/// A call that is settled has a buffered result and took its outcome from one,
/// and it carries its outcome consistently.
pub open spec fn backed(t: ToolCall, rs: Seq<BufferedResult>) -> bool {
    &&& t.status.is_terminal() ==> result_for(rs, t.id@) is Some && outcome_from(t, rs)
    &&& call_consistent(t)
}

/// Every terminal call among `ms` has a buffered result, and each carries its
/// outcome consistently.
pub open spec fn calls_backed(ms: Seq<Message>, rs: Seq<BufferedResult>) -> bool {
    forall|m: int, j: int|
        0 <= m < ms.len() && 0 <= j < calls_of(ms[m]).len() ==> {
            let t = #[trigger] calls_of(ms[m])[j];
            &&& backed(t, rs)
        }
}

proof fn lemma_result_for_push(s: Seq<BufferedResult>, b: BufferedResult, id: Seq<char>)
    ensures
        result_for(s.push(b), id) == if b.id@ == id { Some(b) } else { result_for(s, id) },
{
    assert(s.push(b).drop_last() =~= s);
}

proof fn lemma_result_for_id(s: Seq<BufferedResult>, id: Seq<char>)
    ensures
        result_for(s, id) matches Some(b) ==> b.id@ == id,
    decreases s.len(),
{
    if s.len() > 0 {
        lemma_result_for_id(s.drop_last(), id);
    }
}

/// The result buffered last for `id`, if any.
fn find_result(results: &Vec<BufferedResult>, id: &String) -> (r: Option<usize>)
    ensures
        match r {
            Some(k) => k < results@.len() && result_for(results@, id@) == Some(results@[k as int]),
            None => result_for(results@, id@) is None,
        },
{
    let mut i: usize = results.len();
    assert(results@.take(i as int) =~= results@);
    while i > 0
        invariant
            i <= results@.len(),
            result_for(results@.take(i as int), id@) == result_for(results@, id@),
        decreases i,
    {
        assert(results@.take(i as int).drop_last() =~= results@.take(i - 1));
        if results[i - 1].id == *id {
            return Some(i - 1);
        }
        i = i - 1;
    }
    None
}

/// Applies a buffered result to a call that is still running.
fn backfill(t: ToolCall, results: &Vec<BufferedResult>) -> (r: ToolCall)
    requires
        call_consistent(t),
    ensures
        r.id == t.id,
        r.name == t.name,
        r.parent_tool_id == t.parent_tool_id,
        r.subagent == t.subagent,
        call_consistent(r),
        r.status.is_terminal() <==> (t.status.is_terminal() || result_for(results@, t.id@) is Some),
        r.status.is_terminal() && !t.status.is_terminal() ==> outcome_from(r, results@),
        t.status.is_terminal() ==> r == t,
        call_shape(r) == fill(call_shape(t), results@),
{
    if t.status != ToolStatus::Running {
        return t;
    }
    match find_result(results, &t.id) {
        None => t,
        Some(k) => {
            proof {
                lemma_result_for_id(results@, t.id@);
            }
            let res = &results[k];
            let mut t = t;
            t.output = Some(res.output.clone());
            if res.is_error {
                t.status = ToolStatus::Error;
                t.error = Some(res.output.clone());
            } else {
                t.status = ToolStatus::Completed;
                t.error = None;
            }
            t.ended_at = Some(now_stamp());
            t
        },
    }
}

pub open spec fn content_has_result(c: UserContent, id: Seq<char>) -> bool {
    match c {
        UserContent::Items(items) => exists|j: int|
            0 <= j < items@.len() && #[trigger] item_result_id(items@[j]) == Some(id),
        _ => false,
    }
}

/// Buffers the tool results of a user record and notes its plain text.
fn absorb_user(
    content: &UserContent,
    results: &mut Vec<BufferedResult>,
    last_user_text: &mut Option<String>,
)
    ensures
        old(results)@.len() <= final(results)@.len(),
        forall|k: int| 0 <= k < old(results)@.len() ==> #[trigger] final(results)@[k] == old(results)@[k],
        forall|id: Seq<char>|
            #[trigger] result_for(final(results)@, id) is Some <==> (result_for(old(results)@, id) is Some
                || content_has_result(*content, id)),
        match *content {
            UserContent::Text(s) => final(results)@ == old(results)@ && opt_view(*final(last_user_text))
                == if trim_of(s@).len() > 0 {
                Some(trim_of(s@))
            } else {
                opt_view(*old(last_user_text))
            },
            UserContent::Items(items) => (final(results)@, opt_view(*final(last_user_text))) == absorb_items(
                old(results)@,
                opt_view(*old(last_user_text)),
                items@,
            ),
            UserContent::Absent => final(results)@ == old(results)@ && *final(last_user_text)
                == *old(last_user_text),
        },
{
    match content {
        UserContent::Text(text) => {
            let trimmed = trim(text.as_str());
            if trimmed.unicode_len() > 0 {
                *last_user_text = Some(trimmed);
            }
        },
        UserContent::Items(items) => {
            let ghost start = results@;
            let mut i: usize = 0;
            while i < items.len()
                invariant
                    i <= items@.len(),
                    start == old(results)@,
                    start.len() <= results@.len(),
                    forall|k: int| 0 <= k < start.len() ==> #[trigger] results@[k] == start[k],
                    (results@, opt_view(*last_user_text)) == absorb_items(
                        old(results)@,
                        opt_view(*old(last_user_text)),
                        items@.take(i as int),
                    ),
                    forall|id: Seq<char>|
                        #[trigger] result_for(results@, id) is Some <==> (result_for(start, id) is Some
                            || exists|j: int| 0 <= j < i && #[trigger] item_result_id(items@[j]) == Some(id)),
                decreases items@.len() - i,
            {
                let ghost r0 = results@;
                proof {
                    assert(items@.take(i + 1).drop_last() =~= items@.take(i as int));
                    assert(items@.take(i + 1).last() == items@[i as int]);
                }
                match &items[i] {
                    ContentItem::Text { text: Some(t) } => {
                        *last_user_text = Some(t.clone());
                    },
                    ContentItem::ToolResult { tool_use_id: Some(id), is_error, output } => {
                        let b = BufferedResult {
                            id: id.clone(),
                            output: output.clone(),
                            is_error: match is_error {
                                Some(e) => *e,
                                None => false,
                            },
                        };
                        results.push(b);
                        proof {
                            assert forall|x: Seq<char>| #[trigger] result_for(results@, x) is Some <==> (
                            result_for(start, x) is Some || exists|j: int|
                                0 <= j < i + 1 && #[trigger] item_result_id(items@[j]) == Some(x)) by {
                                lemma_result_for_push(r0, b, x);
                                if x == id@ {
                                    assert(item_result_id(items@[i as int]) == Some(x));
                                }
                                if exists|j: int| 0 <= j < i + 1 && #[trigger] item_result_id(items@[j]) == Some(x) {
                                    let j = choose|j: int| 0 <= j < i + 1 && #[trigger] item_result_id(items@[j]) == Some(x);
                                    if j < i {
                                    } else {
                                        assert(x == id@);
                                    }
                                }
                            }
                        }
                    },
                    _ => {},
                }
                proof {
                    assert forall|x: Seq<char>| #[trigger] result_for(results@, x) is Some <==> (
                    result_for(start, x) is Some || exists|j: int|
                        0 <= j < i + 1 && #[trigger] item_result_id(items@[j]) == Some(x)) by {
                        if exists|j: int| 0 <= j < i + 1 && #[trigger] item_result_id(items@[j]) == Some(x) {
                            let j = choose|j: int| 0 <= j < i + 1 && #[trigger] item_result_id(items@[j]) == Some(x);
                            if j == i && item_result_id(items@[i as int]) == Some(x) {
                                assert(results@ != r0 || result_for(results@, x) is Some);
                            }
                        }
                    }
                }
                i = i + 1;
            }
            assert(items@.take(items@.len() as int) =~= items@);
        },
        UserContent::Absent => {},
    }
}

pub open spec fn index_ok(index: Seq<(String, usize)>, n: int) -> bool {
    forall|k: int| 0 <= k < index.len() ==> (#[trigger] index[k]).1 < n
}

/// Every call of `v` is backed by `rs` and carries its outcome consistently.
pub open spec fn list_backed(v: Seq<ToolCall>, rs: Seq<BufferedResult>) -> bool {
    forall|j: int|
        0 <= j < v.len() ==> {
            let t = #[trigger] v[j];
            &&& backed(t, rs)
        }
}

fn placeholder() -> (r: Message)
    ensures
        r.tool_calls is None,
{
    Message {
        id: String::new(),
        role: Role::User,
        text: String::new(),
        tool_calls: None,
        is_streaming: None,
        timestamp: String::new(),
    }
}

/// Adds an assistant message; one whose identifier was seen before is merged
/// into the earlier message, its text and tool calls appended.
fn merge_message(
    messages: &mut Vec<Message>,
    index: &mut Vec<(String, usize)>,
    msg: Message,
    calls: Vec<ToolCall>,
    Ghost(rs): Ghost<Seq<BufferedResult>>,
)
    requires
        calls_backed(old(messages)@, rs),
        list_backed(calls@, rs),
        index_ok(old(index)@, old(messages)@.len() as int),
    ensures
        calls_backed(final(messages)@, rs),
        index_ok(final(index)@, final(messages)@.len() as int),
        final(messages)@.len() >= old(messages)@.len(),
        (index_matches(old(index)@, msgs_shape(old(messages)@)) && msg.role == Role::Assistant
            && msg.is_streaming == Some(false)) ==> (msgs_shape(final(messages)@) == merge(
            msgs_shape(old(messages)@),
            msg.id@,
            msg.text@,
            calls_shape(calls@),
        ) && index_matches(final(index)@, msgs_shape(final(messages)@))),
{
    let ghost good = index_matches(index@, msgs_shape(messages@)) && msg.role == Role::Assistant
        && msg.is_streaming == Some(false);
    let ghost sh0 = msgs_shape(messages@);
    let ghost ix0 = index@;
    let mut k: usize = 0;
    let mut found: Option<usize> = None;
    while k < index.len()
        invariant
            k <= index@.len(),
            found matches Some(x) ==> x < messages@.len() && exists|q: int|
                0 <= q < index@.len() && #[trigger] index@[q].1 == x && index@[q].0@ == msg.id@,
            found is None ==> forall|q: int| 0 <= q < k ==> #[trigger] index@[q].0@ != msg.id@,
            index_ok(index@, messages@.len() as int),
        ensures
            found is None ==> k == index@.len(),
            found matches Some(x) ==> x < messages@.len() && exists|q: int|
                0 <= q < index@.len() && #[trigger] index@[q].1 == x && index@[q].0@ == msg.id@,
            found is None ==> forall|q: int| 0 <= q < k ==> #[trigger] index@[q].0@ != msg.id@,
            index_ok(index@, messages@.len() as int),
        decreases index@.len() - k,
    {
        if index[k].0 == msg.id {
            found = Some(index[k].1);
            assert(index@[k as int].1 == index[k as int].1);
            break;
        }
        k = k + 1;
    }
    proof {
        if good {
            match found {
                Some(x) => {
                    let q = choose|q: int| 0 <= q < index@.len() && #[trigger] index@[q].1 == x && index@[q].0@ == msg.id@;
                    assert(sh0[x as int].id == Some(msg.id@));
                    assert(has_msg(sh0, msg.id@));
                    let i = choose|i: int| 0 <= i < sh0.len() && #[trigger] sh0[i].id == Some(msg.id@);
                    if i != x {
                        assert(sh0[x as int].id != sh0[i].id);
                    }
                },
                None => {
                    assert(k == index@.len());
                    assert(!has_msg(sh0, msg.id@)) by {
                        if has_msg(sh0, msg.id@) {
                            let i = choose|i: int| 0 <= i < sh0.len() && #[trigger] sh0[i].id == Some(msg.id@);
                            let q = choose|q: int| 0 <= q < ix0.len() && #[trigger] ix0[q].1 == i;
                            assert(ix0[q].0@ == msg.id@);
                            assert(index@[q].0@ != msg.id@);
                        }
                    }
                },
            }
        }
    }
    match found {
        Some(idx) => {
            let ghost ms0 = messages@;
            let mut existing = placeholder();
            messages.set_and_swap(idx, &mut existing);
            assert(existing == ms0[idx as int]);
            if msg.text.unicode_len() > 0 {
                existing.text.append(msg.text.as_str());
            }
            if calls.len() > 0 {
                let merged = match existing.tool_calls {
                    Some(old_calls) => {
                        let mut v = old_calls;
                        let ghost v0 = v@;
                        let mut c = calls;
                        v.append(&mut c);
                        assert(list_backed(v@, rs)) by {
                            assert forall|j: int| 0 <= j < v@.len() implies {
                                let t = #[trigger] v@[j];
                                &&& backed(t, rs)
                            } by {
                                if j < v0.len() {
                                    assert(v0[j] == calls_of(ms0[idx as int])[j]);
                                }
                            }
                        }
                        v
                    },
                    None => calls,
                };
                existing.tool_calls = Some(merged);
            } else {
                assert(list_backed(calls_of(existing), rs)) by {
                    assert forall|j: int| 0 <= j < calls_of(existing).len() implies {
                        let t = #[trigger] calls_of(existing)[j];
                        &&& backed(t, rs)
                    } by {
                        assert(calls_of(existing)[j] == calls_of(ms0[idx as int])[j]);
                    }
                }
            }
            let ghost ex = existing;
            proof {
                assert(calls_shape(calls_of(ex)) =~= calls_shape(calls_of(ms0[idx as int])) + calls_shape(calls@));
                assert(ex.text@ =~= ms0[idx as int].text@ + msg.text@);
            }
            messages.set(idx, existing);
            proof {
                if good {
                    let sh1 = msgs_shape(messages@);
                    assert(sh1 =~= merge(sh0, msg.id@, msg.text@, calls_shape(calls@)));
                    assert(index_matches(index@, sh1)) by {
                        assert forall|i: int| 0 <= i < sh1.len() implies #[trigger] sh1[i].id == sh0[i].id by {}
                    }
                }
            }
            assert(good ==> msgs_shape(messages@) == merge(sh0, msg.id@, msg.text@, calls_shape(calls@)));
            assert(good ==> index_matches(index@, msgs_shape(messages@)));
            assert(index@ == ix0);
            assert(sh0 == msgs_shape(old(messages)@));
            assert(ix0 == old(index)@);
            assert(good == (index_matches(old(index)@, msgs_shape(old(messages)@)) && msg.role == Role::Assistant
                && msg.is_streaming == Some(false)));
            assert(calls_backed(messages@, rs)) by {
                assert forall|m: int, j: int| 0 <= m < messages@.len() && 0 <= j < calls_of(messages@[m]).len() implies {
                    let t = #[trigger] calls_of(messages@[m])[j];
                    &&& backed(t, rs)
                } by {
                    if m == idx {
                        assert(messages@[m] == ex);
                    } else {
                        assert(messages@[m] == ms0[m]);
                    }
                }
            }
        },
        None => {
            let ghost ms0 = messages@;
            let mut m = msg;
            m.tool_calls = if calls.len() == 0 {
                None
            } else {
                Some(calls)
            };
            let id = m.id.clone();
            let ghost mg = m;
            messages.push(m);
            index.push((id, messages.len() - 1));
            proof {
                if good {
                    let sh1 = msgs_shape(messages@);
                    assert(calls_shape(calls_of(mg)) =~= calls_shape(calls@));
                    assert(!has_msg(sh0, msg.id@));
                    assert(sh1 =~= merge(sh0, msg.id@, msg.text@, calls_shape(calls@)));
                    let n = sh0.len() as int;
                    assert(sh1[n].id == Some(msg.id@));
                    assert forall|i: int| 0 <= i < n implies #[trigger] sh1[i] == sh0[i] by {}
                    assert(index_matches(index@, sh1)) by {
                        assert forall|q: int| 0 <= q < index@.len() implies (#[trigger] index@[q]).1 < sh1.len()
                            && sh1[index@[q].1 as int].id == Some(index@[q].0@) by {
                            if q < ix0.len() {
                                assert(index@[q] == ix0[q]);
                            }
                        }
                        assert forall|i: int| 0 <= i < sh1.len() && (#[trigger] sh1[i]).id is Some implies exists|q: int|
                            0 <= q < index@.len() && #[trigger] index@[q].1 == i by {
                            if i < n {
                                let q = choose|q: int| 0 <= q < ix0.len() && #[trigger] ix0[q].1 == i;
                                assert(index@[q] == ix0[q]);
                            } else {
                                assert(index@[ix0.len() as int].1 == i);
                            }
                        }
                        assert forall|i: int, j: int|
                            0 <= i < sh1.len() && 0 <= j < sh1.len() && i != j && (#[trigger] sh1[i]).id is Some
                                implies sh1[i].id != (#[trigger] sh1[j]).id by {
                            if i == n && j < n && sh1[j].id == sh1[i].id {
                                assert(sh0[j].id == Some(msg.id@));
                            }
                            if j == n && i < n && sh1[j].id == sh1[i].id {
                                assert(sh0[i].id == Some(msg.id@));
                            }
                        }
                    }
                }
            }
            assert(calls_backed(messages@, rs)) by {
                assert forall|mi: int, j: int| 0 <= mi < messages@.len() && 0 <= j < calls_of(messages@[mi]).len() implies {
                    let t = #[trigger] calls_of(messages@[mi])[j];
                    &&& backed(t, rs)
                } by {
                    if mi < ms0.len() {
                        assert(messages@[mi] == ms0[mi]);
                    } else {
                        assert(messages@[mi] == mg);
                    }
                }
            }
        },
    }
}

/// Every call among `ms` is terminal exactly when `rs` holds a result for it.
pub open spec fn calls_settled(ms: Seq<Message>, rs: Seq<BufferedResult>) -> bool {
    forall|m: int, j: int|
        0 <= m < ms.len() && 0 <= j < calls_of(ms[m]).len() ==> {
            let t = #[trigger] calls_of(ms[m])[j];
            &&& (t.status.is_terminal() <==> result_for(rs, t.id@) is Some)
            &&& (t.status.is_terminal() ==> outcome_from(t, rs))
            &&& call_consistent(t)
        }
}

/// Applies the buffered results to every call that is still running.
fn backfill_all(messages: &mut Vec<Message>, results: &Vec<BufferedResult>)
    requires
        calls_backed(old(messages)@, results@),
    ensures
        calls_settled(final(messages)@, results@),
        final(messages)@.len() == old(messages)@.len(),
        msgs_shape(final(messages)@) == msgs_shape(old(messages)@).map_values(
            |s: MsgShape| settle(s, results@),
        ),
{
    let ghost orig = messages@;
    let n = messages.len();
    let mut m: usize = 0;
    while m < n
        invariant
            n == messages@.len(),
            m <= n,
            calls_backed(messages@, results@),
            orig.len() == n,
            forall|a: int| m <= a < n ==> #[trigger] messages@[a] == orig[a],
            forall|a: int| 0 <= a < m ==> #[trigger] msg_shape(messages@[a]) == settle(msg_shape(orig[a]), results@),
            forall|a: int, j: int|
                0 <= a < m && 0 <= j < calls_of(messages@[a]).len() ==> {
                    let t = #[trigger] calls_of(messages@[a])[j];
                    t.status.is_terminal() <==> result_for(results@, t.id@) is Some
                },
        decreases n - m,
    {
        let ghost ms0 = messages@;
        let mut cur = placeholder();
        messages.set_and_swap(m, &mut cur);
        assert(cur == ms0[m as int]);
        if let Some(calls) = cur.tool_calls {
            let ghost c0 = calls@;
            let mut out: Vec<ToolCall> = Vec::new();
            assert forall|q: int| 0 <= q < c0.len() implies {
                let t = #[trigger] c0[q];
                &&& backed(t, results@)
            } by {
                assert(c0[q] == calls_of(ms0[m as int])[q]);
            }
            let mut j: usize = 0;
            while j < calls.len()
                invariant
                    calls@ == c0,
                    j <= c0.len(),
                    out@.len() == j,
                    forall|q: int| 0 <= q < c0.len() ==> {
                        let t = #[trigger] c0[q];
                        &&& backed(t, results@)
                    },
                    forall|q: int| 0 <= q < out@.len() ==> {
                        let t = #[trigger] out@[q];
                        &&& (t.status.is_terminal() <==> result_for(results@, t.id@) is Some)
                        &&& (t.status.is_terminal() ==> outcome_from(t, results@))
                        &&& call_consistent(t)
                    },
                    calls_shape(out@) == fill_all(calls_shape(c0.take(j as int)), results@),
                decreases c0.len() - j,
            {
                let u = backfill(calls[j].copy(), results);
                let ghost o0 = out@;
                out.push(u);
                proof {
                    assert(calls_shape(out@) =~= calls_shape(o0).push(call_shape(u)));
                    assert(fill_all(calls_shape(c0.take(j + 1)), results@) =~= fill_all(
                        calls_shape(c0.take(j as int)),
                        results@,
                    ).push(fill(call_shape(c0[j as int]), results@)));
                }
                j = j + 1;
            }
            assert(c0.take(c0.len() as int) =~= c0);
            cur.tool_calls = Some(out);
        }
        let ghost cg = cur;
        proof {
            let o = ms0[m as int];
            assert(cg.id == o.id && cg.role == o.role && cg.text == o.text && cg.is_streaming == o.is_streaming);
            if o.tool_calls is None {
                assert(calls_shape(calls_of(o)) =~= Seq::<CallShape>::empty());
                assert(fill_all(Seq::<CallShape>::empty(), results@) =~= Seq::<CallShape>::empty());
            }
            assert(msg_shape(cg).calls =~= settle(msg_shape(o), results@).calls);
            assert(msg_shape(cg) == settle(msg_shape(o), results@));
        }
        messages.set(m, cur);
        proof {
            assert forall|a: int| 0 <= a < m + 1 implies #[trigger] msg_shape(messages@[a]) == settle(
                msg_shape(orig[a]),
                results@,
            ) by {
                if a == m {
                    assert(messages@[a] == cg);
                    assert(ms0[a] == orig[a]);
                } else {
                    assert(messages@[a] == ms0[a]);
                }
            }
            assert forall|a: int, j: int| 0 <= a < messages@.len() && 0 <= j < calls_of(messages@[a]).len() implies {
                let t = #[trigger] calls_of(messages@[a])[j];
                &&& backed(t, results@)
                &&& (a <= m ==> (t.status.is_terminal() <==> result_for(results@, t.id@) is Some))
            } by {
                if a == m {
                    assert(messages@[a] == cg);
                } else {
                    assert(messages@[a] == ms0[a]);
                }
            }
        }
        m = m + 1;
    }
    assert(msgs_shape(messages@) =~= msgs_shape(orig).map_values(|s: MsgShape| settle(s, results@)));
}

proof fn lemma_has_result_step(rs: Seq<StreamRecord>, i: int, id: Seq<char>)
    requires
        0 <= i < rs.len(),
    ensures
        has_result(rs.take(i + 1), id) <==> (has_result(rs.take(i), id) || record_has_result(rs[i], id)),
{
    if has_result(rs.take(i + 1), id) {
        let k = choose|k: int| 0 <= k < rs.take(i + 1).len() && #[trigger] record_has_result(rs.take(i + 1)[k], id);
        if k < i {
            assert(rs.take(i)[k] == rs.take(i + 1)[k]);
        }
    }
    if has_result(rs.take(i), id) {
        let k = choose|k: int| 0 <= k < rs.take(i).len() && #[trigger] record_has_result(rs.take(i)[k], id);
        assert(rs.take(i + 1)[k] == rs.take(i)[k]);
    }
    if record_has_result(rs[i], id) {
        assert(rs.take(i + 1)[i] == rs[i]);
    }
}

/// The summaries of a log, in order.
pub open spec fn summaries_of(rs: Seq<StreamRecord>) -> Seq<Seq<char>>
    decreases rs.len(),
{
    if rs.len() == 0 {
        Seq::empty()
    } else {
        summaries_of(rs.drop_last()) + match rs.last() {
            StreamRecord::Summary { summary: Some(t) } => seq![t@],
            _ => Seq::empty(),
        }
    }
}

/// The todo list that the last todo tool call of a log carries.
pub open spec fn last_todos(rs: Seq<StreamRecord>) -> Option<Seq<(Seq<char>, Seq<char>, Seq<char>)>>
    decreases rs.len(),
{
    if rs.len() == 0 {
        None
    } else {
        match rs.last() {
            StreamRecord::Assistant { content: Some(items), .. } => if todos_of_items(items@) is Some {
                todos_of_items(items@)
            } else {
                last_todos(rs.drop_last())
            },
            _ => last_todos(rs.drop_last()),
        }
    }
}

/// The position of the last result record of a log.
pub open spec fn last_result(rs: Seq<StreamRecord>) -> Option<int>
    decreases rs.len(),
{
    if rs.len() == 0 {
        None
    } else if rs.last() is Result {
        Some(rs.len() - 1)
    } else {
        last_result(rs.drop_last())
    }
}

/// What a replay of `records` promises of its result `r`.
pub open spec fn replayed(records: Seq<StreamRecord>, cw: u64, r: TranscriptParseResult) -> bool {
    &&& forall|m: int, j: int|
        0 <= m < r.messages@.len() && 0 <= j < calls_of(r.messages@[m]).len() ==> {
            let t = #[trigger] calls_of(r.messages@[m])[j];
            &&& (t.status.is_terminal() <==> has_result(records, t.id@))
            &&& (t.status.is_terminal() ==> outcome_from(t, model_of(records).results))
            &&& call_consistent(t)
        }
    &&& r.summaries@.map_values(|t: TranscriptSummary| t.summary@) == summaries_of(records)
    &&& r.subagent_tools@.len() == 0
    &&& r.pending_question matches Some(p) ==> !has_result(records, p.tool_use_id@)
    &&& todos_view(r.todos) == last_todos(records)
    &&& ids_given(records) ==> msgs_shape(r.messages@) == replay_shape(records)
    &&& match last_result(records) {
        None => r.usage is None && r.total_cost is None,
        Some(k) => match records[k] {
            StreamRecord::Result { usage, cost } => r.total_cost == cost && match usage {
                Some(u) => r.usage matches Some(snap) && Notice::Usage(
                    snap.input_tokens,
                    snap.output_tokens,
                    snap.cache_read_tokens,
                    snap.cache_creation_tokens,
                    snap.context_window,
                ) == usage_notice(u, cw) && snap.cost == cost,
                None => r.usage is None,
            },
            _ => false,
        },
    }
}

/// Replays a persisted log. Every tool call that the log opens ends up
/// completed or failed exactly when some record of the log carries its result,
/// wherever that record stands.
pub fn parse_transcript_content(records: &Vec<StreamRecord>, default_context_window: u64) -> (r: TranscriptParseResult)
    ensures
        replayed(records@, default_context_window, r),
{
    let mut messages: Vec<Message> = Vec::new();
    let mut index: Vec<(String, usize)> = Vec::new();
    let mut summaries: Vec<TranscriptSummary> = Vec::new();
    let mut results: Vec<BufferedResult> = Vec::new();
    let mut current_todos: Option<Vec<TodoItem>> = None;
    let mut last_user_text: Option<String> = None;
    let mut last_result_at: Option<usize> = None;
    let mut ask_calls: Vec<(String, Vec<Question>)> = Vec::new();
    let mut tracking = StreamTrackingState::new();
    let ghost g = ids_given(records@);
    proof {
        reveal_strlit("AskUserQuestion");
        assert(records@.take(0) =~= Seq::<StreamRecord>::empty());
        assert(summaries@.map_values(|t: TranscriptSummary| t.summary@) =~= Seq::<Seq<char>>::empty());
        assert(results@ =~= model_of(records@.take(0)).results);
        assert(msgs_shape(messages@) =~= model_of(records@.take(0)).msgs);
        assert(views(tracking.active_task_stack@) =~= model_of(records@.take(0)).stack);
    }
    let mut i: usize = 0;
    while i < records.len()
        invariant
            i <= records@.len(),
            forall|id: Seq<char>|
                #[trigger] result_for(results@, id) is Some <==> has_result(records@.take(i as int), id),
            calls_backed(messages@, results@),
            index_ok(index@, messages@.len() as int),
            summaries@.map_values(|t: TranscriptSummary| t.summary@) == summaries_of(records@.take(i as int)),
            match last_result_at {
                None => last_result(records@.take(i as int)) is None,
                Some(k) => k < i && last_result(records@.take(i as int)) == Some(k as int)
                    && records@[k as int] is Result,
            },
            g == ids_given(records@),
            todos_view(current_todos) == last_todos(records@.take(i as int)),
            results@ == model_of(records@.take(i as int)).results,
            opt_view(last_user_text) == model_of(records@.take(i as int)).last_user,
            g ==> msgs_shape(messages@) == model_of(records@.take(i as int)).msgs,
            g ==> views(tracking.active_task_stack@) == model_of(records@.take(i as int)).stack,
            g ==> index_matches(index@, msgs_shape(messages@)),
            g ==> pairs_view(tracking.tool_names@) == model_of(records@.take(i as int)).names,
        decreases records@.len() - i,
    {
        let ghost mdl = model_of(records@.take(i as int));
        proof {
            assert(model_of(records@.take(i + 1)) == step(mdl, records@[i as int])) by {
                assert(records@.take(i + 1).drop_last() =~= records@.take(i as int));
                assert(records@.take(i + 1).last() == records@[i as int]);
            }
        }
        proof {
            assert(records@.take(i + 1).drop_last() =~= records@.take(i as int));
            assert(records@.take(i + 1).last() == records@[i as int]);
            assert forall|id: Seq<char>| #[trigger] has_result(records@.take(i + 1), id) <==> (has_result(records@.take(i as int), id)
                || record_has_result(records@[i as int], id)) by {
                lemma_has_result_step(records@, i as int, id);
            }
        }
        let ghost s0 = summaries@;
        match &records[i] {
            StreamRecord::Result { .. } => {
                last_result_at = Some(i);
            },
            StreamRecord::Summary { summary: Some(t) } => {
                summaries.push(TranscriptSummary { summary: t.clone() });
                assert(summaries@.map_values(|t: TranscriptSummary| t.summary@)
                    =~= s0.map_values(|t: TranscriptSummary| t.summary@).push(t@));
            },
            StreamRecord::User { content, .. } => {
                let ghost r0 = results@;
                absorb_user(content, &mut results, &mut last_user_text);
                if let UserContent::Items(items) = content {
                    let ghost tr0 = tracking;
                    close_tasks(items, &mut tracking);
                    proof {
                        lemma_stack_after_v(tr0.active_task_stack@, items@, tr0);
                    }
                }
                assert(calls_backed(messages@, results@)) by {
                    assert forall|m: int, j: int| 0 <= m < messages@.len() && 0 <= j < calls_of(messages@[m]).len() implies {
                        let t = #[trigger] calls_of(messages@[m])[j];
                        &&& backed(t, results@)
                    } by {
                        let t = calls_of(messages@[m])[j];
                        assert(result_for(r0, t.id@) is Some ==> result_for(results@, t.id@) is Some);
                        if t.status.is_terminal() {
                            let k = choose|k: int|
                                0 <= k < r0.len() && #[trigger] r0[k].id@ == t.id@ && t.output == Some(r0[k].output)
                                    && (t.status == ToolStatus::Error <==> r0[k].is_error) && t.error == if r0[k].is_error {
                                    Some(r0[k].output)
                                } else {
                                    None
                                };
                            assert(results@[k] == r0[k]);
                            assert(results@[k].id@ == t.id@);
                        }
                    }
                }
            },
            StreamRecord::Assistant { message_id, parent_tool_use_id, content } => {
                let ghost m1 = match mdl.last_user {
                    Some(t) => Model { msgs: mdl.msgs.push(user_shape(t)), last_user: None, ..mdl },
                    None => mdl,
                };
                if let Some(text) = last_user_text.take() {
                    let ghost ms0 = messages@;
                    let ghost tv = text@;
                    messages.push(Message {
                        id: fresh_id(),
                        role: Role::User,
                        text,
                        tool_calls: None,
                        is_streaming: None,
                        timestamp: now_stamp(),
                    });
                    proof {
                        assert(msgs_shape(messages@) =~= msgs_shape(ms0).push(user_shape(tv))) by {
                            assert(calls_shape(Seq::<ToolCall>::empty()) =~= Seq::<CallShape>::empty());
                        }
                        if g {
                            lemma_index_push_user(index@, msgs_shape(ms0), tv);
                        }
                    }
                    assert(calls_backed(messages@, results@)) by {
                        assert forall|m: int, j: int| 0 <= m < messages@.len() && 0 <= j < calls_of(messages@[m]).len() implies {
                            let t = #[trigger] calls_of(messages@[m])[j];
                            &&& backed(t, results@)
                        } by {
                            assert(m < ms0.len());
                            assert(messages@[m] == ms0[m]);
                        }
                    }
                }
                let ghost tr0 = tracking;
                let parsed = parse_assistant_event(message_id, parent_tool_use_id, content, &mut tracking, false);
                let ghost pg = parsed;
                proof {
                    if let Some(items) = content {
                        if pg is None && todos_of_items(items@) is Some {
                            lemma_todos_need_a_tool(items@);
                        }
                    }
                    if g {
                        assert(records@[i as int] matches StreamRecord::Assistant { message_id, content, .. }
                            ==> message_id is Some && (content matches Some(items) ==> uses_have_ids(items@)));
                    }
                    if pg is None {
                        assert(views(tracking.active_task_stack@) =~= views(tr0.active_task_stack@));
                    }
                }
                if let Some(p) = parsed {
                    proof {
                        let items = content.unwrap();
                        if g {
                            let calls = pg.unwrap().tool_calls@;
                            lemma_opened_shapes(items@, calls, opt_view(*parent_tool_use_id), tr0.active_task_stack@);
                            assert(pairs_view(tr0.tool_names@ + calls.map_values(|t: ToolCall| name_entry(t)))
                                =~= pairs_view(tr0.tool_names@) + calls_shape(calls).map_values(
                                |c: CallShape| (c.id, c.name),
                            ));
                        }
                    }
                    let mut message = p.message;
                    let opened = match message.tool_calls {
                        Some(v) => v,
                        None => Vec::new(),
                    };
                    message.tool_calls = None;
                    proof {
                        assert forall|q: int| 0 <= q < opened@.len() implies (#[trigger] opened@[q]).status
                            == ToolStatus::Running && opened@[q].error is None && call_consistent(opened@[q]) by {
                            let items = content.unwrap();
                            let pp = pg.unwrap();
                            assert(opened_as(
                                pp.tool_calls@[q],
                                tool_uses(items@)[q],
                                opt_view(*parent_tool_use_id),
                                tr0.active_task_stack@ + task_ids(pp.tool_calls@.take(q)),
                            ));
                        }
                    }
                    proof {
                        if pg.unwrap().tool_calls@.len() == 0 {
                            assert(opened@ =~= pg.unwrap().tool_calls@);
                        }
                    }
                    let mut updated: Vec<ToolCall> = Vec::new();
                    let mut j: usize = 0;
                    while j < opened.len()
                        invariant
                            j <= opened@.len(),
                            calls_shape(updated@) == fill_all(calls_shape(opened@.take(j as int)), results@),
                            forall|q: int| 0 <= q < opened@.len() ==> (#[trigger] opened@[q]).status == ToolStatus::Running
                                && opened@[q].error is None && call_consistent(opened@[q]),
                            list_backed(updated@, results@),
                            updated@.len() == j,
                            forall|q: int| 0 <= q < j ==> (#[trigger] updated@[q]).id == opened@[q].id,
                        decreases opened@.len() - j,
                    {
                        let u = backfill(opened[j].copy(), &results);
                        let ghost u0 = updated@;
                        updated.push(u);
                        proof {
                            assert(calls_shape(updated@) =~= calls_shape(u0).push(call_shape(u)));
                            assert(fill_all(calls_shape(opened@.take(j + 1)), results@) =~= fill_all(
                                calls_shape(opened@.take(j as int)),
                                results@,
                            ).push(fill(call_shape(opened@[j as int]), results@)));
                        }
                        j = j + 1;
                    }
                    proof {
                        assert(opened@.take(opened@.len() as int) =~= opened@);
                    }
                    if let Some(items) = content {
                        let mut k: usize = 0;
                        let mut q: usize = 0;
                        while q < items.len()
                            invariant
                                k <= q,
                            decreases items@.len() - q,
                        {
                            if let ContentItem::ToolUse { name, input, .. } = &items[q] {
                                if let (Some(n), Some(qs)) = (name, &input.questions) {
                                    if str_eq(n.as_str(), "AskUserQuestion") && k < updated.len() {
                                        ask_calls.push((updated[k].id.clone(), qs.clone()));
                                    }
                                }
                                k = k + 1;
                            }
                            q = q + 1;
                        }
                    }
                    proof {
                        let items = content.unwrap();
                        if todos_of_items(items@) is Some {
                            assert(pg.unwrap().todos is Some);
                        }
                    }
                    if p.todos.is_some() {
                        current_todos = p.todos;
                    }
                    merge_message(&mut messages, &mut index, message, updated, Ghost(results@));
                }
            },
            _ => {},
        }
        proof {
            if !(records@[i as int] is Summary) || records@[i as int] matches StreamRecord::Summary { summary: None } {
                assert(summaries@.map_values(|t: TranscriptSummary| t.summary@)
                    =~= s0.map_values(|t: TranscriptSummary| t.summary@) + Seq::<Seq<char>>::empty());
            }
        }
        i = i + 1;
    }
    proof {
        assert(records@.take(records@.len() as int) =~= records@);
    }
    let ghost mf = model_of(records@);
    let ghost pre_shapes = match mf.last_user {
        Some(t) => mf.msgs.push(user_shape(t)),
        None => mf.msgs,
    };
    if let Some(text) = last_user_text {
        let ghost ms0 = messages@;
        let ghost tv = text@;
        messages.push(Message {
            id: fresh_id(),
            role: Role::User,
            text,
            tool_calls: None,
            is_streaming: None,
            timestamp: now_stamp(),
        });
        assert(calls_backed(messages@, results@)) by {
            assert forall|m: int, j: int| 0 <= m < messages@.len() && 0 <= j < calls_of(messages@[m]).len() implies {
                let t = #[trigger] calls_of(messages@[m])[j];
                &&& backed(t, results@)
            } by {
                assert(m < ms0.len());
                assert(messages@[m] == ms0[m]);
            }
        }
    }
    proof {
        if g {
            if mf.last_user is Some {
                assert(calls_shape(Seq::<ToolCall>::empty()) =~= Seq::<CallShape>::empty());
                assert(msgs_shape(messages@) =~= pre_shapes);
            } else {
                assert(msgs_shape(messages@) == pre_shapes);
            }
        }
    }
    backfill_all(&mut messages, &results);
    proof {
        if g {
            assert(msgs_shape(messages@) =~= replay_shape(records@));
        }
    }
    let mut pending_question: Option<PendingQuestionFromTranscript> = None;
    let mut a: usize = 0;
    while a < ask_calls.len()
        invariant
            forall|id: Seq<char>| #[trigger] result_for(results@, id) is Some <==> has_result(records@, id),
            pending_question matches Some(p) ==> !has_result(records@, p.tool_use_id@),
        decreases ask_calls@.len() - a,
    {
        if find_result(&results, &ask_calls[a].0).is_none() {
            pending_question = Some(PendingQuestionFromTranscript {
                tool_use_id: ask_calls[a].0.clone(),
                questions: ask_calls[a].1.clone(),
            });
        }
        a = a + 1;
    }
    let (usage, total_cost) = match last_result_at {
        Some(k) => match &records[k] {
            StreamRecord::Result { usage, cost } => (
                match usage {
                    Some(u) => Some(usage_snapshot(u, cost, default_context_window)),
                    None => None,
                },
                copy_opt(cost),
            ),
            _ => (None, None),
        },
        None => (None, None),
    };
    TranscriptParseResult {
        messages,
        todos: current_todos,
        usage,
        total_cost,
        pending_question,
        summaries,
        subagent_tools: Vec::new(),
    }
}

/// A sub-agent's persisted log, replayed, by its external agent identifier.
pub struct SubagentTranscript {
    pub agent_id: String,
    pub replay: TranscriptParseResult,
}

/// Replays a sub-agent's log for stitching; its own sub-agents are not read.
pub fn replay_subagent(agent_id: String, records: &Vec<StreamRecord>, default_context_window: u64) -> (r:
    SubagentTranscript)
    ensures
        r.agent_id == agent_id,
        replayed(records@, default_context_window, r.replay),
{
    SubagentTranscript { agent_id, replay: parse_transcript_content(records, default_context_window) }
}

/// How many of `tools` have `id` as their parent.
pub open spec fn count_children(tools: Seq<ToolCall>, id: Seq<char>) -> nat
    decreases tools.len(),
{
    if tools.len() == 0 {
        0
    } else {
        count_children(tools.drop_last(), id) + if opt_view(tools.last().parent_tool_id) == Some(id) {
            1nat
        } else {
            0nat
        }
    }
}

fn count_children_of(tools: &Vec<ToolCall>, id: &String) -> (r: usize)
    ensures
        r == count_children(tools@, id@),
{
    let mut c: usize = 0;
    let mut i: usize = 0;
    assert(tools@.take(0) =~= Seq::<ToolCall>::empty());
    while i < tools.len()
        invariant
            i <= tools@.len(),
            c == count_children(tools@.take(i as int), id@),
            c <= i,
        decreases tools@.len() - i,
    {
        assert(tools@.take(i + 1).drop_last() =~= tools@.take(i as int));
        if let Some(p) = &tools[i].parent_tool_id {
            if *p == *id {
                c = c + 1;
            }
        }
        i = i + 1;
    }
    assert(tools@.take(tools@.len() as int) =~= tools@);
    c
}

/// The agent identifier that a delegating call's result names.
fn task_agent_id(t: &ToolCall) -> (r: Option<String>)
    ensures
        opt_view(r) == call_agent(*t),
{
    proof {
        reveal_strlit("Task");
    }
    if !str_eq(t.name.as_str(), "Task") {
        return None;
    }
    match &t.output {
        Some(o) => extract_agent_id_from_result(o.as_str()),
        None => None,
    }
}

/// The agent that a call names, when it is a delegating call whose result
/// names one.
pub open spec fn call_agent(t: ToolCall) -> Option<Seq<char>> {
    if t.name@ == task_name() {
        match t.output {
            Some(o) => agent_id_spec(o@),
            None => None,
        }
    } else {
        None
    }
}

pub open spec fn calls_agents(cs: Seq<ToolCall>) -> Seq<Seq<char>> {
    cs.filter_map(|t: ToolCall| call_agent(t))
}

/// The agents that the delegating calls of `ms` name, in order.
pub open spec fn agents_of(ms: Seq<Message>) -> Seq<Seq<char>>
    decreases ms.len(),
{
    if ms.len() == 0 {
        Seq::empty()
    } else {
        agents_of(ms.drop_last()) + calls_agents(calls_of(ms.last()))
    }
}

/// The external agent identifiers that the delegating calls of a replayed
/// transcript name, in order: the sub-agent logs to read.
pub fn subagent_agent_ids(result: &TranscriptParseResult) -> (r: Vec<String>)
    ensures
        r@.map_values(|s: String| s@) == agents_of(result.messages@),
{
    let mut out: Vec<String> = Vec::new();
    let mut m: usize = 0;
    let ghost ms = result.messages@;
    assert(ms.take(0) =~= Seq::<Message>::empty());
    assert(out@.map_values(|s: String| s@) =~= Seq::<Seq<char>>::empty());
    while m < result.messages.len()
        invariant
            m <= ms.len(),
            ms == result.messages@,
            out@.map_values(|s: String| s@) == agents_of(ms.take(m as int)),
        decreases ms.len() - m,
    {
        let ghost o0 = out@.map_values(|s: String| s@);
        assert(ms.take(m + 1).drop_last() =~= ms.take(m as int));
        assert(ms.take(m + 1).last() == ms[m as int]);
        match &result.messages[m].tool_calls {
            Some(tools) => {
                let mut j: usize = 0;
                assert(tools@.take(0) =~= Seq::<ToolCall>::empty());
                assert(calls_agents(tools@.take(0)) =~= Seq::<Seq<char>>::empty()) by {
                    reveal(Seq::filter_map);
                }
                assert(o0 + Seq::<Seq<char>>::empty() =~= o0);
                while j < tools.len()
                    invariant
                        j <= tools@.len(),
                        out@.map_values(|s: String| s@) == o0 + calls_agents(tools@.take(j as int)),
                    decreases tools@.len() - j,
                {
                    let ghost o1 = out@.map_values(|s: String| s@);
                    proof {
                        tools@.lemma_filter_map_take_succ(|t: ToolCall| call_agent(t), j as int);
                    }
                    if let Some(a) = task_agent_id(&tools[j]) {
                        out.push(a);
                        assert(out@.map_values(|s: String| s@) =~= o1.push(a@));
                    }
                    assert(out@.map_values(|s: String| s@) =~= o0 + calls_agents(tools@.take(j + 1)));
                    j = j + 1;
                }
                assert(tools@.take(tools@.len() as int) =~= tools@);
            },
            None => {
                assert(calls_agents(Seq::<ToolCall>::empty()) =~= Seq::<Seq<char>>::empty()) by {
                    reveal(Seq::filter_map);
                }
                assert(o0 + Seq::<Seq<char>>::empty() =~= o0);
            },
        }
        m = m + 1;
    }
    assert(ms.take(ms.len() as int) =~= ms);
    out
}

/// Every tool call of `ms`, message by message.
pub open spec fn all_calls(ms: Seq<Message>) -> Seq<ToolCall>
    decreases ms.len(),
{
    if ms.len() == 0 {
        Seq::empty()
    } else {
        all_calls(ms.drop_last()) + calls_of(ms.last())
    }
}

/// A sub-agent's call as stitched under `parent`: it keeps a parent of its own.
pub open spec fn adopted(t: ToolCall, parent: String) -> ToolCall {
    if t.parent_tool_id is None {
        ToolCall { parent_tool_id: Some(parent), ..t }
    } else {
        t
    }
}

pub open spec fn is_first_sub(subs: Seq<SubagentTranscript>, a: Seq<char>, k: int) -> bool {
    &&& 0 <= k < subs.len()
    &&& subs[k].agent_id@ == a
    &&& forall|j: int| 0 <= j < k ==> (#[trigger] subs[j]).agent_id@ != a
}

/// The first log of agent `a`.
pub open spec fn first_sub(subs: Seq<SubagentTranscript>, a: Seq<char>) -> Option<int> {
    if exists|k: int| is_first_sub(subs, a, k) {
        Some(choose|k: int| is_first_sub(subs, a, k))
    } else {
        None
    }
}

/// The stitched calls of the sub-agent that call `t` names, if its log is there.
pub open spec fn children_for(t: ToolCall, subs: Seq<SubagentTranscript>) -> Seq<ToolCall> {
    match call_agent(t) {
        Some(a) => match first_sub(subs, a) {
            Some(k) => all_calls(subs[k].replay.messages@).map_values(|c: ToolCall| adopted(c, t.id)),
            None => Seq::empty(),
        },
        None => Seq::empty(),
    }
}

pub open spec fn calls_children(cs: Seq<ToolCall>, subs: Seq<SubagentTranscript>) -> Seq<ToolCall>
    decreases cs.len(),
{
    if cs.len() == 0 {
        Seq::empty()
    } else {
        calls_children(cs.drop_last(), subs) + children_for(cs.last(), subs)
    }
}

/// The sub-agent calls that stitching collects: for each delegating call of
/// `ms` in order whose agent's log is among `subs` (the first such), the calls
/// of that log's replay, each adopted by the delegating call.
pub open spec fn stitched(ms: Seq<Message>, subs: Seq<SubagentTranscript>) -> Seq<ToolCall>
    decreases ms.len(),
{
    if ms.len() == 0 {
        Seq::empty()
    } else {
        stitched(ms.drop_last(), subs) + calls_children(calls_of(ms.last()), subs)
    }
}

/// The first sub-agent log with the given agent identifier.
fn find_subagent(subagents: &Vec<SubagentTranscript>, agent_id: &String) -> (r: Option<usize>)
    ensures
        match r {
            Some(k) => first_sub(subagents@, agent_id@) == Some(k as int),
            None => first_sub(subagents@, agent_id@) is None,
        },
{
    let mut k: usize = 0;
    while k < subagents.len()
        invariant
            k <= subagents@.len(),
            forall|j: int| 0 <= j < k ==> (#[trigger] subagents@[j]).agent_id@ != agent_id@,
        decreases subagents@.len() - k,
    {
        if subagents[k].agent_id == *agent_id {
            proof {
                assert(is_first_sub(subagents@, agent_id@, k as int));
                let c = choose|c: int| is_first_sub(subagents@, agent_id@, c);
                if c < k {
                } else if c > k {
                    assert(subagents@[k as int].agent_id@ != agent_id@);
                }
            }
            return Some(k);
        }
        k = k + 1;
    }
    proof {
        if exists|c: int| is_first_sub(subagents@, agent_id@, c) {
            let c = choose|c: int| is_first_sub(subagents@, agent_id@, c);
            assert(subagents@[c].agent_id@ != agent_id@);
        }
    }
    None
}

/// Appends the tool calls of a replayed sub-agent log, each adopted by the
/// delegating call `task_id`.
fn collect_children(sub: &TranscriptParseResult, task_id: &String, out: &mut Vec<ToolCall>)
    ensures
        final(out)@ == old(out)@ + all_calls(sub.messages@).map_values(|c: ToolCall| adopted(c, *task_id)),
{
    let ghost ms = sub.messages@;
    let ghost o0 = out@;
    let mut m: usize = 0;
    assert(ms.take(0) =~= Seq::<Message>::empty());
    assert(o0 + all_calls(ms.take(0)).map_values(|c: ToolCall| adopted(c, *task_id)) =~= o0);
    while m < sub.messages.len()
        invariant
            m <= ms.len(),
            ms == sub.messages@,
            o0 == old(out)@,
            out@ == o0 + all_calls(ms.take(m as int)).map_values(|c: ToolCall| adopted(c, *task_id)),
        decreases ms.len() - m,
    {
        assert(ms.take(m + 1).drop_last() =~= ms.take(m as int));
        assert(ms.take(m + 1).last() == ms[m as int]);
        let ghost before = out@;
        let ghost cs = calls_of(ms[m as int]);
        if let Some(tools) = &sub.messages[m].tool_calls {
            let mut j: usize = 0;
            assert(before + cs.take(0).map_values(|c: ToolCall| adopted(c, *task_id)) =~= before);
            while j < tools.len()
                invariant
                    j <= tools@.len(),
                    tools@ == cs,
                    out@ == before + cs.take(j as int).map_values(|c: ToolCall| adopted(c, *task_id)),
                decreases tools@.len() - j,
            {
                let mut t = tools[j].copy();
                if t.parent_tool_id.is_none() {
                    t.parent_tool_id = Some(task_id.clone());
                }
                assert(t == adopted(cs[j as int], *task_id));
                out.push(t);
                assert(cs.take(j + 1).map_values(|c: ToolCall| adopted(c, *task_id)) =~= cs.take(
                    j as int,
                ).map_values(|c: ToolCall| adopted(c, *task_id)).push(t));
                j = j + 1;
            }
            assert(cs.take(cs.len() as int) =~= cs);
        } else {
            assert(cs =~= Seq::<ToolCall>::empty());
        }
        assert(all_calls(ms.take(m + 1)) == all_calls(ms.take(m as int)) + cs);
        assert((all_calls(ms.take(m as int)) + cs).map_values(|c: ToolCall| adopted(c, *task_id)) =~= all_calls(
            ms.take(m as int),
        ).map_values(|c: ToolCall| adopted(c, *task_id)) + cs.map_values(|c: ToolCall| adopted(c, *task_id)));
        m = m + 1;
    }
    assert(ms.take(ms.len() as int) =~= ms);
}

/// Each call of `after` is the call of `before` at the same place, with at
/// most its sub-agent's child count changed.
pub open spec fn same_calls_but_counts(before: Seq<ToolCall>, after: Seq<ToolCall>) -> bool {
    &&& before.len() == after.len()
    &&& forall|j: int|
        0 <= j < before.len() ==> {
            let a = #[trigger] after[j];
            let b = before[j];
            &&& a.id == b.id
            &&& a.name == b.name
            &&& a.input == b.input
            &&& a.status == b.status
            &&& a.output == b.output
            &&& a.error == b.error
            &&& a.parent_tool_id == b.parent_tool_id
            &&& a.started_at == b.started_at
            &&& a.ended_at == b.ended_at
            &&& match (a.subagent, b.subagent) {
                (Some(x), Some(y)) => x.agent_type == y.agent_type && x.description == y.description
                    && x.agent_id == y.agent_id,
                (None, None) => true,
                _ => false,
            }
        }
}

/// A delegating call with sub-agent information has its child count set
/// exactly when it has children: the number of sub-agent tool calls that have
/// it as their parent. No other call has a child count.
pub open spec fn counts_match(t: ToolCall, children: Seq<ToolCall>) -> bool {
    match t.subagent {
        Some(info) => match info.tool_count {
            Some(c) => t.name@ == task_name() && c == count_children(children, t.id@) && c > 0,
            None => !(t.name@ == task_name() && count_children(children, t.id@) > 0),
        },
        None => true,
    }
}

/// Stitches replayed sub-agent logs into a replayed transcript, one level
/// deep: the calls of each log that a delegating call's result names are
/// collected, adopted by that call unless they have a parent, and each
/// delegating call's child count is filled in. The sub-agents' own sub-agents
/// are not read.
pub fn parse_transcript_with_subagents(
    result: TranscriptParseResult,
    subagents: &Vec<SubagentTranscript>,
) -> (r: TranscriptParseResult)
    requires
        forall|m: int, j: int|
            0 <= m < result.messages@.len() && 0 <= j < calls_of(result.messages@[m]).len()
                ==> call_consistent(#[trigger] calls_of(result.messages@[m])[j]),
    ensures
        r.subagent_tools@ == stitched(result.messages@, subagents@),
        r.messages@.len() == result.messages@.len(),
        forall|m: int|
            0 <= m < r.messages@.len() ==> {
                &&& same_calls_but_counts(calls_of(result.messages@[m]), calls_of(#[trigger] r.messages@[m]))
                &&& r.messages@[m].id == result.messages@[m].id
                &&& r.messages@[m].role == result.messages@[m].role
                &&& r.messages@[m].text == result.messages@[m].text
                &&& r.messages@[m].is_streaming == result.messages@[m].is_streaming
                &&& r.messages@[m].timestamp == result.messages@[m].timestamp
            },
        forall|m: int, j: int|
            0 <= m < r.messages@.len() && 0 <= j < calls_of(r.messages@[m]).len() ==> counts_match(
                #[trigger] calls_of(r.messages@[m])[j],
                r.subagent_tools@,
            ),
        r.todos == result.todos,
        r.usage == result.usage,
        r.total_cost == result.total_cost,
        r.pending_question == result.pending_question,
        r.summaries == result.summaries,
{
    let mut all: Vec<ToolCall> = Vec::new();
    let ghost ms = result.messages@;
    let mut m: usize = 0;
    assert(ms.take(0) =~= Seq::<Message>::empty());
    while m < result.messages.len()
        invariant
            m <= ms.len(),
            ms == result.messages@,
            all@ == stitched(ms.take(m as int), subagents@),
        decreases ms.len() - m,
    {
        assert(ms.take(m + 1).drop_last() =~= ms.take(m as int));
        assert(ms.take(m + 1).last() == ms[m as int]);
        let ghost before = all@;
        let ghost cs = calls_of(ms[m as int]);
        if let Some(tools) = &result.messages[m].tool_calls {
            let mut j: usize = 0;
            assert(cs.take(0) =~= Seq::<ToolCall>::empty());
            assert(before + calls_children(cs.take(0), subagents@) =~= before);
            while j < tools.len()
                invariant
                    j <= tools@.len(),
                    tools@ == cs,
                    all@ == before + calls_children(cs.take(j as int), subagents@),
                decreases tools@.len() - j,
            {
                assert(cs.take(j + 1).drop_last() =~= cs.take(j as int));
                assert(cs.take(j + 1).last() == cs[j as int]);
                let ghost a0 = all@;
                if let Some(a) = task_agent_id(&tools[j]) {
                    if let Some(k) = find_subagent(subagents, &a) {
                        collect_children(&subagents[k].replay, &tools[j].id, &mut all);
                    } else {
                        assert(children_for(cs[j as int], subagents@) =~= Seq::<ToolCall>::empty());
                    }
                } else {
                    assert(children_for(cs[j as int], subagents@) =~= Seq::<ToolCall>::empty());
                }
                assert(all@ =~= a0 + children_for(cs[j as int], subagents@));
                j = j + 1;
            }
            assert(cs.take(cs.len() as int) =~= cs);
        } else {
            assert(cs =~= Seq::<ToolCall>::empty());
            assert(calls_children(cs, subagents@) =~= Seq::<ToolCall>::empty());
        }
        m = m + 1;
    }
    assert(ms.take(ms.len() as int) =~= ms);
    let TranscriptParseResult { messages, todos, usage, total_cost, pending_question, summaries, subagent_tools: _ } = result;
    let ghost ms0 = messages@;
    assert(ms0 == result.messages@);
    let mut messages = messages;
    proof {
        reveal_strlit("Task");
    }
    let n = messages.len();
    let mut m: usize = 0;
    while m < n
        invariant
            n == messages@.len(),
            n == ms0.len(),
            m <= n,
            forall|a: int, j: int|
                0 <= a < ms0.len() && 0 <= j < calls_of(ms0[a]).len()
                    ==> call_consistent(#[trigger] calls_of(ms0[a])[j]),
            forall|a: int| m <= a < n ==> #[trigger] messages@[a] == ms0[a],
            forall|a: int|
                0 <= a < m ==> {
                    &&& same_calls_but_counts(calls_of(ms0[a]), calls_of(#[trigger] messages@[a]))
                    &&& messages@[a].id == ms0[a].id
                    &&& messages@[a].role == ms0[a].role
                    &&& messages@[a].text == ms0[a].text
                    &&& messages@[a].is_streaming == ms0[a].is_streaming
                    &&& messages@[a].timestamp == ms0[a].timestamp
                },
            forall|a: int, j: int|
                0 <= a < m && 0 <= j < calls_of(messages@[a]).len() ==> counts_match(
                    #[trigger] calls_of(messages@[a])[j],
                    all@,
                ),
        decreases n - m,
    {
        let mut cur = placeholder();
        messages.set_and_swap(m, &mut cur);
        assert(cur == ms0[m as int]);
        if let Some(calls) = cur.tool_calls {
            assert forall|q: int| 0 <= q < calls@.len() implies call_consistent(#[trigger] calls@[q]) by {
                assert(calls@[q] == calls_of(ms0[m as int])[q]);
            }
            let mut out: Vec<ToolCall> = Vec::new();
            let mut j: usize = 0;
            while j < calls.len()
                invariant
                    calls@ == calls_of(ms0[m as int]),
                    m < ms0.len(),
                    forall|q: int| 0 <= q < calls@.len() ==> call_consistent(#[trigger] calls@[q]),
                    j <= calls@.len(),
                    same_calls_but_counts(calls@.take(j as int), out@),
                    forall|q: int| 0 <= q < out@.len() ==> counts_match(#[trigger] out@[q], all@),
                decreases calls@.len() - j,
            {
                let mut t = calls[j].copy();
                if str_eq(t.name.as_str(), "Task") {
                    let c = count_children_of(&all, &t.id);
                    if c > 0 {
                        if let Some(info) = &mut t.subagent {
                            info.tool_count = Some(c);
                        }
                    }
                }
                out.push(t);
                j = j + 1;
                assert(same_calls_but_counts(calls@.take(j as int), out@)) by {
                    assert forall|q: int| 0 <= q < j implies calls@.take(j as int)[q] == calls@[q] by {}
                }
            }
            assert(calls@.take(calls@.len() as int) =~= calls@);
            cur.tool_calls = Some(out);
        }
        let ghost cg = cur;
        messages.set(m, cur);
        proof {
            assert(messages@[m as int] == cg);
            assert forall|a: int| 0 <= a < m + 1 implies {
                &&& same_calls_but_counts(calls_of(ms0[a]), calls_of(#[trigger] messages@[a]))
                &&& messages@[a].id == ms0[a].id
                &&& messages@[a].role == ms0[a].role
                &&& messages@[a].text == ms0[a].text
                &&& messages@[a].is_streaming == ms0[a].is_streaming
                &&& messages@[a].timestamp == ms0[a].timestamp
            } by {
                if a == m {
                    if ms0[a].tool_calls is None {
                        assert(calls_of(cg) =~= calls_of(ms0[a]));
                    }
                }
            }
        }
        m = m + 1;
    }
    TranscriptParseResult { messages, todos, usage, total_cost, pending_question, summaries, subagent_tools: all }
}

/// Two replays of the same log agree: a tool call with a given identifier is
/// settled in one exactly when it is settled in the other, and the summaries,
/// the total cost and the usage snapshot are the same.
pub proof fn lemma_replay_agrees(
    records: Seq<StreamRecord>,
    cw: u64,
    r1: TranscriptParseResult,
    r2: TranscriptParseResult,
    m1: int,
    j1: int,
    m2: int,
    j2: int,
)
    requires
        replayed(records, cw, r1),
        replayed(records, cw, r2),
        0 <= m1 < r1.messages@.len(),
        0 <= j1 < calls_of(r1.messages@[m1]).len(),
        0 <= m2 < r2.messages@.len(),
        0 <= j2 < calls_of(r2.messages@[m2]).len(),
        calls_of(r1.messages@[m1])[j1].id@ == calls_of(r2.messages@[m2])[j2].id@,
    ensures
        calls_of(r1.messages@[m1])[j1].status.is_terminal() == calls_of(r2.messages@[m2])[j2].status.is_terminal(),
        r1.summaries@.map_values(|t: TranscriptSummary| t.summary@) == r2.summaries@.map_values(
            |t: TranscriptSummary| t.summary@,
        ),
        r1.total_cost == r2.total_cost,
        r1.usage == r2.usage,
{
    let t1 = calls_of(r1.messages@[m1])[j1];
    let t2 = calls_of(r2.messages@[m2])[j2];
    assert(t1.status.is_terminal() <==> has_result(records, t1.id@));
    assert(t2.status.is_terminal() <==> has_result(records, t2.id@));
}

/// Replaying a log twice yields the same messages and tool calls, apart from
/// the identifiers that the replay makes up for user messages and the times,
/// provided every assistant record names its message and its tool calls (else
/// the made-up identifiers differ between runs).
pub proof fn lemma_replay_idempotent(
    records: Seq<StreamRecord>,
    cw: u64,
    r1: TranscriptParseResult,
    r2: TranscriptParseResult,
)
    requires
        ids_given(records),
        replayed(records, cw, r1),
        replayed(records, cw, r2),
    ensures
        msgs_shape(r1.messages@) == msgs_shape(r2.messages@),
        todos_view(r1.todos) == todos_view(r2.todos),
        r1.summaries@.map_values(|t: TranscriptSummary| t.summary@) == r2.summaries@.map_values(
            |t: TranscriptSummary| t.summary@,
        ),
        r1.total_cost == r2.total_cost,
        r1.usage == r2.usage,
{
}

} // verus!
