//! The values that the engine builds and the notifications it publishes.
use vstd::prelude::*;
use crate::text::copy_opt;

verus! {

/// Where a tool call stands: it only ever moves from running to a terminal state.
#[derive(Clone, Copy, Debug, PartialEq, Eq, Structural)]
pub enum ToolStatus {
    Running,
    Completed,
    Error,
}

impl ToolStatus {
    pub open spec fn is_terminal(self) -> bool {
        self != ToolStatus::Running
    }

    /// The status as the front end spells it.
    pub fn label(&self) -> (r: &'static str)
        ensures
            *self == ToolStatus::Running ==> r@ == "running"@,
            *self == ToolStatus::Completed ==> r@ == "completed"@,
            *self == ToolStatus::Error ==> r@ == "error"@,
    {
        proof {
            reveal_strlit("running");
            reveal_strlit("completed");
            reveal_strlit("error");
        }
        match self {
            ToolStatus::Running => "running",
            ToolStatus::Completed => "completed",
            ToolStatus::Error => "error",
        }
    }
}

/// Who wrote a message.
#[derive(Clone, Copy, Debug, PartialEq, Eq, Structural)]
pub enum Role {
    Assistant,
    User,
}

/// What is known of the sub-agent behind a delegating call.
#[derive(Clone, Debug, PartialEq, Eq)]
pub struct SubagentInfo {
    pub agent_type: String,
    pub description: String,
    pub agent_id: Option<String>,
    pub tool_count: Option<usize>,
}

impl SubagentInfo {
    /// A field-for-field copy.
    pub fn copy(&self) -> (r: Self)
        ensures
            r == *self,
    {
        SubagentInfo {
            agent_type: self.agent_type.clone(),
            description: self.description.clone(),
            agent_id: copy_opt(&self.agent_id),
            tool_count: self.tool_count,
        }
    }
}

/// One tool invocation and, once known, its outcome.
#[derive(Clone, Debug, PartialEq, Eq)]
pub struct ToolCall {
    pub id: String,
    pub name: String,
    /// The input payload's JSON text.
    pub input: String,
    pub status: ToolStatus,
    pub output: Option<String>,
    pub error: Option<String>,
    pub parent_tool_id: Option<String>,
    pub started_at: Option<String>,
    pub ended_at: Option<String>,
    pub subagent: Option<SubagentInfo>,
}

impl ToolCall {
    /// A field-for-field copy.
    pub fn copy(&self) -> (r: Self)
        ensures
            r == *self,
    {
        ToolCall {
            id: self.id.clone(),
            name: self.name.clone(),
            input: self.input.clone(),
            status: self.status,
            output: copy_opt(&self.output),
            error: copy_opt(&self.error),
            parent_tool_id: copy_opt(&self.parent_tool_id),
            started_at: copy_opt(&self.started_at),
            ended_at: copy_opt(&self.ended_at),
            subagent: match &self.subagent {
                Some(s) => Some(s.copy()),
                None => None,
            },
        }
    }
}

/// A copy of a list of tool calls.
pub fn copy_calls(v: &Vec<ToolCall>) -> (r: Vec<ToolCall>)
    ensures
        r@ == v@,
{
    let mut r: Vec<ToolCall> = Vec::new();
    let mut i: usize = 0;
    while i < v.len()
        invariant
            i <= v@.len(),
            r@ == v@.take(i as int),
        decreases v@.len() - i,
    {
        r.push(v[i].copy());
        assert(r@ =~= v@.take(i + 1));
        i = i + 1;
    }
    assert(v@.take(v@.len() as int) =~= v@);
    r
}

/// A partial change to a tool call that was already announced.
#[derive(Clone, Debug, PartialEq, Eq, Default)]
pub struct ToolUpdate {
    pub parent_tool_id: Option<String>,
    pub status: Option<String>,
    pub subagent: Option<SubagentInfo>,
}

/// A message of the conversation, with the tool calls it opened.
#[derive(Clone, Debug, PartialEq, Eq)]
pub struct Message {
    pub id: String,
    pub role: Role,
    pub text: String,
    pub tool_calls: Option<Vec<ToolCall>>,
    pub is_streaming: Option<bool>,
    pub timestamp: String,
}

/// One entry of the agent's todo list.
#[derive(Clone, Debug, PartialEq, Eq)]
pub struct TodoItem {
    pub content: String,
    pub status: String,
    pub active_form: String,
}

/// A full snapshot of the token counts of a session, with the monetary cost
/// as the decimal text that the stream reported.
#[derive(Clone, Debug, PartialEq, Eq)]
pub struct SessionUsage {
    pub input_tokens: u64,
    pub output_tokens: u64,
    pub cache_read_tokens: u64,
    pub cache_creation_tokens: u64,
    pub context_window: u64,
    pub cost: Option<String>,
}

#[derive(Clone, Debug, PartialEq, Eq)]
pub struct QuestionOption {
    pub label: String,
    pub description: String,
}

#[derive(Clone, Debug, PartialEq, Eq)]
pub struct Question {
    pub question: String,
    pub header: String,
    pub options: Vec<QuestionOption>,
    pub multi_select: bool,
}

impl QuestionOption {
    /// A field-for-field copy.
    pub fn copy(&self) -> (r: Self)
        ensures
            r == *self,
    {
        QuestionOption { label: self.label.clone(), description: self.description.clone() }
    }
}

impl Question {
    pub open spec fn same_as(self, o: Question) -> bool {
        &&& self.question == o.question
        &&& self.header == o.header
        &&& self.options@ == o.options@
        &&& self.multi_select == o.multi_select
    }

    /// A field-for-field copy.
    pub fn copy(&self) -> (r: Self)
        ensures
            r.same_as(*self),
    {
        let mut options: Vec<QuestionOption> = Vec::new();
        let mut i: usize = 0;
        while i < self.options.len()
            invariant
                i <= self.options@.len(),
                options@ == self.options@.take(i as int),
            decreases self.options@.len() - i,
        {
            options.push(self.options[i].copy());
            assert(options@ =~= self.options@.take(i + 1));
            i = i + 1;
        }
        assert(self.options@.take(self.options@.len() as int) =~= self.options@);
        Question {
            question: self.question.clone(),
            header: self.header.clone(),
            options,
            multi_select: self.multi_select,
        }
    }
}

/// A multi-choice question waiting for the human.
#[derive(Clone, Debug, PartialEq, Eq)]
pub struct PendingQuestion {
    pub request_id: String,
    pub session_id: String,
    pub tool_use_id: String,
    pub questions: Vec<Question>,
    pub timestamp: i64,
}

/// A notification for the front end.
#[derive(Clone, Debug, PartialEq, Eq)]
pub enum BackendEvent {
    SessionStarted { ui_session_id: String, claude_session_id: String },
    SessionEnded { ui_session_id: String, exit_code: Option<i32>, error: Option<String> },
    MessageAssistant { ui_session_id: String, message: Message },
    ToolStarted { ui_session_id: String, tool: ToolCall },
    ToolUpdated { ui_session_id: String, tool_id: String, update: ToolUpdate },
    ToolCompleted { ui_session_id: String, tool_id: String, output: String },
    ToolError { ui_session_id: String, tool_id: String, error: String },
    TodosUpdated { ui_session_id: String, todos: Vec<TodoItem> },
    UsageUpdated { ui_session_id: String, usage: SessionUsage },
    PermissionRequested {
        request_id: String,
        tool_name: String,
        tool_input: String,
        ui_session_id: Option<String>,
    },
    PermissionResolved { request_id: String },
    QuestionRequested { request_id: String, question: PendingQuestion },
    QuestionResolved { request_id: String },
}

/// What a notification says, as plain values.
pub enum Notice {
    Started(Seq<char>),
    Ended(Option<i32>, Option<Seq<char>>),
    MessageAppended(Seq<char>),
    ToolOpened(Seq<char>),
    ParentSet(Seq<char>, Option<Seq<char>>),
    Completed(Seq<char>, Seq<char>),
    Failed(Seq<char>, Seq<char>),
    Todos(Seq<(Seq<char>, Seq<char>, Seq<char>)>),
    Usage(u64, u64, u64, u64, u64),
    PermissionAsked(Seq<char>, Seq<char>),
    PermissionDone(Seq<char>),
    QuestionAsked(Seq<char>),
    QuestionDone(Seq<char>),
}

/// The characters of each string.
pub open spec fn views(v: Seq<String>) -> Seq<Seq<char>> {
    v.map_values(|s: String| s@)
}

/// The characters of an optional string.
pub open spec fn opt_view(o: Option<String>) -> Option<Seq<char>> {
    match o {
        Some(s) => Some(s@),
        None => None,
    }
}

pub open spec fn notice_of(e: BackendEvent) -> Notice {
    match e {
        BackendEvent::SessionStarted { claude_session_id, .. } => Notice::Started(
            claude_session_id@,
        ),
        BackendEvent::SessionEnded { exit_code, error, .. } => Notice::Ended(
            exit_code,
            opt_view(error),
        ),
        BackendEvent::MessageAssistant { message, .. } => Notice::MessageAppended(message.id@),
        BackendEvent::ToolStarted { tool, .. } => Notice::ToolOpened(tool.id@),
        BackendEvent::ToolUpdated { tool_id, update, .. } => Notice::ParentSet(
            tool_id@,
            opt_view(update.parent_tool_id),
        ),
        BackendEvent::ToolCompleted { tool_id, output, .. } => Notice::Completed(
            tool_id@,
            output@,
        ),
        BackendEvent::ToolError { tool_id, error, .. } => Notice::Failed(tool_id@, error@),
        BackendEvent::TodosUpdated { todos, .. } => Notice::Todos(
            todos@.map_values(|t: TodoItem| (t.content@, t.status@, t.active_form@)),
        ),
        BackendEvent::UsageUpdated { usage, .. } => Notice::Usage(
            usage.input_tokens,
            usage.output_tokens,
            usage.cache_read_tokens,
            usage.cache_creation_tokens,
            usage.context_window,
        ),
        BackendEvent::PermissionRequested { request_id, tool_name, .. } => Notice::PermissionAsked(
            request_id@,
            tool_name@,
        ),
        BackendEvent::PermissionResolved { request_id } => Notice::PermissionDone(request_id@),
        BackendEvent::QuestionRequested { request_id, .. } => Notice::QuestionAsked(request_id@),
        BackendEvent::QuestionResolved { request_id } => Notice::QuestionDone(request_id@),
    }
}

/// The caller-assigned session a notification belongs to, if any.
pub open spec fn session_of(e: BackendEvent) -> Option<Seq<char>> {
    match e {
        BackendEvent::SessionStarted { ui_session_id, .. } => Some(ui_session_id@),
        BackendEvent::SessionEnded { ui_session_id, .. } => Some(ui_session_id@),
        BackendEvent::MessageAssistant { ui_session_id, .. } => Some(ui_session_id@),
        BackendEvent::ToolStarted { ui_session_id, .. } => Some(ui_session_id@),
        BackendEvent::ToolUpdated { ui_session_id, .. } => Some(ui_session_id@),
        BackendEvent::ToolCompleted { ui_session_id, .. } => Some(ui_session_id@),
        BackendEvent::ToolError { ui_session_id, .. } => Some(ui_session_id@),
        BackendEvent::TodosUpdated { ui_session_id, .. } => Some(ui_session_id@),
        BackendEvent::UsageUpdated { ui_session_id, .. } => Some(ui_session_id@),
        BackendEvent::PermissionRequested { ui_session_id, .. } => opt_view(ui_session_id),
        _ => None,
    }
}

pub open spec fn notices(evs: Seq<BackendEvent>) -> Seq<Notice> {
    evs.map_values(|e: BackendEvent| notice_of(e))
}

/// Every tool update among `evs` only sets a parent: status and sub-agent
/// information are left as they are.
pub open spec fn parent_updates_only(evs: Seq<BackendEvent>) -> bool {
    forall|k: int|
        0 <= k < evs.len() ==> (#[trigger] evs[k] matches BackendEvent::ToolUpdated { update, .. }
            ==> update.status is None && update.subagent is None)
}

/// Every notification of `evs` belongs to session `ui`.
pub open spec fn all_for(evs: Seq<BackendEvent>, ui: Seq<char>) -> bool {
    forall|k: int| 0 <= k < evs.len() ==> #[trigger] session_of(evs[k]) == Some(ui)
}

} // verus!
