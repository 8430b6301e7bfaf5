//! Stream records as the engine reads them: each field that the logic looks at,
//! held as a plain value. Decoding the text of a line into a record is the
//! caller's work; everything decided from the fields is done here.
use vstd::prelude::*;
use crate::events::Question;

verus! {

/// A field of a structured value: absent, a string, or some other value.
#[derive(Clone, Debug, PartialEq, Eq)]
pub enum FieldValue {
    Missing,
    Text(String),
    NonText,
}

/// One entry of a todo list as written by the agent, before validation.
#[derive(Clone, Debug, PartialEq, Eq)]
pub struct RawTodo {
    pub content: Option<String>,
    pub status: Option<String>,
    /// The `activeForm` field.
    pub active_form: FieldValue,
    /// The `active_form` field, read when `activeForm` is absent.
    pub active_form_snake: FieldValue,
}

/// The input payload of a tool invocation.
#[derive(Clone, Debug, PartialEq, Eq)]
pub struct ToolInput {
    /// The payload's JSON text, carried through unchanged.
    pub raw: String,
    /// The `parent_tool_id` field.
    pub parent_tool_id: FieldValue,
    /// The `parentToolId` field, read when `parent_tool_id` is absent.
    pub parent_tool_id_camel: FieldValue,
    pub subagent_type: Option<String>,
    pub description: Option<String>,
    /// The `todos` list, when the field holds a list.
    pub todos: Option<Vec<RawTodo>>,
    /// The `questions` list, when it is present and well formed.
    pub questions: Option<Vec<Question>>,
}

/// One content item of an assistant or user record.
#[derive(Clone, Debug, PartialEq, Eq)]
pub enum ContentItem {
    Text { text: Option<String> },
    ToolUse { id: Option<String>, name: Option<String>, input: ToolInput },
    /// A tool result; `output` is its content as display text.
    ToolResult { tool_use_id: Option<String>, is_error: Option<bool>, output: String },
    Other,
}

/// The content of a user record.
#[derive(Clone, Debug, PartialEq, Eq)]
pub enum UserContent {
    Text(String),
    Items(Vec<ContentItem>),
    Absent,
}

/// The token counts of a result record.
#[derive(Clone, Debug, PartialEq, Eq)]
pub struct UsageRecord {
    pub input_tokens: Option<u64>,
    pub output_tokens: Option<u64>,
    pub cache_read_input_tokens: Option<u64>,
    pub cache_creation_input_tokens: Option<u64>,
    /// The context window that the first model entry reports.
    pub context_window: Option<u64>,
}

/// One record of the stream, by its discriminator.
#[derive(Clone, Debug, PartialEq, Eq)]
pub enum StreamRecord {
    System { transcript_path: Option<String>, session_id: Option<String> },
    Assistant {
        message_id: Option<String>,
        parent_tool_use_id: Option<String>,
        /// The content list; absent when the record carries none.
        content: Option<Vec<ContentItem>>,
    },
    User { parent_tool_use_id: Option<String>, content: UserContent },
    /// A result record; `usage` is absent when it carries no usage object, and
    /// `cost` is the total monetary cost as the decimal text the record gave.
    Result { usage: Option<UsageRecord>, cost: Option<String> },
    Summary { summary: Option<String> },
    /// Any other discriminator, or none.
    Other { kind: String },
}

} // verus!
