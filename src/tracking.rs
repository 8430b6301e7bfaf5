//! The per-session state that the stream reader keeps between records.
use vstd::prelude::*;
use crate::text::{copy_opt, str_eq};

verus! {

/// The name recorded last for `id` in a list of (identifier, name) pairs.
pub open spec fn name_lookup(s: Seq<(String, String)>, id: Seq<char>) -> Option<Seq<char>>
    decreases s.len(),
{
    if s.len() == 0 {
        None
    } else if s.last().0@ == id {
        Some(s.last().1@)
    } else {
        name_lookup(s.drop_last(), id)
    }
}

/// The stack without the entries equal to `id`.
pub open spec fn without(s: Seq<String>, id: Seq<char>) -> Seq<String> {
    s.filter(|x: String| x@ != id)
}

/// State tracked while a session's stream is read, for parent/child linking.
#[derive(Debug, Default)]
pub struct StreamTrackingState {
    /// Delegating calls that are open, innermost last.
    pub active_task_stack: Vec<String>,
    /// Tool names by tool-call identifier, in the order they were seen.
    pub tool_names: Vec<(String, String)>,
    /// The session's persisted transcript, once the stream has named it.
    pub transcript_path: Option<String>,
    /// The engine's own session identifier.
    pub claude_session_id: Option<String>,
}

impl StreamTrackingState {
    pub open spec fn name_of(&self, id: Seq<char>) -> Option<Seq<char>> {
        name_lookup(self.tool_names@, id)
    }

    /// A state with nothing tracked yet.
    pub fn new() -> (r: Self)
        ensures
            r.active_task_stack@.len() == 0,
            r.tool_names@.len() == 0,
            r.transcript_path.is_none(),
            r.claude_session_id.is_none(),
    {
        StreamTrackingState {
            active_task_stack: Vec::new(),
            tool_names: Vec::new(),
            transcript_path: None,
            claude_session_id: None,
        }
    }

    /// Records the name of a tool call.
    pub fn record_tool(&mut self, id: String, name: String)
        ensures
            final(self).tool_names@ == old(self).tool_names@.push((id, name)),
            forall|k: Seq<char>|
                #[trigger] final(self).name_of(k) == if k == id@ {
                    Some(name@)
                } else {
                    old(self).name_of(k)
                },
            final(self).active_task_stack == old(self).active_task_stack,
            final(self).transcript_path == old(self).transcript_path,
            final(self).claude_session_id == old(self).claude_session_id,
    {
        let ghost before = self.tool_names@;
        self.tool_names.push((id, name));
        assert(self.tool_names@.drop_last() =~= before);
    }

    /// The name recorded for a tool call, if any.
    pub fn tool_name(&self, id: &str) -> (r: Option<String>)
        ensures
            r.is_some() == self.name_of(id@).is_some(),
            r.is_some() ==> r.unwrap()@ == self.name_of(id@).unwrap(),
    {
        let mut i: usize = self.tool_names.len();
        assert(self.tool_names@.take(i as int) =~= self.tool_names@);
        while i > 0
            invariant
                i <= self.tool_names@.len(),
                name_lookup(self.tool_names@.take(i as int), id@) == self.name_of(id@),
            decreases i,
        {
            let ghost s = self.tool_names@.take(i as int);
            assert(s.drop_last() =~= self.tool_names@.take(i - 1));
            if str_eq(self.tool_names[i - 1].0.as_str(), id) {
                return Some(self.tool_names[i - 1].1.clone());
            }
            i = i - 1;
        }
        None
    }

    /// Opens a delegating call.
    pub fn push_task(&mut self, id: String)
        ensures
            final(self).active_task_stack@ == old(self).active_task_stack@.push(id),
            final(self).tool_names == old(self).tool_names,
            final(self).transcript_path == old(self).transcript_path,
            final(self).claude_session_id == old(self).claude_session_id,
    {
        self.active_task_stack.push(id);
    }

    /// Closes a delegating call: every entry equal to `id` leaves the stack.
    pub fn remove_task(&mut self, id: &str)
        ensures
            final(self).active_task_stack@ == without(old(self).active_task_stack@, id@),
            final(self).tool_names == old(self).tool_names,
            final(self).transcript_path == old(self).transcript_path,
            final(self).claude_session_id == old(self).claude_session_id,
    {
        let mut kept: Vec<String> = Vec::new();
        let n = self.active_task_stack.len();
        let mut i: usize = 0;
        while i < n
            invariant
                n == self.active_task_stack@.len(),
                i <= n,
                kept@ == without(self.active_task_stack@.take(i as int), id@),
            decreases n - i,
        {
            let ghost s = self.active_task_stack@.take(i + 1);
            assert(s.drop_last() =~= self.active_task_stack@.take(i as int));
            assert(s.last() == self.active_task_stack@[i as int]);
            reveal(Seq::filter);
            if !str_eq(self.active_task_stack[i].as_str(), id) {
                kept.push(self.active_task_stack[i].clone());
            }
            i = i + 1;
        }
        assert(self.active_task_stack@.take(n as int) =~= self.active_task_stack@);
        self.active_task_stack = kept;
    }

    /// Notes the engine's session identifier; true when it is new or changed,
    /// which is when a session-started notification is owed.
    pub fn note_session_id(&mut self, session_id: &String) -> (changed: bool)
        ensures
            final(self).claude_session_id == Some(*session_id),
            changed == !(old(self).claude_session_id is Some
                && old(self).claude_session_id.unwrap()@ == session_id@),
            final(self).active_task_stack == old(self).active_task_stack,
            final(self).tool_names == old(self).tool_names,
            final(self).transcript_path == old(self).transcript_path,
    {
        let changed = match &self.claude_session_id {
            Some(cur) => !(*cur == *session_id),
            None => true,
        };
        self.claude_session_id = Some(session_id.clone());
        changed
    }

    /// Sets the persisted transcript's path.
    pub fn set_transcript_path(&mut self, path: &Option<String>)
        requires
            path.is_some(),
        ensures
            final(self).transcript_path == *path,
            final(self).active_task_stack == old(self).active_task_stack,
            final(self).tool_names == old(self).tool_names,
            final(self).claude_session_id == old(self).claude_session_id,
    {
        self.transcript_path = copy_opt(path);
    }
}

} // verus!
