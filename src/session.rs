//! The session table: which caller-assigned sessions exist, which still own a
//! live child process, and the command line each new child gets.
use vstd::prelude::*;
use crate::dispatch::{dispatched, process_event, Dispatch};
use crate::events::{notice_of, opt_view, session_of, views, BackendEvent, Notice};
use crate::records::StreamRecord;
use crate::text::{copy_opt, owned, str_eq};
use crate::tracking::StreamTrackingState;

verus! {

/// What a caller asks of a new session.
#[derive(Clone, Debug, PartialEq, Eq)]
pub struct SpawnSessionArgs {
    pub ui_session_id: String,
    pub working_directory: String,
    pub initial_prompt: Option<String>,
    pub resume_session: Option<String>,
    pub model: Option<String>,
}

/// The session that a spawn started.
#[derive(Clone, Debug, PartialEq, Eq)]
pub struct SpawnSessionResult {
    pub session_id: String,
}

/// One session: its working directory, the process id of its child while it
/// has one, and its stream tracking state.
pub struct ClaudeSession {
    pub ui_session_id: String,
    /// Which spawn made this session: its stream reader quotes it.
    pub spawn_seq: u64,
    pub working_directory: String,
    pub child: Option<u32>,
    pub tracking: StreamTrackingState,
}

/// How a wait for a child process ended.
#[derive(Clone, Debug, PartialEq, Eq)]
pub enum ExitOutcome {
    Exited(Option<i32>),
    WaitFailed(String),
}

/// What a non-blocking poll of a child process saw.
#[derive(Clone, Copy, Debug, PartialEq, Eq, Structural)]
pub enum PollOutcome {
    Exited,
    StillRunning,
    Failed,
}

/// The sessions, keyed by caller-assigned identifier, and the broker endpoint
/// that new children are pointed at.
pub struct ClaudeManager {
    pub sessions: Vec<ClaudeSession>,
    pub next_seq: u64,
    pub callback_port: Option<u16>,
    pub mcp_binary_path: Option<String>,
}

/// The arguments of a child: structured streaming output, the broker's
/// configuration when there is one, the resume token, the model and the prompt.
pub open spec fn args_spec(
    mcp_config_path: Option<Seq<char>>,
    initial_prompt: Option<Seq<char>>,
    resume_session: Option<Seq<char>>,
    model: Option<Seq<char>>,
) -> Seq<Seq<char>> {
    seq!["-p"@, "--output-format"@, "stream-json"@, "--verbose"@]
        + match mcp_config_path {
            Some(p) => seq!["--mcp-config"@, p, "--permission-prompt-tool"@, "mcp__horseman__request_permission"@],
            None => Seq::empty(),
        }
        + match resume_session {
            Some(r) => seq!["--resume"@, r],
            None => Seq::empty(),
        }
        + match model {
            Some(m) => seq!["--model"@, m],
            None => Seq::empty(),
        }
        + match initial_prompt {
            Some(p) => seq![p],
            None => Seq::empty(),
        }
}

fn push_str(v: &mut Vec<String>, s: &str)
    ensures
        views(final(v)@) == views(old(v)@).push(s@),
{
    v.push(owned(s));
    assert(views(v@) =~= views(old(v)@).push(s@));
}

/// The command line of a new child. A brand-new session, one without a
/// resume token, needs a prompt.
pub fn build_args(
    mcp_config_path: &Option<String>,
    initial_prompt: &Option<String>,
    resume_session: &Option<String>,
    model: &Option<String>,
) -> (r: Result<Vec<String>, String>)
    ensures
        match r {
            Ok(args) => (initial_prompt is Some || resume_session is Some) && views(args@) == args_spec(
                opt_view(*mcp_config_path),
                opt_view(*initial_prompt),
                opt_view(*resume_session),
                opt_view(*model),
            ),
            Err(e) => initial_prompt is None && resume_session is None
                && e@ == "Initial prompt required for new session"@,
        },
{
    proof {
        reveal_strlit("Initial prompt required for new session");
    }
    if initial_prompt.is_none() && resume_session.is_none() {
        return Err(owned("Initial prompt required for new session"));
    }
    let mut args: Vec<String> = Vec::new();
    push_str(&mut args, "-p");
    push_str(&mut args, "--output-format");
    push_str(&mut args, "stream-json");
    push_str(&mut args, "--verbose");
    let ghost a0 = views(args@);
    if let Some(p) = mcp_config_path {
        push_str(&mut args, "--mcp-config");
        push_str(&mut args, p.as_str());
        push_str(&mut args, "--permission-prompt-tool");
        push_str(&mut args, "mcp__horseman__request_permission");
    }
    let ghost a1 = views(args@);
    if let Some(r) = resume_session {
        push_str(&mut args, "--resume");
        push_str(&mut args, r.as_str());
    }
    let ghost a2 = views(args@);
    if let Some(m) = model {
        push_str(&mut args, "--model");
        push_str(&mut args, m.as_str());
    }
    let ghost a3 = views(args@);
    if let Some(p) = initial_prompt {
        push_str(&mut args, p.as_str());
    }
    proof {
        reveal_strlit("-p");
        reveal_strlit("--output-format");
        reveal_strlit("stream-json");
        reveal_strlit("--verbose");
        reveal_strlit("--mcp-config");
        reveal_strlit("--permission-prompt-tool");
        reveal_strlit("mcp__horseman__request_permission");
        reveal_strlit("--resume");
        reveal_strlit("--model");
        assert(a0 =~= seq!["-p"@, "--output-format"@, "stream-json"@, "--verbose"@]);
        assert(views(args@) =~= args_spec(
            opt_view(*mcp_config_path),
            opt_view(*initial_prompt),
            opt_view(*resume_session),
            opt_view(*model),
        ));
    }
    Ok(args)
}

impl ClaudeManager {
    /// Session identifiers are unique.
    pub open spec fn wf(&self) -> bool {
        forall|i: int, j: int|
            0 <= i < j < self.sessions@.len() ==> #[trigger] self.sessions@[i].ui_session_id@
                != #[trigger] self.sessions@[j].ui_session_id@
    }

    /// Where session `id` stands in the table.
    pub open spec fn slot(&self, id: Seq<char>) -> Option<int> {
        if exists|i: int| 0 <= i < self.sessions@.len() && #[trigger] self.sessions@[i].ui_session_id@ == id {
            Some(choose|i: int| 0 <= i < self.sessions@.len() && #[trigger] self.sessions@[i].ui_session_id@ == id)
        } else {
            None
        }
    }

    pub open spec fn has(&self, id: Seq<char>) -> bool {
        self.slot(id) is Some
    }

    /// The child process of session `id`, while it has one.
    pub open spec fn child_of(&self, id: Seq<char>) -> Option<u32> {
        match self.slot(id) {
            Some(i) => self.sessions@[i].child,
            None => None,
        }
    }

    /// An empty table with no broker endpoint.
    pub fn new() -> (r: Self)
        ensures
            r.wf(),
            forall|id: Seq<char>| !r.has(id),
            r.callback_port is None,
            r.mcp_binary_path is None,
    {
        ClaudeManager { sessions: Vec::new(), next_seq: 0, callback_port: None, mcp_binary_path: None }
    }

    /// Registers the broker's port, and the helper binary when it was found.
    pub fn set_hook_port(&mut self, port: u16, mcp_binary_path: Option<String>)
        ensures
            final(self).callback_port == Some(port),
            final(self).mcp_binary_path == if mcp_binary_path is Some {
                mcp_binary_path
            } else {
                old(self).mcp_binary_path
            },
            final(self).sessions == old(self).sessions,
            final(self).next_seq == old(self).next_seq,
    {
        self.callback_port = Some(port);
        if mcp_binary_path.is_some() {
            self.mcp_binary_path = mcp_binary_path;
        }
    }

    fn find(&self, id: &str) -> (r: Option<usize>)
        requires
            self.wf(),
        ensures
            r == match self.slot(id@) {
                Some(i) => Some(i as usize),
                None => None::<usize>,
            },
            r matches Some(k) ==> k < self.sessions@.len() && self.sessions@[k as int].ui_session_id@ == id@,
    {
        let mut i: usize = 0;
        while i < self.sessions.len()
            invariant
                i <= self.sessions@.len(),
                self.wf(),
                forall|k: int| 0 <= k < i ==> self.sessions@[k].ui_session_id@ != id@,
            decreases self.sessions@.len() - i,
        {
            if str_eq(self.sessions[i].ui_session_id.as_str(), id) {
                let ghost c = choose|k: int| 0 <= k < self.sessions@.len() && #[trigger] self.sessions@[k].ui_session_id@ == id@;
                assert(self.sessions@[i as int].ui_session_id@ == id@);
                assert(c == i) by {
                    if c < i {
                    } else if c > i {
                        assert(self.sessions@[i as int].ui_session_id@ != self.sessions@[c].ui_session_id@);
                    }
                }
                return Some(i);
            }
            i = i + 1;
        }
        None
    }

    /// Whether session `id` exists.
    pub fn contains(&self, id: &str) -> (r: bool)
        requires
            self.wf(),
        ensures
            r == self.has(id@),
    {
        self.find(id).is_some()
    }

    /// The child process of session `id`, while it has one.
    pub fn child_pid(&self, id: &str) -> (r: Option<u32>)
        requires
            self.wf(),
        ensures
            r == self.child_of(id@),
    {
        match self.find(id) {
            Some(k) => self.sessions[k].child,
            None => None,
        }
    }

    /// Drops session `id`, whether or not its child still runs; other sessions
    /// stay as they are.
    pub fn remove_session(&mut self, id: &str)
        requires
            old(self).wf(),
        ensures
            final(self).wf(),
            !final(self).has(id@),
            forall|k: Seq<char>| k != id@ ==> (final(self).has(k) == old(self).has(k) && final(self).child_of(k) == old(self).child_of(k)),
            final(self).callback_port == old(self).callback_port,
            final(self).mcp_binary_path == old(self).mcp_binary_path,
            final(self).next_seq == old(self).next_seq,
    {
        if let Some(k) = self.find(id) {
            let ghost s0 = self.sessions@;
            let _gone = self.sessions.remove(k);
            assert(self.sessions@ == s0.remove(k as int));
            assert(!self.has(id@)) by {
                if exists|i: int| 0 <= i < self.sessions@.len() && #[trigger] self.sessions@[i].ui_session_id@ == id@ {
                    let i = choose|i: int| 0 <= i < self.sessions@.len() && #[trigger] self.sessions@[i].ui_session_id@ == id@;
                    if i < k {
                        assert(s0[i].ui_session_id@ != s0[k as int].ui_session_id@);
                    } else {
                        assert(s0[i + 1].ui_session_id@ != s0[k as int].ui_session_id@);
                    }
                }
            }
            assert forall|key: Seq<char>| key != id@ implies (self.has(key) == old(self).has(key) && self.child_of(key) == old(self).child_of(key)) by {
                if old(self).has(key) {
                    let j = choose|i: int| 0 <= i < s0.len() && #[trigger] s0[i].ui_session_id@ == key;
                    assert(j != k);
                    let jn = if j < k { j } else { j - 1 };
                    assert(self.sessions@[jn].ui_session_id@ == key);
                    let c = choose|i: int| 0 <= i < self.sessions@.len() && #[trigger] self.sessions@[i].ui_session_id@ == key;
                    if c != jn {
                        let co = if c < k { c } else { c + 1 };
                        assert(s0[co].ui_session_id@ == key);
                        if co < j {
                            assert(s0[co].ui_session_id@ != s0[j].ui_session_id@);
                        } else if co > j {
                            assert(s0[j].ui_session_id@ != s0[co].ui_session_id@);
                        }
                    }
                }
                if self.has(key) {
                    let c = choose|i: int| 0 <= i < self.sessions@.len() && #[trigger] self.sessions@[i].ui_session_id@ == key;
                    let co = if c < k { c } else { c + 1 };
                    assert(s0[co].ui_session_id@ == key);
                }
            }
        }
    }
}

/// Two tables with the same identifiers at the same places.
pub open spec fn same_ids(a: Seq<ClaudeSession>, b: Seq<ClaudeSession>) -> bool {
    &&& a.len() == b.len()
    &&& forall|i: int| 0 <= i < a.len() ==> (#[trigger] a[i]).ui_session_id@ == b[i].ui_session_id@
}

proof fn lemma_slot_unique(m: ClaudeManager, id: Seq<char>, i: int)
    requires
        m.wf(),
        0 <= i < m.sessions@.len(),
        m.sessions@[i].ui_session_id@ == id,
    ensures
        m.slot(id) == Some(i),
{
    let c = choose|k: int| 0 <= k < m.sessions@.len() && #[trigger] m.sessions@[k].ui_session_id@ == id;
    if c < i {
        assert(m.sessions@[c].ui_session_id@ != m.sessions@[i].ui_session_id@);
    } else if c > i {
        assert(m.sessions@[i].ui_session_id@ != m.sessions@[c].ui_session_id@);
    }
}

proof fn lemma_same_ids(a: ClaudeManager, b: ClaudeManager)
    requires
        a.wf(),
        same_ids(a.sessions@, b.sessions@),
    ensures
        b.wf(),
        forall|id: Seq<char>| #[trigger] b.slot(id) == a.slot(id),
{
    assert forall|i: int, j: int| 0 <= i < j < b.sessions@.len() implies #[trigger] b.sessions@[i].ui_session_id@
        != #[trigger] b.sessions@[j].ui_session_id@ by {
        assert(a.sessions@[i].ui_session_id@ != a.sessions@[j].ui_session_id@);
    }
    assert forall|id: Seq<char>| #[trigger] b.slot(id) == a.slot(id) by {
        if a.has(id) {
            let i = a.slot(id).unwrap();
            lemma_slot_unique(a, id, i);
            lemma_slot_unique(b, id, i);
        } else if exists|i: int| 0 <= i < b.sessions@.len() && #[trigger] b.sessions@[i].ui_session_id@ == id {
            let i = choose|i: int| 0 <= i < b.sessions@.len() && #[trigger] b.sessions@[i].ui_session_id@ == id;
            assert(a.sessions@[i].ui_session_id@ == id);
        }
    }
}

fn vacant() -> (r: ClaudeSession)
{
    ClaudeSession {
        ui_session_id: String::new(),
        spawn_seq: 0,
        working_directory: String::new(),
        child: None,
        tracking: StreamTrackingState::new(),
    }
}

impl ClaudeManager {
    /// Records a newly spawned child under `ui_session_id`, replacing the
    /// session of that identifier if there was one (last writer wins). When the
    /// session resumes an earlier one, the engine's session identifier is known
    /// already and the session-started notification is returned.
    pub fn spawn_session(
        &mut self,
        ui_session_id: String,
        working_directory: String,
        child: u32,
        resume_session: &Option<String>,
    ) -> (r: (u64, Option<BackendEvent>))
        requires
            old(self).wf(),
        ensures
            final(self).wf(),
            final(self).has(ui_session_id@),
            final(self).child_of(ui_session_id@) == Some(child),
            final(self).sessions@[final(self).slot(ui_session_id@).unwrap()].working_directory == working_directory,
            final(self).sessions@[final(self).slot(ui_session_id@).unwrap()].spawn_seq == r.0,
            final(self).sessions@[final(self).slot(ui_session_id@).unwrap()].tracking.claude_session_id
                == *resume_session,
            forall|k: Seq<char>|
                k != ui_session_id@ ==> (final(self).has(k) == old(self).has(k) && final(self).child_of(k)
                    == old(self).child_of(k)),
            match resume_session {
                Some(token) => r.1 matches Some(ev) && notice_of(ev) == Notice::Started(token@)
                    && session_of(ev) == Some(ui_session_id@),
                None => r.1 is None,
            },
            final(self).callback_port == old(self).callback_port,
            final(self).mcp_binary_path == old(self).mcp_binary_path,
    {
        self.remove_session(ui_session_id.as_str());
        let seq = self.next_seq;
        self.next_seq = if seq < u64::MAX {
            seq + 1
        } else {
            seq
        };
        let mut tracking = StreamTrackingState::new();
        tracking.claude_session_id = copy_opt(resume_session);
        let event = match resume_session {
            Some(token) => Some(BackendEvent::SessionStarted {
                ui_session_id: ui_session_id.clone(),
                claude_session_id: token.clone(),
            }),
            None => None,
        };
        let ghost s0 = self.sessions@;
        let ghost m0 = *self;
        let ghost idv = ui_session_id@;
        let ghost wd = working_directory;
        self.sessions.push(ClaudeSession { ui_session_id, spawn_seq: seq, working_directory, child: Some(child), tracking });
        proof {
            let n = s0.len() as int;
            assert(self.sessions@[n].ui_session_id@ == idv);
            assert forall|i: int, j: int| 0 <= i < j < self.sessions@.len() implies #[trigger] self.sessions@[i].ui_session_id@
                != #[trigger] self.sessions@[j].ui_session_id@ by {
                if j == n {
                    assert(self.sessions@[i] == s0[i]);
                    assert(!m0.has(idv));
                    if s0[i].ui_session_id@ == idv {
                        assert(exists|k: int| 0 <= k < s0.len() && #[trigger] s0[k].ui_session_id@ == idv);
                    }
                } else {
                    assert(self.sessions@[i] == s0[i]);
                    assert(self.sessions@[j] == s0[j]);
                }
            }
            lemma_slot_unique(*self, idv, n);
            assert(self.sessions@[n].working_directory == wd);
            assert forall|k: Seq<char>| k != idv implies (self.has(k) == m0.has(k) && self.child_of(k) == m0.child_of(k)) by {
                if m0.has(k) {
                    let i = m0.slot(k).unwrap();
                    lemma_slot_unique(m0, k, i);
                    assert(self.sessions@[i] == s0[i]);
                    lemma_slot_unique(*self, k, i);
                } else if exists|i: int| 0 <= i < self.sessions@.len() && #[trigger] self.sessions@[i].ui_session_id@ == k {
                    let i = choose|i: int| 0 <= i < self.sessions@.len() && #[trigger] self.sessions@[i].ui_session_id@ == k;
                    assert(i != n);
                    assert(s0[i].ui_session_id@ == k);
                }
            }
            assert forall|k: Seq<char>| k != idv implies (self.has(k) == old(self).has(k) && self.child_of(k)
                == old(self).child_of(k)) by {
                assert(m0.has(k) == old(self).has(k));
                assert(m0.child_of(k) == old(self).child_of(k));
            }
        }
        (seq, event)
    }
}

/// The notification for a child that ended: its exit code, or why waiting
/// for it failed.
pub open spec fn ended_notice(outcome: ExitOutcome) -> Notice {
    match outcome {
        ExitOutcome::Exited(code) => Notice::Ended(code, None),
        ExitOutcome::WaitFailed(e) => Notice::Ended(None, Some("Failed to wait for process: "@ + e@)),
    }
}

impl ClaudeManager {
    /// Replaces the child of the session at `k`, leaving everything else.
    fn set_child(&mut self, k: usize, child: Option<u32>)
        requires
            old(self).wf(),
            k < old(self).sessions@.len(),
        ensures
            final(self).wf(),
            same_ids(old(self).sessions@, final(self).sessions@),
            final(self).sessions@[k as int].child == child,
            forall|i: int| 0 <= i < final(self).sessions@.len() && i != k ==> #[trigger] final(self).sessions@[i] == old(self).sessions@[i],
            forall|id: Seq<char>| #[trigger] final(self).slot(id) == old(self).slot(id),
            final(self).callback_port == old(self).callback_port,
            final(self).mcp_binary_path == old(self).mcp_binary_path,
            final(self).next_seq == old(self).next_seq,
    {
        let mut cur = vacant();
        self.sessions.set_and_swap(k, &mut cur);
        cur.child = child;
        self.sessions.set(k, cur);
        proof {
            lemma_same_ids(*old(self), *self);
        }
    }

    /// Records how the wait for an interrupted session's child ended. The
    /// caller has sent the termination signal to the child that `child_pid`
    /// named and waited for it. An unknown session is an error; a session
    /// without a child is left as it is.
    pub fn interrupt_session(&mut self, id: &str, outcome: &ExitOutcome) -> (r: Result<Option<BackendEvent>, String>)
        requires
            old(self).wf(),
        ensures
            final(self).wf(),
            r is Err <==> !old(self).has(id@),
            r matches Err(e) ==> e@ == "Session not found: "@ + id@,
            r matches Ok(Some(ev)) ==> notice_of(ev) == ended_notice(*outcome) && old(self).child_of(id@) is Some
                && session_of(ev) == Some(id@),
            r matches Ok(None) ==> old(self).child_of(id@) is None,
            final(self).child_of(id@) is None,
            forall|k: Seq<char>| #[trigger] final(self).has(k) == old(self).has(k),
            forall|k: Seq<char>| k != id@ ==> #[trigger] final(self).child_of(k) == old(self).child_of(k),
    {
        proof {
            reveal_strlit("Session not found: ");
            reveal_strlit("Failed to wait for process: ");
        }
        match self.find(id) {
            None => {
                let mut e = owned("Session not found: ");
                e.append(id);
                Err(e)
            },
            Some(k) => {
                if self.sessions[k].child.is_none() {
                    return Ok(None);
                }
                self.set_child(k, None);
                let event = match outcome {
                    ExitOutcome::Exited(code) => BackendEvent::SessionEnded {
                        ui_session_id: owned(id),
                        exit_code: *code,
                        error: None,
                    },
                    ExitOutcome::WaitFailed(msg) => {
                        let mut e = owned("Failed to wait for process: ");
                        e.append(msg.as_str());
                        BackendEvent::SessionEnded { ui_session_id: owned(id), exit_code: None, error: Some(e) }
                    },
                };
                Ok(Some(event))
            },
        }
    }

    /// Whether session `id` still runs, by a poll of its child that the caller
    /// made; a child seen to have exited is forgotten, the session is kept.
    pub fn is_running(&mut self, id: &str, poll: PollOutcome) -> (r: bool)
        requires
            old(self).wf(),
        ensures
            final(self).wf(),
            r == (old(self).child_of(id@) is Some && poll == PollOutcome::StillRunning),
            final(self).child_of(id@) == if poll == PollOutcome::Exited {
                None
            } else {
                old(self).child_of(id@)
            },
            forall|k: Seq<char>| #[trigger] final(self).has(k) == old(self).has(k),
            forall|k: Seq<char>| k != id@ ==> #[trigger] final(self).child_of(k) == old(self).child_of(k),
    {
        match self.find(id) {
            None => false,
            Some(k) => {
                if self.sessions[k].child.is_none() {
                    return false;
                }
                match poll {
                    PollOutcome::Exited => {
                        self.set_child(k, None);
                        false
                    },
                    PollOutcome::StillRunning => true,
                    PollOutcome::Failed => false,
                }
            },
        }
    }

    /// Feeds one record of a child's stream to its session. Records from a
    /// child that has since been replaced are dropped.
    pub fn process_record(
        &mut self,
        id: &str,
        spawn_seq: u64,
        record: &StreamRecord,
        default_context_window: u64,
    ) -> (r: Option<Dispatch>)
        requires
            old(self).wf(),
        ensures
            final(self).wf(),
            r is Some <==> (old(self).has(id@) && old(self).sessions@[old(self).slot(id@).unwrap()].spawn_seq == spawn_seq),
            r matches Some(d) ==> dispatched(
                *record,
                old(self).sessions@[old(self).slot(id@).unwrap()].tracking,
                final(self).sessions@[final(self).slot(id@).unwrap()].tracking,
                id@,
                default_context_window,
                d,
            ),
            forall|k: Seq<char>| #[trigger] final(self).has(k) == old(self).has(k),
            forall|k: Seq<char>| #[trigger] final(self).child_of(k) == old(self).child_of(k),
    {
        match self.find(id) {
            None => None,
            Some(k) => {
                if self.sessions[k].spawn_seq != spawn_seq {
                    return None;
                }
                let mut cur = vacant();
                self.sessions.set_and_swap(k, &mut cur);
                let d = process_event(record, &mut cur.tracking, id, default_context_window);
                let ghost cg = cur;
                self.sessions.set(k, cur);
                proof {
                    lemma_same_ids(*old(self), *self);
                    assert(self.sessions@[k as int] == cg);
                }
                Some(d)
            },
        }
    }
}

/// Where the callback configuration points a new child: the registered port
/// and the helper binary, the one found at startup before one found now. With
/// no port or no helper there is no configuration, and tool approvals are the
/// child's own affair.
pub fn mcp_config_plan(port: Option<u16>, cached: Option<String>, found: Option<String>) -> (r: Option<(u16, String)>)
    ensures
        match (port, cached, found) {
            (None, _, _) => r is None,
            (Some(p), Some(c), _) => r == Some((p, c)),
            (Some(p), None, Some(f)) => r == Some((p, f)),
            (Some(_), None, None) => r is None,
        },
{
    match port {
        None => None,
        Some(p) => match cached {
            Some(c) => Some((p, c)),
            None => match found {
                Some(f) => Some((p, f)),
                None => None,
            },
        },
    }
}

impl ClaudeManager {
    /// The child to interrupt before session `id` is replaced: its live child,
    /// as a poll of it found; last writer wins, so a running child is stopped.
    pub fn replace_decision(&self, id: &str, poll: PollOutcome) -> (r: Option<u32>)
        requires
            self.wf(),
        ensures
            r == if poll == PollOutcome::StillRunning {
                self.child_of(id@)
            } else {
                None
            },
    {
        match poll {
            PollOutcome::StillRunning => self.child_pid(id),
            _ => None,
        }
    }

    /// Begins a spawn for `args`: the session of that identifier is dropped
    /// first, then the command line is built, which fails for a new session
    /// without a prompt.
    pub fn prepare_spawn(&mut self, args: &SpawnSessionArgs, mcp_config_path: &Option<String>) -> (r: Result<
        Vec<String>,
        String,
    >)
        requires
            old(self).wf(),
        ensures
            final(self).wf(),
            !final(self).has(args.ui_session_id@),
            forall|k: Seq<char>|
                k != args.ui_session_id@ ==> (final(self).has(k) == old(self).has(k) && final(self).child_of(k)
                    == old(self).child_of(k)),
            match r {
                Ok(a) => (args.initial_prompt is Some || args.resume_session is Some) && views(a@)
                    == args_spec(
                    opt_view(*mcp_config_path),
                    opt_view(args.initial_prompt),
                    opt_view(args.resume_session),
                    opt_view(args.model),
                ),
                Err(e) => args.initial_prompt is None && args.resume_session is None
                    && e@ == "Initial prompt required for new session"@,
            },
            final(self).callback_port == old(self).callback_port,
            final(self).mcp_binary_path == old(self).mcp_binary_path,
    {
        self.remove_session(args.ui_session_id.as_str());
        build_args(mcp_config_path, &args.initial_prompt, &args.resume_session, &args.model)
    }
}

impl ClaudeManager {
    /// What interrupting session `id` has to stop: its child, if it has one;
    /// an unknown session is an error.
    pub fn interrupt_target(&self, id: &str) -> (r: Result<Option<u32>, String>)
        requires
            self.wf(),
        ensures
            r is Err <==> !self.has(id@),
            r matches Err(e) ==> e@ == "Session not found: "@ + id@,
            r matches Ok(c) ==> c == self.child_of(id@),
    {
        proof {
            reveal_strlit("Session not found: ");
        }
        match self.find(id) {
            None => {
                let mut e = owned("Session not found: ");
                e.append(id);
                Err(e)
            },
            Some(k) => Ok(self.sessions[k].child),
        }
    }
}

} // verus!
