//! The permission and question broker: each request from the child process
//! either is answered at once or waits, under its own identifier, for exactly
//! one of a human response, a cancellation or a timeout.
use vstd::prelude::*;
use crate::events::{BackendEvent, PendingQuestion, Question};
use crate::events::{Notice, notice_of};
use crate::text::{fresh_id, now_millis, owned, str_eq};

verus! {

/// The tool whose calls are multi-choice questions for the human.
pub open spec fn question_tool() -> Seq<char> {
    "AskUserQuestion"@
}

/// The `questions` field of a question tool's input.
#[derive(Clone, Debug, PartialEq, Eq)]
pub enum QuestionsField {
    Missing,
    /// Present but not a list of questions; the decoder's message.
    Invalid(String),
    Parsed(Vec<Question>),
}

/// A request that the child process makes through the callback endpoint.
#[derive(Clone, Debug, PartialEq, Eq)]
pub struct PermissionRequest {
    pub tool_use_id: String,
    pub tool_name: String,
    /// The tool input's JSON text.
    pub tool_input: String,
    pub ui_session_id: Option<String>,
    /// What a question tool's input holds under `questions`.
    pub questions: QuestionsField,
}

/// The reply that goes back to the child process.
#[derive(Clone, Debug, PartialEq, Eq)]
pub struct PermissionResponse {
    pub allow: bool,
    pub message: Option<String>,
    /// A question's answers, by question.
    pub answers: Option<Vec<(String, String)>>,
}

#[derive(Clone, Copy, Debug, PartialEq, Eq, Structural)]
pub enum RequestKind {
    Permission,
    Question,
}

/// What to do with a request: answer it now, or publish the notification and
/// wait for the request identifier to be settled.
#[derive(Clone, Debug, PartialEq, Eq)]
pub enum BrokerStep {
    Respond(PermissionResponse),
    Wait { request_id: String, kind: RequestKind, event: BackendEvent },
}

/// The broker's state: the requests that wait, and the tools approved for the
/// rest of the process's life.
pub struct PermissionBroker {
    pub pending: Vec<(String, RequestKind)>,
    pub session_approved: Vec<String>,
}

pub open spec fn deny_spec(r: PermissionResponse) -> bool {
    !r.allow && r.answers is None && r.message is Some
}

impl PermissionBroker {
    /// The identifiers of the waiting requests.
    pub open spec fn pending_ids(&self) -> Set<Seq<char>> {
        Set::new(|id: Seq<char>| exists|i: int| 0 <= i < self.pending@.len() && #[trigger] self.pending@[i].0@ == id)
    }

    /// The tools approved for the session.
    pub open spec fn approved(&self) -> Set<Seq<char>> {
        Set::new(|n: Seq<char>| exists|i: int| 0 <= i < self.session_approved@.len() && #[trigger] self.session_approved@[i]@ == n)
    }

    /// The kind of a waiting request.
    pub open spec fn kind_of(&self, id: Seq<char>) -> Option<RequestKind> {
        if self.pending_ids().contains(id) {
            Some(self.pending@[choose|i: int| 0 <= i < self.pending@.len() && #[trigger] self.pending@[i].0@ == id].1)
        } else {
            None
        }
    }

    /// A broker with nothing waiting and nothing approved.
    pub fn new() -> (r: Self)
        ensures
            r.pending_ids() == Set::<Seq<char>>::empty(),
            r.approved() == Set::<Seq<char>>::empty(),
    {
        let r = PermissionBroker { pending: Vec::new(), session_approved: Vec::new() };
        assert(r.pending_ids() =~= Set::<Seq<char>>::empty());
        assert(r.approved() =~= Set::<Seq<char>>::empty());
        r
    }

    /// Whether a tool is approved for the session.
    pub fn is_approved(&self, tool_name: &str) -> (r: bool)
        ensures
            r == self.approved().contains(tool_name@),
    {
        let mut i: usize = 0;
        while i < self.session_approved.len()
            invariant
                i <= self.session_approved@.len(),
                forall|k: int| 0 <= k < i ==> self.session_approved@[k]@ != tool_name@,
            decreases self.session_approved@.len() - i,
        {
            if str_eq(self.session_approved[i].as_str(), tool_name) {
                assert(self.session_approved@[i as int]@ == tool_name@);
                return true;
            }
            i = i + 1;
        }
        false
    }

    /// The position of a waiting request.
    fn position(&self, request_id: &str) -> (r: Option<usize>)
        ensures
            match r {
                Some(k) => k < self.pending@.len() && self.pending@[k as int].0@ == request_id@,
                None => !self.pending_ids().contains(request_id@),
            },
    {
        let mut i: usize = 0;
        while i < self.pending.len()
            invariant
                i <= self.pending@.len(),
                forall|k: int| 0 <= k < i ==> self.pending@[k].0@ != request_id@,
            decreases self.pending@.len() - i,
        {
            if str_eq(self.pending[i].0.as_str(), request_id) {
                return Some(i);
            }
            i = i + 1;
        }
        None
    }

    fn register(&mut self, request_id: String, kind: RequestKind)
        ensures
            final(self).pending_ids() == old(self).pending_ids().insert(request_id@),
            final(self).approved() == old(self).approved(),
            final(self).kind_of(request_id@) is Some,
    {
        let ghost p0 = self.pending@;
        self.pending.push((request_id, kind));
        assert(self.pending@[p0.len() as int].0@ == request_id@);
        assert(self.pending_ids() =~= old(self).pending_ids().insert(request_id@)) by {
            assert forall|id: Seq<char>| self.pending_ids().contains(id) <==> old(self).pending_ids().insert(request_id@).contains(id) by {
                if self.pending_ids().contains(id) {
                    let i = choose|i: int| 0 <= i < self.pending@.len() && #[trigger] self.pending@[i].0@ == id;
                    if i < p0.len() {
                        assert(p0[i].0@ == id);
                    }
                }
                if old(self).pending_ids().contains(id) {
                    let i = choose|i: int| 0 <= i < p0.len() && #[trigger] p0[i].0@ == id;
                    assert(self.pending@[i].0@ == id);
                }
            }
        }
        assert(self.approved() =~= old(self).approved());
    }

    /// Takes a waiting request out; every entry under the identifier leaves.
    fn take(&mut self, request_id: &str)
        ensures
            final(self).pending_ids() == old(self).pending_ids().remove(request_id@),
            final(self).approved() == old(self).approved(),
    {
        let mut kept: Vec<(String, RequestKind)> = Vec::new();
        let mut i: usize = 0;
        while i < self.pending.len()
            invariant
                i <= self.pending@.len(),
                forall|k: int| 0 <= k < kept@.len() ==> #[trigger] kept@[k].0@ != request_id@
                    && exists|j: int| 0 <= j < i && #[trigger] self.pending@[j].0@ == kept@[k].0@,
                forall|j: int| 0 <= j < i && #[trigger] self.pending@[j].0@ != request_id@ ==>
                    exists|k: int| 0 <= k < kept@.len() && #[trigger] kept@[k].0@ == self.pending@[j].0@,
            decreases self.pending@.len() - i,
        {
            if !str_eq(self.pending[i].0.as_str(), request_id) {
                let e = (self.pending[i].0.clone(), self.pending[i].1);
                let ghost k0 = kept@;
                kept.push(e);
                assert(kept@[k0.len() as int].0@ == self.pending@[i as int].0@);
                assert forall|k: int| 0 <= k < kept@.len() implies #[trigger] kept@[k].0@ != request_id@
                    && exists|j: int| 0 <= j < i + 1 && #[trigger] self.pending@[j].0@ == kept@[k].0@ by {
                    if k < k0.len() {
                        assert(kept@[k] == k0[k]);
                    } else {
                        assert(self.pending@[i as int].0@ == kept@[k].0@);
                    }
                }
                assert forall|j: int| 0 <= j < i + 1 && #[trigger] self.pending@[j].0@ != request_id@ implies
                    exists|k: int| 0 <= k < kept@.len() && #[trigger] kept@[k].0@ == self.pending@[j].0@ by {
                    if j < i {
                        let k = choose|k: int| 0 <= k < k0.len() && #[trigger] k0[k].0@ == self.pending@[j].0@;
                        assert(kept@[k] == k0[k]);
                    } else {
                        assert(kept@[k0.len() as int].0@ == self.pending@[j].0@);
                    }
                }
            }
            i = i + 1;
        }
        let ghost old_ids = self.pending_ids();
        let ghost p0 = self.pending@;
        self.pending = kept;
        assert(self.pending_ids() =~= old_ids.remove(request_id@)) by {
            assert forall|id: Seq<char>| self.pending_ids().contains(id) <==> old_ids.remove(request_id@).contains(id) by {
                if self.pending_ids().contains(id) {
                    let k = choose|k: int| 0 <= k < self.pending@.len() && #[trigger] self.pending@[k].0@ == id;
                    let j = choose|j: int| 0 <= j < p0.len() && #[trigger] p0[j].0@ == self.pending@[k].0@;
                    assert(old_ids.contains(id));
                }
                if old_ids.remove(request_id@).contains(id) {
                    let j = choose|j: int| 0 <= j < p0.len() && #[trigger] p0[j].0@ == id;
                    let k = choose|k: int| 0 <= k < self.pending@.len() && #[trigger] self.pending@[k].0@ == p0[j].0@;
                    assert(self.pending_ids().contains(id));
                }
            }
        }
        assert(self.approved() =~= old(self).approved());
    }
}

/// The approved tools after a response: a tool approved for the session joins
/// them, unless it is the question tool, which is never pre-approved.
pub open spec fn approved_after_resolve(
    approved: Set<Seq<char>>,
    allow: bool,
    remember_for_session: bool,
    tool_name: Option<Seq<char>>,
) -> Set<Seq<char>> {
    match tool_name {
        Some(n) => if allow && remember_for_session && n != question_tool() {
            approved.insert(n)
        } else {
            approved
        },
        None => approved,
    }
}

/// A request for `tool` is allowed at once, with no round trip.
pub open spec fn request_auto_allows(approved: Set<Seq<char>>, tool: Seq<char>) -> bool {
    tool != question_tool() && approved.contains(tool)
}

/// The waiting requests after a timeout: the request is gone.
pub open spec fn pending_after_timeout(pending: Set<Seq<char>>, id: Seq<char>) -> Set<Seq<char>> {
    pending.remove(id)
}

/// A response to `id` finds its request.
pub open spec fn resolve_finds(pending: Set<Seq<char>>, id: Seq<char>) -> bool {
    pending.contains(id)
}

fn deny(message: String) -> (r: PermissionResponse)
    ensures
        deny_spec(r),
        r.message == Some(message),
{
    PermissionResponse { allow: false, message: Some(message), answers: None }
}

/// The reply to a request whose wait was cancelled: the completion slot was
/// dropped before any response.
pub fn cancelled_response() -> (r: PermissionResponse)
    ensures
        deny_spec(r),
        r.message.unwrap()@ == "Request cancelled"@,
{
    proof {
        reveal_strlit("Request cancelled");
    }
    deny(owned("Request cancelled"))
}

impl PermissionBroker {
    /// Handles a request from the child process. A pre-approved tool is allowed
    /// at once; otherwise a fresh request waits, and its notification is
    /// published. Questions never consult the approved tools.
    pub fn request(&mut self, req: &PermissionRequest) -> (r: BrokerStep)
        ensures
            final(self).approved() == old(self).approved(),
            if req.tool_name@ == question_tool() {
                match req.questions {
                    QuestionsField::Missing => {
                        &&& r matches BrokerStep::Respond(resp) && deny_spec(resp)
                            && resp.message.unwrap()@ == "No questions provided"@
                        &&& final(self).pending_ids() == old(self).pending_ids()
                    },
                    QuestionsField::Invalid(e) => {
                        &&& r matches BrokerStep::Respond(resp) && deny_spec(resp)
                            && resp.message.unwrap()@ == "Failed to parse questions: "@ + e@
                        &&& final(self).pending_ids() == old(self).pending_ids()
                    },
                    QuestionsField::Parsed(qs) => {
                        &&& r matches BrokerStep::Wait { request_id, kind, event }
                            && kind == RequestKind::Question
                            && final(self).pending_ids() == old(self).pending_ids().insert(request_id@)
                            && (event matches BackendEvent::QuestionRequested { request_id: rid, question }
                                && rid == request_id && question.request_id == request_id
                                && question.tool_use_id@ == req.tool_use_id@
                                && question.questions@.len() == qs@.len()
                                && (forall|k: int| 0 <= k < qs@.len() ==> #[trigger] question.questions@[k].same_as(qs@[k]))
                                && question.session_id@ == "mcp"@)
                    },
                }
            } else if request_auto_allows(old(self).approved(), req.tool_name@) {
                &&& r matches BrokerStep::Respond(resp) && resp.allow && resp.message is None
                    && resp.answers is None
                &&& final(self).pending_ids() == old(self).pending_ids()
            } else {
                &&& r matches BrokerStep::Wait { request_id, kind, event }
                    && kind == RequestKind::Permission
                    && final(self).pending_ids() == old(self).pending_ids().insert(request_id@)
                    && notice_of(event) == Notice::PermissionAsked(request_id@, req.tool_name@)
                    && (event matches BackendEvent::PermissionRequested { tool_input, ui_session_id, .. }
                        && tool_input@ == req.tool_input@ && ui_session_id == req.ui_session_id)
            },
    {
        proof {
            reveal_strlit("AskUserQuestion");
            reveal_strlit("No questions provided");
            reveal_strlit("Failed to parse questions: ");
            reveal_strlit("mcp");
        }
        if str_eq(req.tool_name.as_str(), "AskUserQuestion") {
            match &req.questions {
                QuestionsField::Missing => {
                    return BrokerStep::Respond(deny(owned("No questions provided")));
                },
                QuestionsField::Invalid(e) => {
                    let mut m = owned("Failed to parse questions: ");
                    m.append(e.as_str());
                    return BrokerStep::Respond(deny(m));
                },
                QuestionsField::Parsed(qs) => {
                    let request_id = fresh_id();
                    self.register(request_id.clone(), RequestKind::Question);
                    let mut questions: Vec<Question> = Vec::new();
                    let mut i: usize = 0;
                    while i < qs.len()
                        invariant
                            i <= qs@.len(),
                            questions@.len() == i,
                            forall|k: int| 0 <= k < i ==> #[trigger] questions@[k].same_as(qs@[k]),
                        decreases qs@.len() - i,
                    {
                        questions.push(qs[i].copy());
                        i = i + 1;
                    }
                    let question = PendingQuestion {
                        request_id: request_id.clone(),
                        session_id: owned("mcp"),
                        tool_use_id: req.tool_use_id.clone(),
                        questions,
                        timestamp: now_millis(),
                    };
                    let event = BackendEvent::QuestionRequested { request_id: request_id.clone(), question };
                    return BrokerStep::Wait { request_id, kind: RequestKind::Question, event };
                },
            }
        }
        if self.is_approved(req.tool_name.as_str()) {
            return BrokerStep::Respond(PermissionResponse { allow: true, message: None, answers: None });
        }
        let request_id = fresh_id();
        self.register(request_id.clone(), RequestKind::Permission);
        let event = BackendEvent::PermissionRequested {
            request_id: request_id.clone(),
            tool_name: req.tool_name.clone(),
            tool_input: req.tool_input.clone(),
            ui_session_id: match &req.ui_session_id {
                Some(u) => Some(u.clone()),
                None => None,
            },
        };
        BrokerStep::Wait { request_id, kind: RequestKind::Permission, event }
    }

    /// Settles a waiting request with the human's response. A tool approved for
    /// the session joins the approved tools first. An unknown identifier is an
    /// error.
    pub fn resolve(
        &mut self,
        request_id: &str,
        allow: bool,
        message: Option<String>,
        tool_name: Option<String>,
        remember_for_session: bool,
        answers: Option<Vec<(String, String)>>,
    ) -> (r: Result<(PermissionResponse, BackendEvent), String>)
        ensures
            final(self).approved() == approved_after_resolve(
                old(self).approved(),
                allow,
                remember_for_session,
                match tool_name {
                    Some(n) => Some(n@),
                    None => None,
                },
            ),
            r is Ok <==> resolve_finds(old(self).pending_ids(), request_id@),
            match r {
                Ok((resp, ev)) => {
                    &&& resp.allow == allow
                    &&& resp.message == message
                    &&& resp.answers == answers
                    &&& notice_of(ev) == if answers is Some {
                        Notice::QuestionDone(request_id@)
                    } else {
                        Notice::PermissionDone(request_id@)
                    }
                    &&& final(self).pending_ids() == old(self).pending_ids().remove(request_id@)
                },
                Err(e) => {
                    &&& e@ == "No pending request with id: "@ + request_id@
                    &&& final(self).pending_ids() == old(self).pending_ids()
                },
            },
    {
        proof {
            reveal_strlit("AskUserQuestion");
            reveal_strlit("No pending request with id: ");
        }
        if allow && remember_for_session {
            if let Some(name) = &tool_name {
                if !str_eq(name.as_str(), "AskUserQuestion") && !self.is_approved(name.as_str()) {
                    let ghost a0 = self.session_approved@;
                    let ghost p = self.pending_ids();
                    self.session_approved.push(name.clone());
                    assert(self.session_approved@[a0.len() as int]@ == name@);
                    assert(self.approved() =~= old(self).approved().insert(name@)) by {
                        assert forall|n: Seq<char>| self.approved().contains(n) <==> old(self).approved().insert(name@).contains(n) by {
                            if self.approved().contains(n) {
                                let i = choose|i: int| 0 <= i < self.session_approved@.len() && #[trigger] self.session_approved@[i]@ == n;
                                if i < a0.len() {
                                    assert(a0[i]@ == n);
                                }
                            }
                            if old(self).approved().contains(n) {
                                let i = choose|i: int| 0 <= i < a0.len() && #[trigger] a0[i]@ == n;
                                assert(self.session_approved@[i]@ == n);
                            }
                        }
                    }
                    assert(self.pending_ids() =~= p);
                } else if !str_eq(name.as_str(), "AskUserQuestion") {
                    assert(old(self).approved().insert(name@) =~= old(self).approved());
                }
            }
        }
        match self.position(request_id) {
            Some(_) => {
                self.take(request_id);
                let id = owned(request_id);
                let event = if answers.is_some() {
                    BackendEvent::QuestionResolved { request_id: id }
                } else {
                    BackendEvent::PermissionResolved { request_id: id }
                };
                Ok((PermissionResponse { allow, message, answers }, event))
            },
            None => {
                let mut e = owned("No pending request with id: ");
                e.append(request_id);
                Err(e)
            },
        }
    }

    /// Gives up on a request whose wait timed out: it no longer waits, and the
    /// reply is a denial.
    pub fn expire(&mut self, request_id: &str, kind: RequestKind) -> (r: PermissionResponse)
        ensures
            final(self).pending_ids() == pending_after_timeout(old(self).pending_ids(), request_id@),
            final(self).approved() == old(self).approved(),
            deny_spec(r),
            r.message.unwrap()@ == if kind == RequestKind::Question {
                "Timed out waiting for answer"@
            } else {
                "Timed out waiting for approval"@
            },
    {
        proof {
            reveal_strlit("Timed out waiting for answer");
            reveal_strlit("Timed out waiting for approval");
        }
        self.take(request_id);
        match kind {
            RequestKind::Question => deny(owned("Timed out waiting for answer")),
            RequestKind::Permission => deny(owned("Timed out waiting for approval")),
        }
    }
}

/// A request that timed out is no longer waiting, so a later response to it
/// is reported as not found.
pub proof fn lemma_timed_out_request_not_found(pending: Set<Seq<char>>, id: Seq<char>)
    ensures
        !resolve_finds(pending_after_timeout(pending, id), id),
{
}

/// Once a tool is approved for the session by an allowing response, a later
/// request for it is allowed at once, with no notification.
pub proof fn lemma_remembered_tool_allowed(approved: Set<Seq<char>>, tool: Seq<char>)
    requires
        tool != question_tool(),
    ensures
        request_auto_allows(approved_after_resolve(approved, true, true, Some(tool)), tool),
{
}

} // verus!
