use horseman::broker::{
    cancelled_response, BrokerStep, PermissionBroker, PermissionRequest, QuestionsField, RequestKind,
};
use horseman::events::{BackendEvent, Question, QuestionOption};

fn req(tool: &str) -> PermissionRequest {
    PermissionRequest {
        tool_use_id: "tu-1".to_string(),
        tool_name: tool.to_string(),
        tool_input: "{\"command\":\"ls\"}".to_string(),
        ui_session_id: Some("ui".to_string()),
        questions: QuestionsField::Missing,
    }
}

fn wait_id(step: &BrokerStep) -> String {
    match step {
        BrokerStep::Wait { request_id, .. } => request_id.clone(),
        other => panic!("expected a wait, got {:?}", other),
    }
}

#[test]
fn timed_out_request_denies_and_is_forgotten() {
    let mut broker = PermissionBroker::new();
    let step = broker.request(&req("Bash"));
    let id = wait_id(&step);
    match &step {
        BrokerStep::Wait { kind, event, .. } => {
            assert_eq!(*kind, RequestKind::Permission);
            assert!(matches!(event, BackendEvent::PermissionRequested { tool_name, tool_input, .. }
                if tool_name == "Bash" && tool_input == "{\"command\":\"ls\"}"));
        }
        _ => unreachable!(),
    }
    let resp = broker.expire(&id, RequestKind::Permission);
    assert!(!resp.allow);
    assert_eq!(resp.message, Some("Timed out waiting for approval".to_string()));
    let again = broker.resolve(&id, true, None, None, false, None);
    assert_eq!(again, Err(format!("No pending request with id: {}", id)));
}

#[test]
fn remembered_tool_is_allowed_without_notification() {
    let mut broker = PermissionBroker::new();
    let id = wait_id(&broker.request(&req("Edit")));
    let (resp, ev) = broker.resolve(&id, true, None, Some("Edit".to_string()), true, None).unwrap();
    assert!(resp.allow);
    assert_eq!(ev, BackendEvent::PermissionResolved { request_id: id.clone() });
    match broker.request(&req("Edit")) {
        BrokerStep::Respond(r) => {
            assert!(r.allow);
            assert_eq!(r.message, None);
        }
        other => panic!("expected an immediate answer, got {:?}", other),
    }
    // Another tool still waits.
    let _ = wait_id(&broker.request(&req("Write")));
}

#[test]
fn resolve_without_remember_does_not_approve() {
    let mut broker = PermissionBroker::new();
    let id = wait_id(&broker.request(&req("Edit")));
    let (resp, _) = broker.resolve(&id, true, Some("ok".to_string()), Some("Edit".to_string()), false, None).unwrap();
    assert_eq!(resp.message, Some("ok".to_string()));
    let _ = wait_id(&broker.request(&req("Edit")));
    // A response settles a request once only.
    assert!(broker.resolve(&id, false, None, None, false, None).is_err());
}

#[test]
fn question_requests() {
    let mut broker = PermissionBroker::new();
    match broker.request(&req("AskUserQuestion")) {
        BrokerStep::Respond(r) => {
            assert!(!r.allow);
            assert_eq!(r.message, Some("No questions provided".to_string()));
        }
        other => panic!("unexpected {:?}", other),
    }
    let mut bad = req("AskUserQuestion");
    bad.questions = QuestionsField::Invalid("expected a sequence".to_string());
    match broker.request(&bad) {
        BrokerStep::Respond(r) => assert_eq!(r.message, Some("Failed to parse questions: expected a sequence".to_string())),
        other => panic!("unexpected {:?}", other),
    }
    let mut good = req("AskUserQuestion");
    good.questions = QuestionsField::Parsed(vec![Question {
        question: "Which?".to_string(),
        header: "Pick".to_string(),
        options: vec![QuestionOption { label: "A".to_string(), description: "first".to_string() }],
        multi_select: false,
    }]);
    let step = broker.request(&good);
    let id = wait_id(&step);
    match &step {
        BrokerStep::Wait { kind, event: BackendEvent::QuestionRequested { question, .. }, .. } => {
            assert_eq!(*kind, RequestKind::Question);
            assert_eq!(question.session_id, "mcp");
            assert_eq!(question.tool_use_id, "tu-1");
            assert_eq!(question.questions[0].header, "Pick");
        }
        other => panic!("unexpected {:?}", other),
    }
    let answers = Some(vec![("Which?".to_string(), "A".to_string())]);
    let (resp, ev) = broker
        .resolve(&id, true, None, Some("AskUserQuestion".to_string()), true, answers.clone())
        .unwrap();
    assert_eq!(resp.answers, answers);
    assert_eq!(ev, BackendEvent::QuestionResolved { request_id: id });
    // Questions never join the approved tools.
    assert!(!broker.is_approved("AskUserQuestion"));
    let expired = broker.expire("missing", RequestKind::Question);
    assert_eq!(expired.message, Some("Timed out waiting for answer".to_string()));
    assert_eq!(cancelled_response().message, Some("Request cancelled".to_string()));
}
