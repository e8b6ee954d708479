use lsproxy::codec::MessageKind;
use lsproxy::errors::LspProxyError;
use lsproxy::languages::PyrightClient;
use lsproxy::lsp_client::{plan_inbound, InboundAction, LspClientState};

#[test]
fn ids_start_at_one_and_grow() {
    let mut c = LspClientState::new();
    assert_eq!(c.issue_request_id(), 1);
    assert_eq!(c.issue_request_id(), 2);
    assert_eq!(c.issue_request_id(), 3);
    assert_eq!(c.pending, vec![1, 2, 3]);
}

#[test]
fn a_pending_id_settles_exactly_once() {
    let mut c = LspClientState::new();
    let a = c.issue_request_id();
    let b = c.issue_request_id();

    assert!(c.take_pending(b));
    // The same id settles only once; a repeat finds nothing and leaves
    // the rest alone.
    assert!(!c.take_pending(b));
    assert_eq!(c.pending, vec![a]);
    assert!(c.take_pending(a));
    assert!(c.pending.is_empty());
}

#[test]
fn expired_request_discards_late_response_without_touching_others() {
    let mut c = LspClientState::new();
    let slow = c.issue_request_id();
    let other = c.issue_request_id();

    // The deadline passes: the entry is removed and the caller fails
    // with Timeout.
    assert!(c.take_pending(slow));
    let timeout = LspProxyError::Timeout;
    assert_eq!(timeout.kind_name(), "timeout");

    // The backend answers late anyway: the stray response is discarded,
    // and the other pending call is unaffected.
    assert!(!c.take_pending(slow));
    assert_eq!(c.pending, vec![other]);
}

#[test]
fn second_initialize_is_rejected() {
    let mut c = LspClientState::new();
    assert!(c.begin_initialize().is_ok());
    let err = c.begin_initialize().unwrap_err();
    match err {
        LspProxyError::BackendError { code, message } => {
            assert_eq!(code, -32600);
            assert_eq!(message, "initialize may only be sent once");
        }
        other => panic!("unexpected error: {:?}", other),
    }
    assert!(c.initialized);
}

#[test]
fn transport_failure_fails_all_pending_and_respawns_once() {
    let mut c = LspClientState::new();
    assert!(c.begin_initialize().is_ok());
    let a = c.issue_request_id();
    let b = c.issue_request_id();

    // The child dies: every pending request fails with TransportFailed.
    let failed = c.fail_all_pending();
    assert_eq!(failed, vec![a, b]);
    assert!(c.pending.is_empty());
    assert!(!c.healthy);
    assert_eq!(
        LspProxyError::TransportFailed.kind_name(),
        "transport failed"
    );

    // The single respawn is granted: a fresh process state, ready to be
    // initialized again.
    assert!(c.attempt_respawn());
    assert!(c.healthy);
    assert!(!c.initialized);
    assert!(c.begin_initialize().is_ok());
    let next = c.issue_request_id();
    assert_eq!(next, 3);
    assert!(c.take_pending(next));

    // A second crash is not recovered from.
    c.fail_all_pending();
    assert!(!c.attempt_respawn());
    assert!(!c.healthy);
}

#[test]
fn did_open_is_sent_once_per_document() {
    let mut c = LspClientState::new();
    let uri = "file:///ws/main.py".to_string();
    assert!(c.note_document_opened(&uri));
    assert!(!c.note_document_opened(&uri));
    let other = "file:///ws/util.py".to_string();
    assert!(c.note_document_opened(&other));
}

#[test]
fn respawned_client_reopens_documents() {
    let mut c = LspClientState::new();
    let uri = "file:///ws/main.py".to_string();
    assert!(c.note_document_opened(&uri));
    c.fail_all_pending();
    assert!(c.attempt_respawn());
    // The fresh process has seen nothing: didOpen must go out again.
    assert!(c.note_document_opened(&uri));
}

#[test]
fn inbound_messages_route_by_kind() {
    assert_eq!(
        plan_inbound(MessageKind::Response, false),
        InboundAction::SettlePending
    );
    assert_eq!(
        plan_inbound(MessageKind::Notification, true),
        InboundAction::RunHandler
    );
    assert_eq!(
        plan_inbound(MessageKind::Notification, false),
        InboundAction::Discard
    );
    assert_eq!(
        plan_inbound(MessageKind::Request, false),
        InboundAction::AnswerMethodNotFound
    );
    assert_eq!(
        plan_inbound(MessageKind::Invalid, true),
        InboundAction::FailProtocol
    );
}

#[test]
fn pyright_root_markers() {
    let mut client = PyrightClient::new();
    assert!(!client.state.initialized);
    let roots = client.get_root_files();
    assert_eq!(
        roots,
        vec![
            ".git".to_string(),
            "pyproject.toml".to_string(),
            "setup.py".to_string(),
            "setup.cfg".to_string(),
            "requirements.txt".to_string(),
            "Pipfile".to_string(),
            "pyrightconfig.json".to_string(),
        ]
    );
}
