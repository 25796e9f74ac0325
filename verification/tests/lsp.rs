//! The bridge between an editor and the language server.

use clarinet_tooling::lsp::{
    completion, did_change, did_close, did_open, did_save, dispatch, document_symbol, formatting,
    goto_definition, hover, initialize, range_formatting, reply_for, send_notification,
    send_request, signature_help, BridgeError, Delivery, Exchange, LspRequestResponse, Notice,
    NotificationResponse, Reaction, Received, RequestKind, Task,
};

type Response = LspRequestResponse<u8, u8, u8, u8, u8, u8, u8>;

const KINDS: [RequestKind; 8] = [
    RequestKind::Initialize,
    RequestKind::Completion,
    RequestKind::SignatureHelp,
    RequestKind::Definition,
    RequestKind::DocumentSymbol,
    RequestKind::DocumentFormatting,
    RequestKind::DocumentRangeFormatting,
    RequestKind::Hover,
];

#[test]
fn only_the_first_request_changes_the_state() {
    for kind in KINDS {
        let received: Received<u8, u8> = Received::Request(Some((kind, 5)));
        let task = if kind == RequestKind::Initialize { Task::Mutate(5) } else { Task::Read(5) };
        assert_eq!(dispatch(received), task, "{kind:?}");
    }
    let notified: Received<u8, u8> = Received::Notification(Some(4));
    assert_eq!(dispatch(notified), Task::Notify(4));
}

#[test]
fn a_closed_channel_is_waited_on() {
    let notifications: Received<u8, u8> = Received::Notification(None);
    assert_eq!(dispatch(notifications), Task::Wait);
    let requests: Received<u8, u8> = Received::Request(None);
    assert_eq!(dispatch(requests), Task::Wait);
}

#[test]
fn each_message_of_a_run_is_served_once() {
    // The state counts up; reading the number seven fails.
    let run: Vec<Received<u8, u8>> = vec![
        Received::Request(Some((RequestKind::Initialize, 1))),
        Received::Notification(None),
        Received::Request(Some((RequestKind::Hover, 7))),
        Received::Notification(Some(2)),
        Received::Request(None),
        Received::Request(Some((RequestKind::Completion, 3))),
    ];
    let mut state: u8 = 0;
    let mut replies: Vec<Option<u8>> = Vec::new();
    for received in run {
        replies.push(match dispatch(received) {
            Task::Notify(n) | Task::Mutate(n) => {
                state += n;
                reply_for::<u8, &str>(Ok(state))
            }
            Task::Read(7) => reply_for(Err("seven")),
            Task::Read(n) => reply_for::<u8, &str>(Ok(10 * state + n)),
            Task::Wait => None,
        });
    }
    assert_eq!(state, 3);
    assert_eq!(replies, vec![Some(1), None, None, Some(3), None, Some(33)]);
}

#[test]
fn a_failure_is_not_answered() {
    assert_eq!(reply_for::<u8, &str>(Ok(3)), Some(3));
    assert_eq!(reply_for::<u8, &str>(Err("no")), None);
}

#[test]
fn a_request_may_stay_without_an_answer() {
    assert_eq!(send_request(Exchange::Answered(1)), Some(1));
    assert_eq!(send_request::<u8>(Exchange::Unanswered), None);
    assert_eq!(send_request::<u8>(Exchange::Closed), None);
    assert_eq!(send_request::<u8>(Exchange::Poisoned), None);
}

#[test]
fn findings_are_published_by_url_and_before_the_message() {
    let response = NotificationResponse {
        aggregated_diagnostics: vec![
            (Some("file:///a.clar".to_string()), 1),
            (None, 2),
            (Some("file:///b.clar".to_string()), 3),
        ],
        notification: Some(("info", "done".to_string())),
    };
    assert_eq!(
        send_notification(Exchange::Answered(response)),
        vec![
            Delivery::Publish { url: "file:///a.clar".to_string(), diagnostics: 1 },
            Delivery::Publish { url: "file:///b.clar".to_string(), diagnostics: 3 },
            Delivery::ShowMessage { level: "info", message: "done".to_string() },
        ]
    );
}

#[test]
fn the_editor_is_told_nothing_without_an_answer() {
    let exchanges: Vec<Exchange<NotificationResponse<u8, u8>>> =
        vec![Exchange::Poisoned, Exchange::Closed, Exchange::Unanswered];
    for exchange in exchanges {
        assert!(send_notification(exchange).is_empty());
    }
    let empty: NotificationResponse<u8, u8> =
        NotificationResponse { aggregated_diagnostics: Vec::new(), notification: None };
    assert!(send_notification(Exchange::Answered(empty)).is_empty());
}

#[test]
fn each_answer_is_taken_by_its_own_request() {
    assert_eq!(initialize(Some(Response::Initialize(1))), Ok(1));
    assert_eq!(completion(Some(Response::CompletionItems(2))), Some(2));
    assert_eq!(goto_definition(Some(Response::Definition(Some(3)))), Some(3));
    assert_eq!(document_symbol(Some(Response::DocumentSymbol(4))), Some(4));
    assert_eq!(hover(Some(Response::Hover(Some(5)))), Some(5));
    assert_eq!(signature_help(Some(Response::SignatureHelp(Some(6)))), Some(6));
    assert_eq!(formatting(Some(Response::DocumentFormatting(Some(7)))), Some(7));
    assert_eq!(range_formatting(Some(Response::DocumentRangeFormatting(Some(8)))), Some(8));
}

#[test]
fn an_answer_of_another_kind_is_none() {
    assert_eq!(initialize(Some(Response::Hover(Some(1)))), Err(BridgeError::InternalError));
    assert_eq!(completion(Some(Response::Initialize(1))), None);
    assert_eq!(goto_definition(Some(Response::Hover(Some(1)))), None);
    assert_eq!(document_symbol(Some(Response::Initialize(1))), None);
    assert_eq!(hover(Some(Response::SignatureHelp(Some(1)))), None);
    assert_eq!(signature_help(Some(Response::Hover(Some(1)))), None);
    assert_eq!(formatting(Some(Response::DocumentRangeFormatting(Some(1)))), None);
    assert_eq!(range_formatting(Some(Response::DocumentFormatting(Some(1)))), None);
}

#[test]
fn no_answer_is_an_error_for_the_first_request_alone() {
    let none: fn() -> Option<Response> = || None;
    assert_eq!(initialize(none()), Err(BridgeError::InternalError));
    assert_eq!(completion(none()), None);
    assert_eq!(goto_definition(none()), None);
    assert_eq!(document_symbol(none()), None);
    assert_eq!(hover(none()), None);
    assert_eq!(signature_help(none()), None);
    assert_eq!(formatting(none()), None);
    assert_eq!(range_formatting(none()), None);
}

#[test]
fn an_opened_file_is_reported_by_its_kind() {
    let opened = |notice| Reaction::Notify { notice, refresh: true };
    assert_eq!(did_open(Some("c"), None), opened(Notice::ContractOpened("c")));
    assert_eq!(did_open(Some("c"), Some("m")), opened(Notice::ContractOpened("c")));
    assert_eq!(did_open(None, Some("m")), opened(Notice::ManifestOpened("m")));
    assert_eq!(
        did_open::<&str>(None, None),
        Reaction::Warn("Unsupported file opened".to_string())
    );
}

#[test]
fn a_saved_file_is_reported_by_its_kind() {
    let saved = |notice| Reaction::Notify { notice, refresh: true };
    assert_eq!(did_save(Some("c"), Some("m")), saved(Notice::ContractSaved("c")));
    assert_eq!(did_save(None, Some("m")), saved(Notice::ManifestSaved("m")));
    assert_eq!(did_save::<&str>(None, None), Reaction::Ignore);
}

#[test]
fn a_changed_contract_is_reported_with_its_text() {
    let changes = vec!["new text".to_string(), "other".to_string()];
    assert_eq!(
        did_change(Some("c"), &changes),
        Reaction::Notify {
            notice: Notice::ContractChanged("c", "new text".to_string()),
            refresh: false,
        }
    );
    assert_eq!(did_change::<&str>(None, &Vec::new()), Reaction::Ignore);
}

#[test]
fn a_closed_contract_is_reported() {
    assert_eq!(
        did_close(Some("c")),
        Reaction::Notify { notice: Notice::ContractClosed("c"), refresh: false }
    );
    assert_eq!(did_close::<&str>(None), Reaction::Ignore);
}
