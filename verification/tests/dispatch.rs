use chat_dispatch::api::{validate_request, ChatMessage, ChatRequest};
use chat_dispatch::manager::ServerState;
use chat_dispatch::session::MsgOutcome;
use chat_dispatch::SocketCompletionResponse;
use tokio::sync::oneshot;

fn request_hi() -> ChatRequest {
    ChatRequest {
        model: "default".to_string(),
        messages: vec![ChatMessage {
            role: "user".to_string(),
            content: "hi".to_string(),
            name: None,
        }],
    }
}

#[test]
fn one_idle_worker_serves_the_request() {
    let request = request_hi();
    assert!(validate_request(&request).is_none());

    let mut state = ServerState::new();
    let id = state.register().unwrap();
    let (tx, mut rx) = oneshot::channel::<SocketCompletionResponse>();
    assert_eq!(state.dispatch(tx).ok(), Some(id));

    assert!(matches!(
        state.handle_message(id, "chatStart", None),
        Some((MsgOutcome::Started, None))
    ));
    state.handle_message(id, "chatChunk", Some("hel".to_string()));
    state.handle_message(id, "chatChunk", Some("lo".to_string()));
    match state.handle_message(id, "chatEnd", None) {
        Some((MsgOutcome::Completed(m), Some(receipt))) => {
            assert_eq!(m, "hello");
            assert!(receipt.succeeded());
            assert_eq!(receipt.message(), "hello");
        }
        other => panic!("expected completion, got {:?}", other.map(|p| p.0)),
    }

    let completion = rx.try_recv().unwrap();
    assert!(completion.succeeded);
    assert_eq!(completion.message, "hello");
}

#[test]
fn no_workers_fails_the_handle_synchronously() {
    let mut state = ServerState::new();
    let (tx, mut rx) = oneshot::channel::<SocketCompletionResponse>();
    let receipt = match state.dispatch(tx) {
        Err(receipt) => receipt,
        Ok(id) => panic!("nothing to assign to, got worker {}", id),
    };
    assert!(!receipt.succeeded());
    assert_eq!(receipt.message(), "no available clients to handle prompt");
    let completion = rx.try_recv().unwrap();
    assert!(!completion.succeeded);
    assert_eq!(completion.message, "no available clients to handle prompt");
}

#[test]
fn dispatch_skips_busy_workers() {
    let mut state = ServerState::new();
    let first = state.register().unwrap();
    let second = state.register().unwrap();

    // Make the first worker busy; the next dispatch must pick the second.
    let (tx1, _rx1) = oneshot::channel::<SocketCompletionResponse>();
    assert_eq!(state.dispatch(tx1).ok(), Some(first));
    let (tx2, _rx2) = oneshot::channel::<SocketCompletionResponse>();
    assert_eq!(state.dispatch(tx2).ok(), Some(second));

    // Free the first worker; with the second still busy, the first is
    // picked again, so a busy worker is never selected in either order.
    state.handle_message(first, "chatStart", None);
    state.handle_message(first, "chatEnd", None);
    let (tx3, _rx3) = oneshot::channel::<SocketCompletionResponse>();
    assert_eq!(state.dispatch(tx3).ok(), Some(first));
}

#[test]
fn all_workers_busy_fails_the_handle() {
    let mut state = ServerState::new();
    let id = state.register().unwrap();
    let (tx1, _rx1) = oneshot::channel::<SocketCompletionResponse>();
    assert_eq!(state.dispatch(tx1).ok(), Some(id));
    let (tx2, mut rx2) = oneshot::channel::<SocketCompletionResponse>();
    assert!(state.dispatch(tx2).is_err());
    let completion = rx2.try_recv().unwrap();
    assert!(!completion.succeeded);
    assert_eq!(completion.message, "no available clients to handle prompt");
}

#[test]
fn disconnect_before_chat_end_fails_the_caller() {
    let mut state = ServerState::new();
    let id = state.register().unwrap();
    let (tx, mut rx) = oneshot::channel::<SocketCompletionResponse>();
    assert_eq!(state.dispatch(tx).ok(), Some(id));
    state.handle_message(id, "chatStart", None);
    state.handle_message(id, "chatChunk", Some("half an an".to_string()));

    // The transport closes before `chatEnd`: the pending completion is
    // failed with a disconnect reason, never left hanging.
    let receipt = state.unregister(id).unwrap();
    assert!(!receipt.succeeded());
    assert_eq!(receipt.message(), "worker connection closed");
    let completion = rx.try_recv().unwrap();
    assert!(!completion.succeeded);
    assert_eq!(completion.message, "worker connection closed");

    // The connection is gone.
    assert!(state.handle_message(id, "ping", None).is_none());
}

#[test]
fn unregister_idle_worker_resolves_nothing() {
    let mut state = ServerState::new();
    let id = state.register().unwrap();
    assert!(state.unregister(id).is_none());
}

#[test]
fn registered_keys_are_unique_and_ordered() {
    let mut state = ServerState::new();
    let a = state.register().unwrap();
    let b = state.register().unwrap();
    let c = state.register().unwrap();
    assert!(a != b && b != c && a != c);

    // Removing the middle worker leaves the others reachable.
    assert!(state.unregister(b).is_none());
    assert!(state.handle_message(a, "ping", None).is_some());
    assert!(state.handle_message(b, "ping", None).is_none());
    assert!(state.handle_message(c, "ping", None).is_some());
}

#[test]
fn message_to_unknown_worker_changes_nothing() {
    let mut state = ServerState::new();
    assert!(state.handle_message(7, "chatStart", None).is_none());
    let id = state.register().unwrap();
    assert!(id != 7);
    let (tx, _rx) = oneshot::channel::<SocketCompletionResponse>();
    assert_eq!(state.dispatch(tx).ok(), Some(id));
}
