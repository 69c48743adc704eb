use llamaloop::api::{ChatMessage as WireMessage, ChatResponse, Model};
use llamaloop::app::App;
use llamaloop::chat::MessageRole;

fn installed(name: &str) -> Model {
    Model { name: name.to_owned(), size: 1, details: None }
}

fn fragment(role: &str, content: &str, done: Option<bool>, eval: Option<u32>) -> ChatResponse {
    ChatResponse {
        message: Some(WireMessage { role: role.to_owned(), content: content.to_owned() }),
        done,
        eval_count: eval,
    }
}

fn app_with_model() -> App {
    let mut app = App::new(0);
    app.set_models(vec![installed("m")]);
    app.initialize_chat(0);
    app.chat_state.sessions[0].input_buffer = "hi".to_owned();
    app
}

#[test]
fn streamed_fragments_concatenate_into_one_assistant_reply() {
    let mut app = app_with_model();
    let (req, tx) = app.send_chat_message(1).expect("turn should start");
    assert_eq!(req.model, "m");
    assert_eq!(req.messages.len(), 1);
    assert!(matches!(req.messages[0].role, MessageRole::User));
    assert_eq!(req.messages[0].content, "hi");
    assert!(app.chat_state.sessions[0].is_streaming);

    tx.try_send(fragment("assistant", "He", Some(false), None)).unwrap();
    tx.try_send(fragment("assistant", "llo", Some(true), Some(3))).unwrap();
    app.process_chat_response(2);

    let session = &app.chat_state.sessions[0];
    let last = session.messages.back().unwrap();
    assert!(matches!(last.role, MessageRole::Assistant));
    assert_eq!(last.content, "Hello");
    assert_eq!(session.total_tokens, 3);
    assert!(!session.is_streaming);
    assert!(app.chat_response_receiver.is_none());
}

#[test]
fn system_fragment_ends_the_turn_as_an_error() {
    let mut app = app_with_model();
    let (_req, tx) = app.send_chat_message(1).expect("turn should start");
    tx.try_send(fragment("system", "boom", Some(true), None)).unwrap();
    app.process_chat_response(2);

    let session = &app.chat_state.sessions[0];
    let last = session.messages.back().unwrap();
    assert!(matches!(last.role, MessageRole::System));
    assert_eq!(last.content, "boom");
    assert!(!session.is_streaming);
    assert!(app.chat_response_receiver.is_none());
    assert!(!session.messages.iter().any(|m| matches!(m.role, MessageRole::Assistant)));
}

#[test]
fn disconnect_discards_the_partial_accumulator() {
    let mut app = app_with_model();
    let (_req, tx) = app.send_chat_message(1).expect("turn should start");
    tx.try_send(fragment("assistant", "partial", Some(false), None)).unwrap();
    drop(tx);
    app.process_chat_response(2);

    let session = &app.chat_state.sessions[0];
    assert!(!session.is_streaming);
    assert!(app.chat_response_receiver.is_none());
    // only the user message is in the log; nothing was committed
    assert_eq!(session.messages.len(), 1);
    assert!(matches!(session.messages[0].role, MessageRole::User));
}

#[test]
fn advancing_with_no_turn_in_flight_changes_nothing() {
    let mut app = app_with_model();
    let before_len = app.chat_state.sessions[0].messages.len();
    let before_logs = app.logs.len();
    app.process_chat_response(5);
    assert_eq!(app.chat_state.sessions[0].messages.len(), before_len);
    assert_eq!(app.logs.len(), before_logs);
    assert!(app.chat_response_receiver.is_none());
}

#[test]
fn advancing_with_an_empty_relay_changes_no_session_field() {
    let mut app = app_with_model();
    let (_req, tx) = app.send_chat_message(1).expect("turn should start");
    let snapshot = app.chat_state.sessions[0].clone();
    app.process_chat_response(2);
    let session = &app.chat_state.sessions[0];
    assert_eq!(session.messages.len(), snapshot.messages.len());
    assert_eq!(session.current_model, snapshot.current_model);
    assert_eq!(session.is_streaming, snapshot.is_streaming);
    assert_eq!(session.current_response, snapshot.current_response);
    assert_eq!(session.input_buffer, snapshot.input_buffer);
    assert_eq!(session.total_tokens, snapshot.total_tokens);
    assert!(app.chat_response_receiver.is_some());
    drop(tx);
}

#[test]
fn empty_input_does_not_start_a_turn() {
    let mut app = App::new(0);
    app.set_models(vec![installed("m")]);
    app.initialize_chat(0);
    assert!(app.send_chat_message(1).is_none());
    assert!(!app.chat_state.sessions[0].is_streaming);
}

#[test]
fn missing_models_surface_as_a_system_message() {
    let mut app = App::new(0);
    app.chat_state.sessions[0].input_buffer = "hi".to_owned();
    assert!(app.send_chat_message(1).is_none());
    let session = &app.chat_state.sessions[0];
    let last = session.messages.back().unwrap();
    assert!(matches!(last.role, MessageRole::System));
    assert!(last.content.contains("No models available"));
    assert!(!session.is_streaming);
}
