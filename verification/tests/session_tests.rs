use llamaloop::chat::{ChatSession, ChatState, MessageRole};

#[test]
fn message_log_evicts_oldest_past_capacity() {
    let mut s = ChatSession::new("m".to_owned(), 0);
    for i in 0..101u32 {
        s.add_message(MessageRole::Assistant, format!("msg{}", i), i as i64);
    }
    assert_eq!(s.messages.len(), 100);
    assert_eq!(s.messages[0].content, "msg1");
    assert_eq!(s.messages[99].content, "msg100");
}

#[test]
fn history_ring_holds_fifty_most_recent_submissions() {
    let mut s = ChatSession::new("m".to_owned(), 0);
    for i in 0..51u32 {
        s.add_message(MessageRole::User, format!("u{}", i), i as i64);
    }
    assert_eq!(s.message_history.len(), 50);
    assert_eq!(s.message_history[0], "u50");
    assert_eq!(s.message_history[49], "u1");
}

#[test]
fn one_navigate_up_recalls_the_last_submission() {
    let mut s = ChatSession::new("m".to_owned(), 0);
    s.add_message(MessageRole::User, "first".to_owned(), 1);
    s.add_message(MessageRole::User, "second".to_owned(), 2);
    s.input_buffer = "draft".to_owned();
    s.navigate_history_up();
    assert_eq!(s.input_buffer, "second");
    assert_eq!(s.temp_input, "draft");
    s.navigate_history_up();
    assert_eq!(s.input_buffer, "first");
    s.navigate_history_down();
    assert_eq!(s.input_buffer, "second");
    s.navigate_history_down();
    assert_eq!(s.input_buffer, "draft");
    assert!(s.history_index.is_none());
}

#[test]
fn navigating_an_empty_history_is_a_no_op() {
    let mut s = ChatSession::new("m".to_owned(), 0);
    s.input_buffer = "draft".to_owned();
    s.navigate_history_up();
    assert_eq!(s.input_buffer, "draft");
    assert!(s.history_index.is_none());
}

#[test]
fn change_model_announces_the_switch() {
    let mut s = ChatSession::new("old".to_owned(), 0);
    s.change_model("new-model".to_owned(), 7);
    assert_eq!(s.current_model, "new-model");
    let last = s.messages.back().unwrap();
    assert!(matches!(last.role, MessageRole::System));
    assert_eq!(last.content, "Switched to model: new-model");
}

#[test]
fn clear_session_keeps_model_and_history() {
    let mut s = ChatSession::new("m".to_owned(), 0);
    s.add_message(MessageRole::User, "hello".to_owned(), 1);
    s.clear_session(9);
    assert!(s.messages.is_empty());
    assert_eq!(s.total_tokens, 0);
    assert_eq!(s.session_started, 9);
    assert_eq!(s.current_model, "m");
    assert_eq!(s.message_history.len(), 1);
}

#[test]
fn context_excludes_system_messages_and_keeps_order() {
    let mut s = ChatSession::new("m".to_owned(), 0);
    s.add_message(MessageRole::User, "q1".to_owned(), 1);
    s.add_message(MessageRole::System, "note".to_owned(), 2);
    s.add_message(MessageRole::Assistant, "a1".to_owned(), 3);
    let ctx = s.get_context_for_api();
    assert_eq!(ctx.len(), 2);
    assert_eq!(ctx[0].content, "q1");
    assert_eq!(ctx[1].content, "a1");
}

#[test]
fn deleting_the_last_session_is_a_no_op() {
    let mut st = ChatState::new(vec!["m".to_owned()], 0);
    assert_eq!(st.sessions.len(), 1);
    st.delete_session();
    assert_eq!(st.sessions.len(), 1);
    st.new_session(1);
    assert_eq!(st.sessions.len(), 2);
    assert_eq!(st.active_session_index, 1);
    st.delete_session();
    assert_eq!(st.sessions.len(), 1);
    assert_eq!(st.active_session_index, 0);
}

#[test]
fn new_session_inherits_the_active_model() {
    let mut st = ChatState::new(vec!["alpha".to_owned()], 0);
    st.new_session(1);
    assert_eq!(st.sessions[1].current_model, "alpha");
}

#[test]
fn select_model_applies_the_highlighted_entry() {
    let mut st = ChatState::new(vec!["alpha".to_owned(), "beta".to_owned()], 0);
    st.toggle_model_selector();
    st.selected_model_index = 1;
    st.select_model(2);
    assert_eq!(st.sessions[0].current_model, "beta");
    assert!(!st.show_model_selector);
}
