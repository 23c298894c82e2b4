use anki_story::chat::{ChatError, ChatStep, RetryState, MAX_ATTEMPTS, RETRY_PREAMBLE};
use anki_story::prompt::{ChatMessage, Role};

fn conversation() -> Vec<ChatMessage> {
    vec![
        ChatMessage { role: Role::System, content: "tell a story".to_string() },
        ChatMessage { role: Role::User, content: "words".to_string() },
    ]
}

fn fail(state: RetryState) -> RetryState {
    match state.step(None) {
        ChatStep::Retry(s) => s,
        _ => panic!("expected another attempt"),
    }
}

#[test]
fn succeeds_on_fifth_attempt() {
    let mut state = RetryState::new(conversation());
    let first_system = state.messages[0].content.clone();
    for k in 1..5 {
        state = fail(state);
        assert_eq!(state.attempt, k);
        assert_ne!(state.messages[0].content, first_system);
        assert_eq!(state.messages[0].role, Role::System);
        assert_eq!(state.messages[0].content, format!("{}{:?}", RETRY_PREAMBLE, conversation()[0]));
        assert_eq!(state.messages[1].content, "words");
    }
    match state.step(Some("むかしむかし".to_string())) {
        ChatStep::Done(t) => assert_eq!(t, "むかしむかし"),
        _ => panic!("expected success"),
    }
}

#[test]
fn gives_up_after_five_attempts() {
    let mut state = RetryState::new(conversation());
    for _ in 0..4 {
        state = fail(state);
    }
    assert_eq!(state.attempt, 4);
    match state.step(None) {
        ChatStep::Failed(e) => assert_eq!(e, ChatError::ExhaustedRetries(5)),
        _ => panic!("expected to give up"),
    }
    assert_eq!(MAX_ATTEMPTS, 5);
}

#[test]
fn first_success_keeps_messages() {
    let state = RetryState::new(conversation());
    match state.step(Some("ok".to_string())) {
        ChatStep::Done(t) => assert_eq!(t, "ok"),
        _ => panic!("expected success"),
    }
}

#[test]
fn empty_reply_is_a_failure() {
    let state = RetryState::new(conversation());
    let state = match state.step(Some(String::new())) {
        ChatStep::Retry(s) => s,
        _ => panic!("expected another attempt"),
    };
    assert_eq!(state.attempt, 1);
    assert!(state.messages[0].content.starts_with(RETRY_PREAMBLE));
}

#[test]
fn rewrite_happens_once() {
    let state = fail(RetryState::new(conversation()));
    let after_first = state.messages[0].content.clone();
    let state = fail(state);
    assert_eq!(state.messages[0].content, after_first);
}

#[test]
fn no_system_message_to_rewrite() {
    match RetryState::new(vec![]).step(None) {
        ChatStep::Failed(e) => assert_eq!(e, ChatError::MissingSystemMessage),
        _ => panic!("expected failure"),
    }
}

#[test]
fn rewritten_message_renders_whole_message() {
    let state = fail(RetryState::new(conversation()));
    assert_eq!(
        state.messages[0].content,
        format!("{}ChatMessage {{ role: System, content: \"tell a story\" }}", RETRY_PREAMBLE)
    );
}
