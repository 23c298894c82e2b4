use anki_story::prompt::{debug_message, gen_prompt, render_word_list, ChatMessage, Role, SYSTEM_PROMPT};

#[test]
fn prompt_has_two_messages() {
    let r = gen_prompt(vec!["猫".to_string(), "犬".to_string()]);
    assert_eq!(r.len(), 2);
    assert_eq!(r[0].role, Role::System);
    assert_eq!(r[0].content, SYSTEM_PROMPT);
    assert_eq!(r[1].role, Role::User);
    assert_eq!(r[1].content, "Target Language: JAPANESE\nWords: [\"猫\", \"犬\"]");
}

#[test]
fn prompt_for_no_words() {
    let r = gen_prompt(vec![]);
    assert_eq!(r.len(), 2);
    assert_eq!(r[1].content, "Target Language: JAPANESE\nWords: []");
}

#[test]
fn prompt_for_many_words() {
    let words: Vec<String> = (0..50).map(|i| format!("w{}", i)).collect();
    assert_eq!(gen_prompt(words).len(), 2);
}

#[test]
fn word_list_matches_debug_rendering() {
    let words = vec!["a\"b".to_string(), "c\\d".to_string(), "猫".to_string()];
    assert_eq!(render_word_list(&words), format!("{:?}", words));
    assert_eq!(render_word_list(&words), "[\"a\\\"b\", \"c\\\\d\", \"猫\"]");
    assert_eq!(render_word_list(&vec![]), "[]");
    assert_eq!(render_word_list(&vec!["x".to_string()]), "[\"x\"]");
}

#[test]
fn message_rendering_matches_debug() {
    let m = ChatMessage { role: Role::User, content: "a\"b\n猫".to_string() };
    assert_eq!(debug_message(&m), format!("{:?}", m));
    assert_eq!(debug_message(&m), "ChatMessage { role: User, content: \"a\\\"b\\n猫\" }");
    let m = ChatMessage { role: Role::System, content: String::new() };
    assert_eq!(debug_message(&m), format!("{:?}", m));
}
