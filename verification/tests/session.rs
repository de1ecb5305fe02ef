use axon::session::{ConversationHistory, Message, Role};

#[test]
fn assemble_respects_budget() {
    let mut h = ConversationHistory::new(10);
    // Each message costs ~1 token (4 chars / 4 + 1)
    for i in 0..20u32 {
        h.push(Message::user(&format!("{i}")));
    }
    let assembled = h.assemble("sys");
    // Should have system prompt + some messages, not all 20
    assert!(assembled.len() < 22);
    assert_eq!(assembled[0].role, Role::System);
}

#[test]
fn clear_keeps_system_messages() {
    let mut h = ConversationHistory::new(2048);
    h.push(Message::system("sys"));
    h.push(Message::user("hi"));
    h.push(Message::assistant("hello"));
    h.clear();
    assert_eq!(h.messages().len(), 1);
    assert_eq!(h.messages()[0].role, Role::System);
}

#[test]
fn assemble_keeps_the_newest_in_order() {
    let mut h = ConversationHistory::new(10);
    for i in 0..20u32 {
        h.push(Message::user(&format!("{i}")));
    }
    // The prompt costs one token and each message one: nine messages fit.
    let assembled = h.assemble("sys");
    let contents: Vec<String> = assembled.iter().map(|m| m.content.clone()).collect();
    assert_eq!(
        contents,
        vec!["sys", "11", "12", "13", "14", "15", "16", "17", "18", "19"]
    );
}

#[test]
fn assemble_counts_bytes_and_skips_system_messages() {
    let mut h = ConversationHistory::new(6);
    h.push(Message::user("abcd"));
    h.push(Message::system("ignored and very long indeed"));
    h.push(Message::assistant("ä ö ü"));
    // The prompt costs 1, "ä ö ü" has eight bytes and costs 3, "abcd" costs 2.
    let all = h.assemble("");
    assert_eq!(all.len(), 3);
    h.set_context_window(5);
    // The reply would fit, but goes with its question.
    let fewer = h.assemble("");
    assert_eq!(fewer.len(), 1);
    assert_eq!(fewer[0].role, Role::System);
}

#[test]
fn assemble_drops_a_question_with_its_reply() {
    let mut h = ConversationHistory::new(4);
    h.push(Message::user("aaaaaaaa"));
    h.push(Message::assistant("b"));
    h.push(Message::user("c"));
    // The prompt costs 1 and leaves 3; the messages cost 3, 1 and 1.
    let assembled = h.assemble("");
    assert_eq!(assembled.len(), 2);
    assert_eq!(assembled[1].content, "c");
    assert_eq!(assembled[1].role, Role::User);
    h.set_context_window(6);
    assert_eq!(h.assemble("").len(), 4);
}

#[test]
fn assemble_keeps_a_remark_that_answers_nothing() {
    let mut h = ConversationHistory::new(3);
    h.push(Message::assistant("a long remark at the start"));
    h.push(Message::assistant("b"));
    h.push(Message::user("c"));
    let contents: Vec<String> = h.assemble("").iter().map(|m| m.content.clone()).collect();
    assert_eq!(contents, vec!["", "b", "c"]);
}

#[test]
fn assemble_stops_at_the_first_that_does_not_fit() {
    let mut h = ConversationHistory::new(4);
    h.push(Message::user("a"));
    h.push(Message::user("a much longer message than fits"));
    h.push(Message::user("b"));
    let assembled = h.assemble("");
    assert_eq!(assembled.len(), 2);
    assert_eq!(assembled[1].content, "b");
}

#[test]
fn assemble_with_a_prompt_that_fills_the_window() {
    let mut h = ConversationHistory::new(2);
    h.push(Message::user("hi"));
    let assembled = h.assemble("a prompt that is longer than the window");
    assert_eq!(assembled.len(), 1);
}

#[test]
fn clear_twice_is_clear_once() {
    let mut h = ConversationHistory::new(100);
    h.push(Message::system("one"));
    h.push(Message::user("hi"));
    h.push(Message::system("two"));
    h.clear();
    h.clear();
    let contents: Vec<String> = h.messages().iter().map(|m| m.content.clone()).collect();
    assert_eq!(contents, vec!["one", "two"]);
}
