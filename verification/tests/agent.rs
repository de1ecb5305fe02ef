use axon::agent::{absorb, read_reply, Action, AgentLoop, Reply};
use axon::llm::StreamEvent;
use axon::session::Message;
use axon::tools::error::ToolError;
use axon::tools::registry::ToolRegistry;

fn looping() -> AgentLoop {
    AgentLoop::new(ToolRegistry::with_defaults(), vec![Message::user("hi")])
}

fn output(l: &mut AgentLoop, text: &str) -> Action {
    l.output(text.to_string(), false)
}

#[test]
fn text_replies_are_the_answer() {
    let mut l = looping();
    assert!(matches!(l.start(false), Action::Infer));
    match output(&mut l, " {\"type\":\"text\",\"content\":\"hello\"} ") {
        Action::Answer(t) => assert_eq!(t, "hello"),
        _ => panic!("a text is the answer"),
    }
}

#[test]
fn text_without_content_is_an_empty_answer() {
    let mut l = looping();
    l.start(false);
    match output(&mut l, "{\"type\":\"text\"}") {
        Action::Answer(t) => assert_eq!(t, ""),
        _ => panic!("a text is the answer"),
    }
}

#[test]
fn anything_else_is_handed_on_as_it_came() {
    for raw in ["not json", "[1]", "{\"type\":\"poem\"}", " {\"content\":\"x\"} "] {
        let mut l = looping();
        l.start(false);
        match output(&mut l, raw) {
            Action::Answer(t) => assert_eq!(t, raw),
            _ => panic!("handed on"),
        }
    }
}

#[test]
fn reading_tools_run_at_once_and_their_result_goes_back() {
    let mut l = looping();
    l.start(false);
    match output(&mut l, "{\"type\":\"tool_call\",\"name\":\"read_file\",\"args\":{\"path\":\"a\"}}") {
        Action::Execute { name, args } => {
            assert_eq!(name, "read_file");
            assert_eq!(args, "{\"path\":\"a\"}");
        }
        _ => panic!("runs at once"),
    }
    assert!(matches!(l.tool_result(Ok("text".to_string()), false), Action::Infer));
    assert_eq!(l.messages().len(), 2);
    assert_eq!(l.messages()[1].content, "[Tool: read_file]\ntext");
}

#[test]
fn changing_tools_wait_for_the_user() {
    let call = "{\"type\":\"tool_call\",\"name\":\"write_file\",\"args\":{}}";
    let mut l = looping();
    l.start(false);
    match output(&mut l, call) {
        Action::Confirm { name, args } => {
            assert_eq!(name, "write_file");
            assert_eq!(args, "{}");
        }
        _ => panic!("waits"),
    }
    assert!(matches!(l.confirmed(true), Action::Execute { .. }));
    assert!(matches!(
        l.tool_result(Err(ToolError::InvalidArgs("missing 'path'".to_string())), false),
        Action::Infer
    ));
    assert_eq!(
        l.messages()[1].content,
        "[Tool: write_file]\n[tool error: invalid args: missing 'path']"
    );

    let mut l = looping();
    l.start(false);
    output(&mut l, call);
    match l.confirmed(false) {
        Action::Answer(t) => assert_eq!(t, "Tool call `write_file` was not confirmed."),
        _ => panic!("ends"),
    }
    assert!(matches!(l.tool_result(Ok(String::new()), false), Action::Stop));
}

#[test]
fn a_call_without_name_or_arguments() {
    let mut l = looping();
    l.start(false);
    match output(&mut l, "{\"type\":\"tool_call\"}") {
        Action::Execute { name, args } => {
            assert_eq!(name, "");
            assert_eq!(args, "null");
        }
        _ => panic!("an unknown tool changes nothing"),
    }
}

#[test]
fn the_model_is_asked_eight_times_at_most() {
    let mut l = looping();
    let mut action = l.start(false);
    let mut asked = 0;
    while let Action::Infer = action {
        asked += 1;
        output(&mut l, "{\"type\":\"tool_call\",\"name\":\"read_file\",\"args\":{}}");
        action = l.tool_result(Ok(String::new()), false);
    }
    assert_eq!(asked, 8);
    assert!(matches!(action, Action::Stop));
}

#[test]
fn cancelling_stops_the_loop() {
    let mut l = looping();
    assert!(matches!(l.start(true), Action::Stop));
    let mut l = looping();
    l.start(false);
    assert!(matches!(
        l.output("{\"type\":\"text\",\"content\":\"x\"}".to_string(), true),
        Action::Stop
    ));
    assert!(matches!(output(&mut l, "{\"type\":\"text\"}"), Action::Stop));
}

#[test]
fn replies_from_nothing() {
    assert!(matches!(read_reply(&None), Reply::Other));
}

#[test]
fn pieces_are_collected() {
    let mut buf = String::from("a");
    assert!(!absorb(&mut buf, &StreamEvent { delta: "b".to_string(), done: false }));
    assert!(absorb(&mut buf, &StreamEvent { delta: String::new(), done: true }));
    assert_eq!(buf, "ab");
}
