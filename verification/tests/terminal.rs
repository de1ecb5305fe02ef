use axon::attach::{at_paths, expand_at_files};
use axon::cli::{ollama_window, resolve, Args, BackendKind, ConfigAction, ModelAction, ServeCmd};
use axon::commands::{get_value, handle_config, handle_model, list_config, status, stop};
use axon::config::{default_context_window, AxonConfig, ModelEntry};
use axon::context::{full_prompt, ContextProvider};
use axon::runner::{confirm_question, messages_for, session_window};
use axon::session::{Message, Role};
use axon::tui::{App, CommandEffect, Generating, Key, KeyEffect, KeyPress, Submission, HELP};
use axon::ui::chat::{render_content, ChatWidget, Line, Tone};
use axon::ui::input::InputWidget;
use axon::ui::overlay::{args_display, popup_area, Area};
use axon::ui::status::{branch_label, status_word, GenState};

fn app() -> App {
    App::new(BackendKind::Local, "m", 1000, "skill".to_string())
}

fn press(key: Key) -> KeyPress {
    KeyPress { key, control: false, shift: false }
}

fn control(c: char) -> KeyPress {
    KeyPress { key: Key::Char(c), control: true, shift: false }
}

fn write(a: &mut App, text: &str) {
    a.edited(text.split('\n').map(|l| l.to_string()).collect());
}

fn last(a: &App) -> String {
    let ms = a.display_messages();
    ms[ms.len() - 1].content.clone()
}

#[test]
fn messages_are_sent_and_replies_come_in() {
    let mut a = app();
    write(&mut a, "  hello ");
    assert_eq!(a.on_key(press(Key::Enter)), KeyEffect::Submit);
    let text = match a.handle_submit() {
        Submission::Message(t) => t,
        _ => panic!("a message"),
    };
    assert_eq!(text, "hello");
    let ms = a.send(&text, "tools");
    assert_eq!(ms.len(), 2);
    assert_eq!(ms[0].content, "skill\ntools");
    assert_eq!(ms[1].content, "hello");
    assert_eq!(a.gen_state(), GenState::Generating);
    a.stream_delta("a");
    a.stream_delta("b");
    assert_eq!(a.streaming(), Some("ab"));
    write(&mut a, "more");
    assert!(matches!(a.handle_submit(), Submission::Nothing));
    a.stream_done();
    assert_eq!(last(&a), "ab");
    assert_eq!(a.gen_state(), GenState::Idle);
    assert!(matches!(a.handle_submit(), Submission::Message(_)));
    assert!(matches!(a.handle_submit(), Submission::Nothing));
}

#[test]
fn replies_can_fail() {
    let mut a = app();
    a.stream_error("nothing runs");
    assert!(a.display_messages().is_empty());
    a.send("x", "");
    a.stream_error("oops");
    assert_eq!(last(&a), "[error] oops");
    assert!(matches!(a.generating(), Generating::Idle));
}

#[test]
fn tools_ask_for_confirmation() {
    let mut a = app();
    assert!(!a.confirm_request("t".to_string(), "{}".to_string()));
    a.send("x", "");
    assert!(a.confirm_request("t".to_string(), "{}".to_string()));
    assert!(matches!(a.generating(), Generating::AwaitingConfirm { .. }));
    assert_eq!(a.on_key(press(Key::Enter)), KeyEffect::Nothing);
    assert_eq!(a.on_key(press(Key::Char('x'))), KeyEffect::Nothing);
    assert_eq!(a.on_key(press(Key::Char('Y'))), KeyEffect::Answer(true));
    assert_eq!(a.streaming(), Some(""));
    a.confirm_request("t".to_string(), "{}".to_string());
    assert_eq!(a.on_key(press(Key::Esc)), KeyEffect::Answer(false));
    a.confirm_request("t".to_string(), "{}".to_string());
    assert_eq!(a.on_key(press(Key::Char('n'))), KeyEffect::Answer(false));
    a.confirm_request("t".to_string(), "{}".to_string());
    assert_eq!(a.on_key(control('c')), KeyEffect::CancelAndDeny);
    assert!(matches!(a.generating(), Generating::Idle));
    assert!(a.is_running());
}

#[test]
fn control_keys() {
    let mut a = app();
    a.send("x", "");
    assert_eq!(a.on_key(control('C')), KeyEffect::Cancel);
    assert!(a.is_running());
    assert_eq!(a.on_key(control('c')), KeyEffect::Nothing);
    assert!(!a.is_running());
    let mut b = app();
    b.on_key(control('d'));
    assert!(!b.is_running());
}

#[test]
fn scrolling_and_editing_keys() {
    let mut a = app();
    a.on_key(press(Key::PageUp));
    assert_eq!(a.chat().scroll_offset, 10);
    a.on_key(press(Key::Up));
    assert_eq!(a.chat().scroll_offset, 11);
    a.send("x", "");
    a.on_key(press(Key::PageUp));
    a.stream_delta("text");
    assert_eq!(a.chat().scroll_offset, 10);
    a.on_key(press(Key::PageDown));
    a.on_wheel(true);
    a.on_wheel(false);
    a.stream_delta("text");
    assert_eq!(a.chat().scroll_offset, 0);
    a.on_key(press(Key::Down));
    assert_eq!(a.chat().scroll_offset, 0);
    write(&mut a, "two\nlines");
    assert_eq!(a.on_key(press(Key::Up)), KeyEffect::Edit);
    assert_eq!(a.on_key(press(Key::Down)), KeyEffect::Edit);
    assert_eq!(a.on_key(press(Key::Char('q'))), KeyEffect::Edit);
    let shifted = KeyPress { key: Key::Enter, control: false, shift: true };
    assert_eq!(a.on_key(shifted), KeyEffect::Edit);
    assert_eq!(a.on_key(press(Key::Esc)), KeyEffect::ClearInput);
}

#[test]
fn commands() {
    let mut a = app();
    write(&mut a, "/help");
    match a.handle_submit() {
        Submission::Command(c) => assert!(matches!(a.handle_command(&c), CommandEffect::Nothing)),
        _ => panic!("a command"),
    }
    assert_eq!(last(&a), HELP);
    a.handle_command("/model");
    assert_eq!(last(&a), "Current model: `m`\nUsage: /model <name>");
    a.handle_command("/nope x");
    assert_eq!(last(&a), "Unknown command: /nope x\nType /help for available commands.");
    a.handle_command("/add");
    assert_eq!(last(&a), "Usage: /add <file-path>");
    match a.handle_command("/add  f.rs ") {
        CommandEffect::ReadFile { path } => assert_eq!(path, "f.rs"),
        _ => panic!("reads"),
    }
    a.file_read("f.rs", Ok("fn".to_string()));
    assert_eq!(last(&a), "Added `f.rs` to context.");
    let prompt = a.send("what is it?", "tools");
    assert!(prompt.iter().any(|m| m.content == "File `f.rs`:\n```\nfn\n```"));
    a.stream_done();
    a.file_read("g.rs", Err("gone".to_string()));
    assert_eq!(last(&a), "[error reading g.rs] gone");
    a.handle_command("/clear");
    assert!(a.display_messages().is_empty());
    a.handle_command("/quit");
    assert!(!a.is_running());
    let mut b = app();
    b.handle_command("/exit");
    assert!(!b.is_running());
}

#[test]
fn models_are_switched() {
    let mut a = app();
    match a.handle_command("/model  other ") {
        CommandEffect::SwitchModel { name } => assert_eq!(name, "other"),
        _ => panic!("switches"),
    }
    assert_eq!(a.gen_state(), GenState::Connecting);
    a.model_switched("other", Err("no".to_string()));
    assert_eq!(last(&a), "[error starting daemon] no");
    assert_eq!(a.model(), "m");
    a.model_switched("other", Ok(5));
    assert_eq!(last(&a), "Switched to model `other`.");
    assert_eq!(a.model(), "other");
    assert_eq!(a.gen_state(), GenState::Idle);
    let mut o = App::new(BackendKind::Ollama, "m", 1, String::new());
    o.handle_command("/model x");
    assert_eq!(o.gen_state(), GenState::Idle);
}

#[test]
fn at_signs_attach_files() {
    let text = "see @a.rs and @b.rs, @ done @";
    assert_eq!(at_paths(text), vec!["a.rs", "b.rs,"]);
    let files = vec![("a.rs".to_string(), Some("A".to_string())), ("b.rs,".to_string(), None)];
    assert_eq!(
        expand_at_files(text, &files),
        "see [File `a.rs`:\n```\nA\n```] and @b.rs, @ done @"
    );
    assert_eq!(expand_at_files("plain", &files), "plain");
    assert_eq!(expand_at_files("x @zzz y", &Vec::new()), "x @zzz y");
}

fn plain(lines: &[Line]) -> Vec<String> {
    lines
        .iter()
        .map(|l| l.spans.iter().map(|s| s.text.clone()).collect::<Vec<_>>().concat())
        .collect()
}

#[test]
fn conversations_are_laid_out() {
    let chat = ChatWidget::new();
    let ms = vec![
        Message::system(" s "),
        Message::user("a\nb"),
        Message::assistant("x\n```rust\nfn\n```\ny"),
    ];
    let lines = chat.lines(&ms, Some("p\n```\nq"), 6);
    assert_eq!(
        plain(&lines),
        vec![
            "[system] s",
            "",
            "  a   ",
            "  b   ",
            "",
            "  x",
            "  ╭─ rust ─",
            "  │ fn",
            "  ╰────────────────────────────────────────╯",
            "  y",
            "",
            "  p",
            "  ╭─────────────────────────────────────────╮",
            "  │ q",
            "  │",
            "  ▋",
        ]
    );
    assert_eq!(lines[0].spans[0].tone, Tone::System);
    assert_eq!(lines[2].spans[0].tone, Tone::User);
    assert_eq!(lines[7].spans[1].tone, Tone::Code);
    assert_eq!(lines[15].spans[0].tone, Tone::Cursor);
    let mut more: Vec<Line> = Vec::new();
    render_content("", &mut more);
    assert!(more.is_empty());
}

#[test]
fn the_view_scrolls() {
    let mut c = ChatWidget::new();
    assert_eq!(c.scroll_from_top(100, 30), 70);
    c.scroll_up(20);
    assert_eq!(c.scroll_from_top(100, 30), 50);
    c.scroll_up(u16::MAX);
    assert_eq!(c.scroll_offset, u16::MAX);
    assert_eq!(c.scroll_from_top(100, 30), 0);
    c.scroll_to_bottom();
    c.scroll_down(3);
    assert_eq!(c.scroll_offset, 0);
    assert_eq!(c.scroll_from_top(10, 30), 0);
    c.scroll_up(7);
    c.scroll_down(7);
    assert_eq!(c.scroll_offset, 0);
}

#[test]
fn the_input_field() {
    let mut i = InputWidget::new();
    assert_eq!(i.line_count(), 1);
    assert_eq!(i.text(), "");
    i.edited(vec!["a".to_string(), "b".to_string()]);
    assert_eq!(i.line_count(), 2);
    assert_eq!(i.submit(), "a\nb");
    assert_eq!(i.text(), "");
    i.edited(vec!["  ".to_string()]);
    i.submit();
    assert_eq!(i.history(), &vec!["a\nb".to_string()]);
    i.edited(vec!["x".to_string()]);
    i.clear();
    assert_eq!(i.text(), "");
    i.edited(Vec::new());
    assert_eq!(i.line_count(), 1);
}

#[test]
fn the_question_is_centred() {
    let a = Area { x: 0, y: 0, width: 100, height: 27 };
    assert_eq!(popup_area(a), Area { x: 20, y: 10, width: 60, height: 7 });
    let small = Area { x: 2, y: 3, width: 10, height: 4 };
    assert_eq!(popup_area(small), Area { x: 2, y: 3, width: 10, height: 7 });
    assert_eq!(args_display("abcdef", 10), "abcdef");
    assert_eq!(args_display("abcdefg", 10), "abcde…");
    assert_eq!(args_display("abc", 3), "…");
}

#[test]
fn the_status_line() {
    assert_eq!(status_word(GenState::Idle), "ready");
    assert_eq!(status_word(GenState::Generating), "generating…");
    assert_eq!(status_word(GenState::Connecting), "connecting…");
    assert_eq!(branch_label(Some("main")), " main ");
    assert_eq!(branch_label(None), " – ");
}

#[test]
fn contexts_and_prompts() {
    let c = ContextProvider::new(Some("main".to_string()), None);
    assert_eq!(c.branch(), Some("main"));
    assert_eq!(c.system_prompt(), "");
    assert_eq!(ContextProvider::new(None, Some("s".to_string())).system_prompt(), "s");
    assert_eq!(full_prompt("a", "b"), "a\nb");
    let ms = messages_for("hi", 100, "s", "t");
    assert_eq!(ms.len(), 2);
    assert_eq!((ms[0].role, ms[0].content.as_str()), (Role::System, "s\nt"));
    assert_eq!(messages_for("hi", 1, "", "").len(), 1);
    assert_eq!(confirm_question("t", "{}"), "Run t ({})? [y/N] ");
    assert_eq!(session_window(None, 5), 5);
    assert_eq!(session_window(Some(4), 5), 4);
}

fn args() -> Args {
    Args {
        command: None,
        prompt: None,
        model: None,
        backend: None,
        daemon: false,
        ollama_url: None,
        no_download: false,
        context_window: None,
        skill: None,
    }
}

#[test]
fn settings_come_from_flags_then_configuration() {
    let mut c = AxonConfig::default();
    let s = resolve(&args(), &c, "linux");
    assert_eq!(s.model, "qwen3.5:2b");
    assert_eq!(s.backend, BackendKind::Local);
    assert_eq!(s.ollama_url, "http://localhost:11434");
    assert!(!s.no_download);
    assert_eq!(resolve(&args(), &c, "macos").model, "qwen3.5:4b-mlx");
    c.model = Some("conf".to_string());
    c.backend = Some("ollama".to_string());
    c.no_download = Some(true);
    c.context_window = Some(9);
    let s = resolve(&args(), &c, "linux");
    assert_eq!((s.model.as_str(), s.backend, s.no_download), ("conf", BackendKind::Ollama, true));
    assert_eq!(ollama_window(&args(), &c), Some(9));
    let mut a = args();
    a.model = Some("flag".to_string());
    a.backend = Some(BackendKind::Local);
    a.context_window = Some(3);
    let s = resolve(&a, &c, "linux");
    assert_eq!((s.model.as_str(), s.backend), ("flag", BackendKind::Local));
    assert_eq!(ollama_window(&a, &c), Some(3));
    let d = ServeCmd::default();
    assert_eq!((d.host.as_str(), d.port, d.research_interval), ("127.0.0.1", 8420, 300));
}

#[test]
fn configuration_values() {
    let mut c = AxonConfig::default();
    assert_eq!(default_context_window(), 4096);
    for (k, v) in [
        ("model", "m"),
        ("backend", "ollama"),
        ("ollama-url", "u"),
        ("context-window", "12"),
        ("no-download", "true"),
    ] {
        assert_eq!(get_value(&c, k), Ok("(not set)".to_string()));
        assert_eq!(c.set(k, v), Ok(()));
        assert_eq!(get_value(&c, k), Ok(v.to_string()));
    }
    assert_eq!(
        c.set("context-window", "-1"),
        Err("context-window must be a positive integer".to_string())
    );
    assert_eq!(
        c.set("no-download", "yes"),
        Err("no-download must be true or false".to_string())
    );
    assert_eq!(
        c.set("colour", "red"),
        Err("unknown config key 'colour'. Valid keys: model, backend, ollama-url, context-window, no-download".to_string())
    );
    assert_eq!(get_value(&c, "colour"), Err("unknown key 'colour'".to_string()));
    assert_eq!(c.context_window, Some(12));
    assert_eq!(AxonConfig::path(Some("/h")), Ok("/h/.axon/config.toml".to_string()));
    assert_eq!(AxonConfig::path(None), Err("HOME environment variable not set".to_string()));
}

#[test]
fn configuration_subcommands() {
    let mut c = AxonConfig::default();
    let set = ConfigAction::SetValue { key: "model".to_string(), value: "m".to_string() };
    match handle_config(&set, &mut c, "/p") {
        Ok(r) => assert_eq!((r.text.as_str(), r.save), ("Set model = m\n", true)),
        Err(e) => panic!("{}", e),
    }
    match handle_config(&ConfigAction::Get { key: "model".to_string() }, &mut c, "/p") {
        Ok(r) => assert_eq!((r.text.as_str(), r.save), ("m\n", false)),
        Err(e) => panic!("{}", e),
    }
    assert!(handle_config(&ConfigAction::Get { key: "x".to_string() }, &mut c, "/p").is_err());
    c.models.push(ModelEntry {
        name: "a".to_string(),
        hf_repo: "r".to_string(),
        hf_file: String::new(),
        context_window: 5,
    });
    c.no_download = Some(false);
    assert_eq!(
        list_config(&c, "/p"),
        "# /p\nmodel = m\nno-download = false\n\nRegistered models:\n  a (5 ctx tokens)\n    repo: r\n"
    );
    match handle_config(&ConfigAction::List, &mut c, "/p") {
        Ok(r) => assert_eq!(r.text, list_config(&c, "/p")),
        Err(e) => panic!("{}", e),
    }
}

#[test]
fn model_subcommands() {
    let mut c = AxonConfig::default();
    let add = |file: &str| ModelAction::Add {
        name: "a".to_string(),
        repo: "r".to_string(),
        file: file.to_string(),
        context_window: 5,
    };
    let r = handle_model(&add("f"), &mut c);
    assert_eq!((r.text.as_str(), r.save), ("Registered model 'a'\n", true));
    let r = handle_model(&add("g"), &mut c);
    assert_eq!(r.text, "Updated model 'a'\n");
    assert_eq!(c.models.len(), 1);
    assert_eq!(c.find_model("a").map(|m| m.hf_file.clone()), Some("g".to_string()));
    let r = handle_model(&ModelAction::List, &mut c);
    assert!(r.text.starts_with("Built-in models:\n  qwen3.5:2b   32768 ctx  ~1.3 GB\n"));
    assert!(r.text.ends_with("model <model>\n\nUser-defined models:\n  a (5 ctx tokens)\n    repo: r\n    file: g\n"));
    let r = handle_model(&ModelAction::Remove { name: "b".to_string() }, &mut c);
    assert_eq!((r.text.as_str(), r.save), ("Model 'b' not found in user registry\n", false));
    let r = handle_model(&ModelAction::Remove { name: "a".to_string() }, &mut c);
    assert_eq!((r.text.as_str(), r.save), ("Removed model 'a'\n", true));
    assert!(c.find_model("a").is_none());
}

#[test]
fn daemon_subcommands() {
    let p = stop(None, false);
    assert_eq!((p.invalidate, p.message.as_str()), (false, "No daemon is running."));
    let p = stop(Some(5), false);
    assert_eq!(
        (p.invalidate, p.message.as_str()),
        (true, "No daemon is running (stale pid file, cleaning up).")
    );
    let p = stop(Some(5), true);
    assert_eq!((p.invalidate, p.message.as_str()), (true, "Stopped daemon (pid 5)."));
    assert_eq!(status(None, false, None, false, "", ""), "daemon:  not running\n");
    assert_eq!(
        status(Some(5), false, None, false, "", ""),
        "daemon:  dead (stale pid file — run `axon stop` to clean up)\n"
    );
    assert_eq!(
        status(Some(5), true, None, false, " m\n", "/l"),
        "daemon:  running  (pid 5)\nport:    (not yet bound — model loading)\nmodel:   m\nstatus:  loading model…\nlog:     /l\n"
    );
    assert_eq!(
        status(Some(5), true, Some(7), true, "m", "/l"),
        "daemon:  running  (pid 5)\nport:    7\nmodel:   m\nstatus:  accepting connections\nlog:     /l\n"
    );
    assert!(status(Some(5), true, Some(7), false, "m", "/l").contains("status:  not responding\n"));
}
