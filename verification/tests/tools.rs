use axon::json::Field;
use axon::tools::error::ToolError;
use axon::tools::fs::{read_report, write_report};
use axon::tools::mcp::{reply_report, McpTool};
use axon::tools::registry::{Request, Tool, ToolRegistry};
use axon::tools::shell::{command_report, is_safe_command};
use axon::tools::web::{extract_snippets, html_clean, search_report, search_url};

#[test]
fn default_tools_are_found_by_name() {
    let r = ToolRegistry::with_defaults();
    assert!(r.find("read_file").is_some());
    assert!(r.find("teleport").is_none());
    assert!(r.is_destructive("write_file"));
    assert!(r.is_destructive("run_command"));
    assert!(!r.is_destructive("web_search"));
    assert!(!r.is_destructive("teleport"));
}

#[test]
fn confirmation_depends_on_the_command() {
    let r = ToolRegistry::with_defaults();
    assert!(!r.needs_confirm("run_command", "{\"cmd\":\"ls -l\"}"));
    assert!(r.needs_confirm("run_command", "{\"cmd\":\"rm x\"}"));
    assert!(r.needs_confirm("run_command", "{}"));
    assert!(r.needs_confirm("run_command", "no json"));
    assert!(r.needs_confirm("write_file", "{}"));
    assert!(!r.needs_confirm("read_file", "{}"));
    assert!(!r.needs_confirm("teleport", "{}"));
}

#[test]
fn calls_are_dispatched() {
    let r = ToolRegistry::with_defaults().register(Tool::Mcp(McpTool::new(
        "remote".to_string(),
        "does".to_string(),
    )));
    match r.execute("read_file", "{\"path\":\"a\"}") {
        Ok(Request::ReadFile { path }) => assert_eq!(path, "a"),
        _ => panic!("reads"),
    }
    match r.execute("write_file", "{\"path\":\"a\",\"content\":\"b\"}") {
        Ok(Request::WriteFile { path, content }) => assert_eq!((path.as_str(), content.as_str()), ("a", "b")),
        _ => panic!("writes"),
    }
    match r.execute("run_command", "{\"cmd\":\"ls\"}") {
        Ok(Request::RunCommand { cmd }) => assert_eq!(cmd, "ls"),
        _ => panic!("runs"),
    }
    match r.execute("web_search", "{\"query\":\"a b\"}") {
        Ok(Request::WebSearch { query, url }) => {
            assert_eq!(query, "a b");
            assert_eq!(url, "https://html.duckduckgo.com/html/?q=a+b");
        }
        _ => panic!("searches"),
    }
    match r.execute("remote", "{\"x\":1}") {
        Ok(Request::Mcp { name, args }) => assert_eq!((name.as_str(), args.as_str()), ("remote", "{\"x\":1}")),
        _ => panic!("calls"),
    }
}

#[test]
fn missing_arguments_are_errors() {
    let r = ToolRegistry::with_defaults();
    let message = |name: &str, args: &str| match r.execute(name, args) {
        Ok(_) => String::new(),
        Err(e) => e.message(),
    };
    assert_eq!(message("read_file", "{\"path\":7}"), "invalid args: missing 'path'");
    assert_eq!(message("write_file", "{}"), "invalid args: missing 'path'");
    assert_eq!(message("write_file", "{\"path\":\"a\"}"), "invalid args: missing 'content'");
    assert_eq!(message("run_command", "[]"), "invalid args: missing 'cmd'");
    assert_eq!(message("web_search", ""), "invalid args: missing 'query'");
    assert_eq!(message("teleport", "{}"), "unknown tool: teleport");
    assert_eq!(ToolError::Io("x".to_string()).message(), "io error: x");
}

#[test]
fn the_prompt_lists_the_tools() {
    let r = ToolRegistry::new().register(Tool::Mcp(McpTool::new("t".to_string(), "d".to_string())));
    let p = r.system_prompt_section("2024-05-06");
    assert!(p.starts_with("You are Axon, a concise local AI coding assistant. Today is 2024-05-06.\n\n## Tools\n/no_think\n"));
    assert!(p.ends_with("\n\nAvailable tools:\n- t: d\n"));
    let all = ToolRegistry::with_defaults().system_prompt_section("x");
    assert!(all.contains("- read_file: read_file(path: string) — read the contents of a file\n- write_file: "));
}

#[test]
fn safe_commands() {
    for cmd in ["ls", "  /bin/ls -la", "git status", "/usr/bin/git log -1", "cargo build", "grep x y"] {
        assert!(is_safe_command(cmd), "{}", cmd);
    }
    for cmd in ["", "   ", "rm -rf x", "git push", "git", "lsx", "sudo ls"] {
        assert!(!is_safe_command(cmd), "{}", cmd);
    }
}

#[test]
fn command_reports() {
    let text = |out: &str, err: &str, ok: bool, code: Option<i32>| match command_report(out, err, ok, code) {
        Ok(t) => t,
        Err(e) => e.message(),
    };
    assert_eq!(text("a\n", "", true, Some(0)), "a");
    assert_eq!(text("a\n", "b\n", true, Some(0)), "a\n[stderr] b");
    assert_eq!(text("", "b\n", false, Some(2)), "[stderr] b\n[exit code 2]");
    assert_eq!(text("", "", false, Some(3)), "command failed: exit code 3");
    assert_eq!(text("", "", false, None), "command failed: exit code -1");
    assert_eq!(text("", "", true, Some(0)), "");
}

#[test]
fn file_reports() {
    assert_eq!(read_report("short"), "short");
    let long = "x".repeat(8001);
    let r = read_report(&long);
    assert!(r.starts_with(&"x".repeat(8000)));
    assert!(r.ends_with("x\n[truncated — file is 8001 bytes, showing first 8000]"));
    assert_eq!(read_report(&"y".repeat(8000)), "y".repeat(8000));
    assert_eq!(write_report("p", "äb"), "wrote 3 bytes to p");
}

#[test]
fn mcp_replies() {
    let texts = vec![String::new(), "a".to_string(), "b".to_string()];
    match reply_report(&texts, None) {
        Ok(t) => assert_eq!(t, "a\nb"),
        Err(_) => panic!("no error"),
    }
    match reply_report(&texts, Some(true)) {
        Ok(_) => panic!("an error"),
        Err(e) => assert_eq!(e.message(), "command failed: a\nb"),
    }
    assert!(reply_report(&texts, Some(false)).is_ok());
}

#[test]
fn html_is_cleaned() {
    assert_eq!(html_clean("<b>a</b> &amp; &lt;b&gt; &quot;c&quot; &#x27;d&#x27;&nbsp;e"), "a & <b> \"c\" 'd' e");
    assert_eq!(html_clean("&amp;lt;"), "<");
    assert_eq!(html_clean("a > b"), "a  b");
}

#[test]
fn snippets_are_extracted() {
    let page = "<a class=\"result__snippet\" href=\"x\"> One <b>two</b> </a>\
                <a class=\"result__snippet\"><i></i></a>\
                <a class=\"result__snippet\">three</a>";
    assert_eq!(extract_snippets(page, 5), vec!["One two", "three"]);
    assert_eq!(extract_snippets(page, 1), vec!["One two"]);
    assert!(extract_snippets(page, 0).is_empty());
    assert!(extract_snippets("class=\"result__snippet\"", 5).is_empty());
    assert!(extract_snippets("class=\"result__snippet\">x", 5).is_empty());
}

#[test]
fn search_reports() {
    assert_eq!(search_url("a b c"), "https://html.duckduckgo.com/html/?q=a+b+c");
    assert_eq!(search_report("q", "nothing"), "No results found for: q");
    let page = "class=\"result__snippet\">x</a>class=\"result__snippet\">y</a>";
    assert_eq!(search_report("q", page), "x\ny");
}

#[test]
fn fields_can_be_made_by_hand() {
    let none: Option<Vec<Field>> = None;
    assert!(Tool::RunCommand(axon::tools::shell::RunCommandTool).needs_confirm(&none));
}
