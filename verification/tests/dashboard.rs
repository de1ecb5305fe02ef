use axon::dashboard::api::{
    default_policy, ws_url, AgentDef, AgentInfo, McpTool, Task, Team, TeamWithAgents,
};
use axon::dashboard::definition::{agent_def_to_md, blank_def, md_to_agent_def, TEMPLATE};
use axon::dashboard::editor::{
    accept_task, active_count, can_delete, is_reviewable, needs_custom_team, task_status,
    TaskEditor,
};
use axon::dashboard::editor::SaveTarget;
use axon::dashboard::events::{format_event, trunc, Effect, Feed};
use axon::dashboard::page::{agent_page, agent_page_source, render_agent_md};
use axon::dashboard::pane::{list_definitions, AgentsPane, McpPane, Panel};
use axon::dashboard::rows::{footer, nonscheduled, row_label, rows};
use axon::dashboard::timeline::{
    axis, bar_style, bars, mood_of, zoom_in, zoom_label, zoom_out, BarClass, Mood, RowBars,
    SavedCycle, Times, Window,
};
use axon::dashboard::toolbox::{
    all_selected, builtin_tools, group_by_server, is_indeterminate, selected_count, toggle_tool,
};
use axon::mcp::{
    add_env, by_id, command_line, default_servers, delete, edited_servers, is_error_message,
    masked, pick_servers, remove_env, upsert, McpServerConfig, UpsertMcpReq,
};
use axon::server::{
    answer_cancel, answer_change, answer_work, asset_path, check_model, check_spawn, content_type,
    selectable_models, static_reply, stream_goes_on, SetModelReq, SpawnRequest, Static, StreamStep,
};
use axon::table::Table;

fn def(id: &str, name: &str) -> AgentDef {
    let mut d = blank_def("team".to_string());
    d.id = id.to_string();
    d.name = name.to_string();
    d
}

fn full() -> AgentDef {
    let mut d = def("i", "Checker");
    d.model = Some("m:1".to_string());
    d.tools = vec!["write_file".to_string(), "c#tool".to_string()];
    d.policy = "deny_destructive".to_string();
    d.memory_window = Some(20);
    d.max_turns = Some(7);
    d.schedule_mins = Some(15);
    d.task = Some("first line\n\nsecond: # line".to_string());
    d.task_hint = Some("say what".to_string());
    d.instructions = "# Do\n\n---\nthis".to_string();
    d
}

fn same(a: &AgentDef, b: &AgentDef) {
    assert_eq!(a.id, b.id);
    assert_eq!(a.team_id, b.team_id);
    assert_eq!(a.name, b.name);
    assert_eq!(a.model, b.model);
    assert_eq!(a.instructions, b.instructions);
    assert_eq!(a.tools, b.tools);
    assert_eq!(a.policy, b.policy);
    assert_eq!(a.memory_window, b.memory_window);
    assert_eq!(a.max_turns, b.max_turns);
    assert_eq!(a.schedule_mins, b.schedule_mins);
    assert_eq!(a.task, b.task);
    assert_eq!(a.task_hint, b.task_hint);
    assert_eq!(a.builtin, b.builtin);
}

#[test]
fn definitions_are_written() {
    assert_eq!(
        agent_def_to_md(&full()),
        "---\nname: Checker\nmodel: m:1\ntools:\n  - write_file\n  - c#tool\npolicy: deny_destructive\nmemory_window: 20\nmax_turns: 7\nschedule_mins: 15\ntask: |\n  first line\n  \n  second: # line\ntask_hint: say what\n---\n\n# Do\n\n---\nthis"
    );
    assert_eq!(
        agent_def_to_md(&def("i", "")),
        "---\nname: \npolicy: auto_approve\n---\n\n"
    );
    assert_eq!(agent_def_to_md(&def("", "")), TEMPLATE);
    assert_eq!(default_policy(), "auto_approve");
}

#[test]
fn written_definitions_read_back() {
    for d in [full(), def("i", "Name"), def("i", "")] {
        same(&md_to_agent_def(&agent_def_to_md(&d), &d), &d);
    }
}

#[test]
fn the_template_reads_as_its_defaults() {
    let d = md_to_agent_def(TEMPLATE, &blank_def("t".to_string()));
    assert_eq!(d.name, "");
    assert_eq!(d.model, None);
    assert_eq!(d.tools, vec!["write_file"]);
    assert_eq!(d.policy, "auto_approve");
    assert_eq!((d.memory_window, d.max_turns, d.schedule_mins), (Some(20), Some(10), None));
    assert_eq!((d.task, d.task_hint), (None, None));
    assert_eq!(d.instructions, "# Agent instructions\n\nDescribe what this agent should do...");
}

#[test]
fn documents_are_read_leniently() {
    let fb = def("i", "old");
    let d = md_to_agent_def("just text ", &fb);
    assert_eq!((d.name.as_str(), d.instructions.as_str()), ("old", "just text"));
    let d = md_to_agent_def(
        "---\nname: n # comment\ntools: [a, , b ]\nmemory_window: many\ntask: one\nnonsense\n",
        &fb,
    );
    assert_eq!(d.name, "n");
    assert_eq!(d.tools, vec!["a", "b"]);
    assert_eq!(d.memory_window, None);
    assert_eq!(d.task.as_deref(), Some("one"));
    assert_eq!(d.instructions, "");
    let d = md_to_agent_def("---\ntools: []\n  - x\n  # - y\n  - z\ntask: |\n  a\n  b", &fb);
    assert_eq!(d.tools, vec!["x", "z"]);
    assert_eq!(d.task.as_deref(), Some("a\nb"));
}

#[test]
fn documents_become_pages() {
    assert_eq!(render_agent_md("  "), "<div class=\"muted placeholder\">No content</div>");
    assert_eq!(
        render_agent_md("*hi*"),
        "<div class=\"md-body\"><p><em>hi</em></p>\n</div>"
    );
    let page = render_agent_md(
        "---\nname: N\nmodel: m\ntools:\n  - a\n  - b\nmemory_window: 5\nmax_turns: 6\nschedule_mins: 7\ntask: t\ntask_hint: h\n---\n~~x~~\n",
    );
    assert_eq!(
        page,
        "<div class=\"agent-meta\"><span class=\"meta-name\">N</span> <span class=\"meta-badge\">m</span> <span class=\"meta-badge\">mem: 5</span> <span class=\"meta-badge\">turns: 6</span> <span class=\"meta-badge\">tools: a, b</span> <span class=\"meta-badge\">⏲ 7m</span> <span class=\"meta-badge\">task: t</span> <span class=\"meta-badge\">hint: h</span> </div>\n<div class=\"md-body\"><p><del>x</del></p>\n</div>"
    );
    assert!(agent_page_source("").is_none());
    assert_eq!(
        agent_page_source("---\ntask: |\n---\nbody"),
        Some((Some(String::new()), "body".to_string()))
    );
    assert_eq!(agent_page(&None, "x"), "<div class=\"md-body\">x</div>");
}

fn agent(id: &str, name: Option<&str>) -> AgentInfo {
    AgentInfo {
        id: id.to_string(),
        task: String::new(),
        model: String::new(),
        policy: String::new(),
        status: "queued".to_string(),
        role: String::new(),
        perpetual: false,
        def_name: name.map(|n| n.to_string()),
        last_seen_stage: String::new(),
        current_stage: String::new(),
        started: String::new(),
        cycle_started: "s".to_string(),
        cycle_completed: String::new(),
    }
}

fn team(name: &str, builtin: bool, agents: Vec<AgentDef>) -> TeamWithAgents {
    TeamWithAgents {
        team: Team { id: format!("id-{}", name), name: name.to_string(), builtin },
        agents,
    }
}

#[test]
fn rows_are_sorted_by_name_and_label() {
    let mut timed = def("1", "beta");
    timed.schedule_mins = Some(5);
    let teams = vec![team("t", false, vec![timed, def("2", "alpha")])];
    let agents = vec![
        agent("zz", Some("beta")),
        agent("agent-17", Some("beta")),
        agent("x", None),
        agent("a", Some("alpha")),
    ];
    let rs = rows(&agents, &teams);
    let labels: Vec<(String, u64)> = rs.iter().map(|r| (r.label.clone(), r.mins)).collect();
    assert_eq!(
        labels,
        vec![
            ("alpha (a)".to_string(), 0),
            ("beta (agent-)".to_string(), 5),
            ("beta (zz)".to_string(), 5),
        ]
    );
    assert_eq!(nonscheduled(&agents, &teams), 2);
    assert_eq!(footer(2), "2 on-demand agent(s) running");
    assert_eq!(footer(0), "");
    assert_eq!(row_label("123456789012345678"), "123456789012345678");
    assert_eq!(row_label("1234567890123456789"), "123456789012345678…");
}

#[test]
fn zooming() {
    let labels: Vec<String> = (0..7).map(zoom_label).collect();
    assert_eq!(labels, vec!["20m", "40m", "1h", "2h", "4h", "8h", "24h"]);
    assert_eq!((zoom_out(0), zoom_out(6), zoom_in(0), zoom_in(6)), (1, 6, 0, 5));
    let ticks: Vec<String> = axis(1).into_iter().map(|t| t.label).collect();
    assert_eq!(ticks, vec!["-30m", "-25m", "-20m", "-15m", "-10m", "-5m", "now", "+5m", "+10m"]);
    let ticks: Vec<String> = axis(3).into_iter().map(|t| t.label).collect();
    assert_eq!(ticks, vec!["-1h", "-1h", "-1h", "+0h", "+0h", "+0h", "now", "+0h", "+0h"]);
}

const NOW: i64 = 1_700_000_000_000;

fn window() -> Window {
    Window { now: NOW, span_secs: 2400 }
}

fn shown(t: Times, m: Mood, mins: u64, saved: Vec<SavedCycle>) -> Vec<(i64, i64, BarClass)> {
    match bars(window(), t, m, mins, &saved) {
        RowBars::Bars(v) => v
            .iter()
            .map(|b| ((b.start as i64 - NOW) / 1000, (b.end as i64 - NOW) / 1000, b.class))
            .collect(),
        RowBars::Unknown => panic!("known"),
    }
}

#[test]
fn manual_rows_have_one_bar() {
    let t = Times { started: Some(NOW - 100_000), cycle_started: None, cycle_completed: None };
    assert_eq!(shown(t, Mood::Busy, 0, Vec::new()), vec![(-100, 0, BarClass::Running)]);
    let t = Times { cycle_completed: Some(NOW - 50_000), ..t };
    assert_eq!(shown(t, Mood::Rested, 0, Vec::new()), vec![(-100, -50, BarClass::Done)]);
    assert_eq!(shown(t, Mood::Failed, 0, Vec::new()), vec![(-100, -50, BarClass::Error)]);
    let t = Times { started: None, ..t };
    assert!(shown(t, Mood::Rested, 0, Vec::new()).is_empty());
}

#[test]
fn scheduled_rows_show_current_and_coming_cycles() {
    let t = Times {
        started: Some(NOW - 2_000_000),
        cycle_started: Some(NOW - 100_000),
        cycle_completed: None,
    };
    assert_eq!(
        shown(t, Mood::Busy, 5, Vec::new()),
        vec![(-100, 0, BarClass::Running), (200, 230, BarClass::Future), (500, 530, BarClass::Future)]
    );
    let done = Times { cycle_completed: Some(NOW - 40_000), ..t };
    assert_eq!(shown(done, Mood::Rested, 5, Vec::new())[0], (-100, -40, BarClass::Done));
    // The cycle that ran last is over; the current one has not begun.
    let past = Times { cycle_started: Some(NOW - 400_000), ..done };
    assert_eq!(
        shown(past, Mood::Failed, 5, Vec::new()),
        vec![(-400, -100, BarClass::Error), (200, 230, BarClass::Future), (500, 530, BarClass::Future)]
    );
    let saved = vec![
        SavedCycle { start: Some(NOW - 900_000), end: Some(NOW - 100_000), failed: false },
        SavedCycle { start: Some(NOW - 9_000_000), end: Some(NOW - 8_000_000), failed: false },
        SavedCycle { start: None, end: Some(NOW), failed: true },
    ];
    let all = shown(t, Mood::Busy, 5, saved);
    assert_eq!(all[3], (-900, -600, BarClass::Done));
    assert_eq!(all.len(), 4);
    assert!(matches!(
        bars(window(), Times { cycle_started: None, ..t }, Mood::Busy, 5, &Vec::new()),
        RowBars::Unknown
    ));
}

#[test]
fn bars_have_colours() {
    assert_eq!(bar_style(BarClass::Done), ("var(--green)", "0.5"));
    assert_eq!(bar_style(BarClass::Error), ("var(--red)", "0.7"));
    assert_eq!(bar_style(BarClass::Running), ("var(--accent)", "0.7"));
    assert_eq!(bar_style(BarClass::Future), ("var(--accent)", "0.15"));
    assert_eq!(mood_of("idle"), Mood::Rested);
    assert_eq!(mood_of("error"), Mood::Failed);
    assert_eq!(mood_of("queued"), Mood::Busy);
    assert_eq!(mood_of("cancelled"), Mood::Other);
}

fn feed() -> Feed {
    let mut f = Feed::new();
    f.set_agents(vec![agent("a", None), agent("b", None)]);
    f
}

#[test]
fn events_reach_the_log() {
    let mut f = feed();
    let lines = [
        ("{\"TaskStarted\":{\"task_description\":\"d\"}}", "ev-turn", "▶ task started: d"),
        ("{\"TurnStarted\":{\"turn_number\":1,\"max_turns\":5}}", "ev-turn", "— turn 2/5"),
        ("{\"TurnStarted\":{\"turn_number\":18446744073709551615}}", "ev-turn", "— turn 18446744073709551616/0"),
        ("{\"ToolCallRequested\":{\"tool_name\":\"t\",\"arguments\":\"{}\"}}", "ev-tool", "🔧 t({})"),
        ("{\"ToolCallCompleted\":{\"tool_name\":\"t\",\"result\":{\"x\":\"y\"}}}", "ev-tool", "✓ t → {\"x\":\"y\"}"),
        ("{\"ToolCallCompleted\":{\"result\":[0.30000000000000004,1.7976931348623157e+308,5e-324]}}", "ev-tool", "✓  → [0.30000000000000004,1.7976931348623157e+308,5e-324]"),
        ("{\"ToolCallFailed\":{\"tool_name\":\"t\",\"error\":\"e\"}}", "ev-error", "✗ t: e"),
        ("{\"StreamChunk\":{\"chunk\":{\"delta\":\"p\"}}}", "", "p"),
        ("{\"StreamChunk\":{\"chunk\":{\"response\":\"q\"}}}", "", "q"),
        ("{\"TaskComplete\":{\"result\":\"r\"}}", "ev-done", "✅ r"),
        ("{\"TaskError\":{\"error\":\"e\"}}", "ev-error", "❌ e"),
    ];
    for (event, _, _) in lines.iter() {
        assert_eq!(f.handle_event("a", event, "now"), Effect::Nothing);
    }
    for event in ["{\"StreamChunk\":{\"chunk\":{\"delta\":7,\"response\":\"x\"}}}", "{\"Other\":1}", "{}", "[]", "x"] {
        f.handle_event("a", event, "now");
    }
    let log = f.log("a").lines;
    assert_eq!(log.len(), lines.len());
    for (l, (_, class, text)) in log.iter().zip(lines.iter()) {
        assert_eq!((l.class.as_str(), l.text.as_str()), (*class, *text));
    }
    assert!(f.log("b").lines.is_empty());
    assert!(format_event("Other", &Vec::new(), &None).is_none());
}

#[test]
fn events_change_agents_and_keep_cycles() {
    let mut f = feed();
    f.handle_event("a", "{\"TaskStarted\":{}}", "t0");
    assert_eq!(f.agents()[0].status, "running");
    assert!(f.cycles("a").entries.is_empty());
    f.handle_event("a", "{\"TaskError\":{}}", "t1");
    assert_eq!((f.agents()[0].status.as_str(), f.agents()[0].cycle_completed.as_str()), ("error", "t1"));
    for _ in 0..7 {
        f.handle_event("a", "{\"TaskStarted\":{}}", "t2");
        f.handle_event("a", "{\"TaskComplete\":{}}", "t3");
    }
    let kept = f.cycles("a").entries;
    assert_eq!(kept.len(), 5);
    assert_eq!(
        (kept[4].started.as_str(), kept[4].completed.as_str(), kept[4].status.as_str()),
        ("s", "t3", "done")
    );
    assert_eq!(f.agents()[1].status, "queued");
}

#[test]
fn system_events_ask_for_something() {
    let mut f = feed();
    assert_eq!(f.handle_event("system", "{\"Reload\":{}}", ""), Effect::Reload);
    assert_eq!(f.handle_event("system", "{\"TasksChanged\":{}}", ""), Effect::RefreshTasks);
    assert_eq!(f.handle_event("system", "{\"ModelChanged\":{}}", ""), Effect::RefreshModel);
    assert_eq!(f.handle_event("system", "{\"TaskStarted\":{}}", ""), Effect::Nothing);
}

#[test]
fn long_texts_are_shortened() {
    assert_eq!(trunc("äöü", 3), "äöü");
    assert_eq!(trunc("äöü", 2), "äö…");
}

#[test]
fn tools_are_toggled() {
    assert_eq!(builtin_tools().len(), 7);
    assert_eq!(builtin_tools()[0], ("write_file", "Write File", "Create or overwrite files"));
    let d = def("i", "n");
    let with = toggle_tool(&d, "a");
    assert_eq!(with.tools, vec!["a"]);
    assert!(toggle_tool(&with, "a").tools.is_empty());
}

fn mcp_tools() -> Vec<McpTool> {
    [("x", "s"), ("y", ""), ("z", "s"), ("w", "b")]
        .iter()
        .map(|(n, s)| McpTool {
            name: n.to_string(),
            description: String::new(),
            server_name: s.to_string(),
        })
        .collect()
}

#[test]
fn tools_are_grouped_by_server() {
    let tools = mcp_tools();
    let groups = group_by_server(&tools);
    let shown: Vec<(String, Vec<usize>)> =
        groups.into_iter().map(|g| (g.name, g.members)).collect();
    assert_eq!(
        shown,
        vec![("b".to_string(), vec![3]), ("mcp".to_string(), vec![1]), ("s".to_string(), vec![0, 2])]
    );
    let names = vec!["x".to_string(), "z".to_string()];
    let have = vec!["z".to_string(), "q".to_string()];
    assert_eq!(selected_count(&names, &have), 1);
    assert!(is_indeterminate(&names, &have));
    assert!(!all_selected(&names, &have));
    assert!(all_selected(&names, &names));
    assert!(!is_indeterminate(&names, &names));
}

#[test]
fn the_agents_pane() {
    let mut p = AgentsPane::new();
    assert_eq!(p.panel(), Panel::Timeline);
    assert_eq!(p.heading(), "agent");
    assert_eq!(p.task_hint(), "Describe a task for this agent…");
    p.spawn_task = "x".to_string();
    p.open_def(full());
    assert_eq!(p.panel(), Panel::Spawn);
    assert_eq!(p.spawn_task, "");
    assert_eq!((p.heading(), p.task_hint()), ("Checker".to_string(), "say what".to_string()));
    assert!(!p.is_read_only());
    p.raw_mode = true;
    assert_eq!(p.panel(), Panel::Document);
    p.md = p.md.replace("name: Checker", "name: Other");
    let (saved, target) = p.save();
    assert_eq!(saved.name, "Other");
    assert!(matches!(target, SaveTarget::Update(id) if id == "i"));
    p.saved(saved);
    assert_eq!(p.heading(), "Other");
    let n = p.choose_model("default").unwrap_or_else(|| panic!("saved"));
    assert_eq!(n.model, None);
    assert!(!p.md.contains("model:"));
    p.spawn_task = "later".to_string();
    let n = p.choose_schedule("60").unwrap_or_else(|| panic!("saved"));
    assert_eq!((n.schedule_mins, n.task.as_deref()), (Some(60), Some("later")));
    let n = p.choose_schedule("0").unwrap_or_else(|| panic!("saved"));
    assert_eq!(n.schedule_mins, None);
    let n = p.toggle_group(&mcp_tools(), "s", true).unwrap_or_else(|| panic!("open"));
    assert_eq!(n.tools, vec!["write_file", "c#tool", "x", "z"]);
    let n = p.toggle_group(&mcp_tools(), "s", false).unwrap_or_else(|| panic!("open"));
    assert_eq!(n.tools, vec!["write_file", "c#tool"]);
    let n = p.toggle_tool("c#tool").unwrap_or_else(|| panic!("open"));
    assert_eq!(n.tools, vec!["write_file"]);
    p.spawn_task = " go ".to_string();
    assert_eq!(p.spawn(), Some(("i".to_string(), "go".to_string())));
    assert_eq!(p.panel(), Panel::Timeline);
    p.select_agent("a");
    assert_eq!(p.panel(), Panel::Log);
    p.enter();
    assert_eq!(p.panel(), Panel::Timeline);
    assert_eq!(p.delete(), Some("i".to_string()));
}

#[test]
fn unsaved_definitions() {
    let mut p = AgentsPane::new();
    p.md = "---\nname: New\n---\n".to_string();
    let (d, target) = p.save();
    assert_eq!((d.name.as_str(), d.team_id.as_str()), ("New", "custom"));
    assert!(matches!(target, SaveTarget::Create(t) if t == "custom"));
    p.open_def(def("", "x"));
    p.spawn_task = "go".to_string();
    assert_eq!(p.spawn(), None);
    assert_eq!(p.delete(), None);
    assert!(p.choose_model("m").is_none());
    assert!(p.choose_schedule("5").is_none());
    assert!(!can_delete(&p.def));
    assert!(can_delete(&Some(def("i", "x"))));
    let mut b = def("i", "x");
    b.builtin = true;
    assert!(!can_delete(&Some(b)));
}

#[test]
fn tasks_are_reviewed() {
    let teams = vec![team("axon", true, vec![def("1", "w")]), team("own", false, Vec::new())];
    let (t, d) = accept_task("---\nname: N\n---\nDo", &teams);
    assert_eq!(t, "id-own");
    assert_eq!(d.map(|d| (d.name, d.team_id)), Some(("N".to_string(), "id-own".to_string())));
    let (t, d) = accept_task("no definition", &Vec::new());
    assert_eq!(t, "custom");
    assert!(d.is_none());
    assert!(needs_custom_team(&teams));
    assert!(!needs_custom_team(&vec![team("custom", false, Vec::new())]));
    let items = list_definitions(&teams);
    assert_eq!(items.len(), 1);
    assert_eq!((items[0].0.as_str(), items[0].1.name.as_str()), ("axon", "w"));
    assert_eq!(active_count(&vec![agent("a", Some("w")), agent("b", None)], "w"), 1);
    let task = |id: &str, status: &str| Task {
        id: id.to_string(),
        title: "t".to_string(),
        description: String::new(),
        body: "b".to_string(),
        tags: String::new(),
        status: status.to_string(),
        updated: String::new(),
    };
    let active = vec![task("1", "proposed")];
    let history = vec![task("2", "rejected")];
    assert_eq!(task_status(&active, &history, "1"), "proposed");
    assert_eq!(task_status(&active, &history, "2"), "rejected");
    assert_eq!(task_status(&active, &history, "3"), "");
    assert!(is_reviewable("proposed") && !is_reviewable("accepted"));
    let mut e = TaskEditor::new();
    e.raw_mode = true;
    e.select_task(Some(task("1", "proposed")));
    assert_eq!((e.selected.as_deref(), e.title.as_str(), e.raw_mode), (Some("1"), "t", false));
    e.select_task(None);
    assert_eq!((e.selected, e.body.as_str()), (None, ""));
}

#[test]
fn the_mcp_pane() {
    let mut p = McpPane::new();
    p.start_edit("{".to_string());
    assert!(p.editing);
    assert!(p.save().is_none());
    assert!(p.status.starts_with("Error: Invalid JSON (EOF while parsing an object"));
    assert!(is_error_message(&p.status));
    p.buffer = "{\"mcpServers\":{\"a\":{\"command\":\"c\"}}}".to_string();
    assert_eq!(p.save(), Some("{\"a\":{\"command\":\"c\"}}".to_string()));
    p.malformed("no args");
    assert_eq!(p.status, "Error: Invalid MCP server format (no args)");
    p.saved(Err("down".to_string()));
    assert_eq!(p.status, "Error saving configuration: down");
    assert!(p.editing);
    p.saved(Ok(()));
    assert_eq!(p.status, "Configuration saved successfully");
    assert!(!p.editing && !is_error_message(&p.status));
    p.cancel_edit();
    assert_eq!(p.status, "");
    assert_eq!(edited_servers("{\"a\":{}}"), Ok("{\"a\":{}}".to_string()));
    assert_eq!(edited_servers("[1]"), Ok("[1]".to_string()));
    assert_eq!(pick_servers("raw", &None), "raw");
}

#[test]
fn mcp_servers() {
    let mut servers: Table<McpServerConfig> = default_servers();
    match servers.get("github") {
        Some(c) => assert_eq!(command_line(c), "npx -y @modelcontextprotocol/server-github"),
        None => panic!("configured"),
    }
    assert!(servers.contains("google"));
    let req = |id: &str, command: &str| UpsertMcpReq {
        id: id.to_string(),
        command: command.to_string(),
        args: Vec::new(),
        env: Vec::new(),
    };
    assert_eq!(upsert(&mut servers, req("x", "run")), Ok(()));
    assert_eq!(
        upsert(&mut servers, req(" ", "run")),
        Err("id and command must not be empty".to_string())
    );
    assert_eq!(
        upsert(&mut servers, req("x", "")),
        Err("id and command must not be empty".to_string())
    );
    assert!(delete(&mut servers, "x"));
    assert!(!delete(&mut servers, "x"));
    let cfg = McpServerConfig { command: "c".to_string(), args: Vec::new(), env: Vec::new() };
    let more = add_env(&cfg, " K ", " v ").unwrap_or_else(|| panic!("named"));
    assert_eq!(more.env, vec![("K".to_string(), "v".to_string())]);
    let again = add_env(&more, "K", "w").unwrap_or_else(|| panic!("named"));
    assert_eq!(again.env, vec![("K".to_string(), "w".to_string())]);
    assert!(add_env(&cfg, "  ", "v").is_none());
    assert!(remove_env(&again, "K").env.is_empty());
    assert_eq!((masked(""), masked("x")), ("(empty)", "********"));
    let ids = vec!["b".to_string(), "a".to_string(), "ab".to_string()];
    assert_eq!(by_id(&ids), vec![1, 2, 0]);
}

#[test]
fn the_server_answers() {
    assert_eq!(content_type("a/b.html"), "text/html; charset=utf-8");
    assert_eq!(content_type("x.mjs"), "text/javascript; charset=utf-8");
    assert_eq!(content_type("x.woff2"), "font/woff2");
    assert_eq!(content_type("css"), "text/css; charset=utf-8");
    assert_eq!(content_type("x.tar.gz"), "application/octet-stream");
    assert_eq!((asset_path("/"), asset_path("//a/b")), ("index.html", "a/b"));
    assert_eq!(static_reply(true, false), Static::File);
    assert_eq!(static_reply(false, true), Static::StartPage);
    assert_eq!(static_reply(false, false), Static::Missing);
    assert_eq!(selectable_models(vec!["a".to_string()], "b"), vec!["b", "a"]);
    assert_eq!(selectable_models(vec!["a".to_string()], "a"), vec!["a"]);
    let req = |task: &str| SpawnRequest { def_id: "d".to_string(), task: task.to_string() };
    let said = |a: Option<axon::server::Answer>| a.map(|a| (a.status, a.message.unwrap_or_default()));
    assert_eq!(said(check_spawn(&req(" "), Ok(true))), Some((400, "task must not be empty".to_string())));
    assert_eq!(said(check_spawn(&req("x"), Ok(false))), Some((400, "no such agent definition".to_string())));
    assert_eq!(said(check_spawn(&req("x"), Err("db".to_string()))), Some((500, "db".to_string())));
    assert_eq!(said(check_spawn(&req("x"), Ok(true))), None);
    assert!(check_model(&SetModelReq { model: "m".to_string() }).is_none());
    assert_eq!(
        said(check_model(&SetModelReq { model: " ".to_string() })),
        Some((400, "model must not be empty".to_string()))
    );
    assert_eq!(answer_change(Ok(())).status, 204);
    assert_eq!(answer_change(Err("x".to_string())).status, 400);
    assert_eq!(answer_work(Ok(())).status, 204);
    assert_eq!(answer_work(Err("x".to_string())).status, 500);
    assert_eq!(answer_cancel(true).status, 204);
    assert_eq!(answer_cancel(false).status, 404);
    assert!(stream_goes_on(StreamStep::Lagged) && stream_goes_on(StreamStep::Received));
    assert!(stream_goes_on(StreamStep::Event { written: false }));
    assert!(!stream_goes_on(StreamStep::Sent { ok: false }) && !stream_goes_on(StreamStep::Closed));
    assert!(!stream_goes_on(StreamStep::Gone));
}

#[test]
fn addresses_of_the_event_stream() {
    assert_eq!(ws_url(Some("https:"), "h:1"), "wss://h:1/ws");
    assert_eq!(ws_url(Some("http:"), "h"), "ws://h/ws");
    assert_eq!(ws_url(None, ""), "ws:///ws");
}
