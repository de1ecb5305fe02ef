use axon::swarm::agent::{
    all_coder_tools, is_destructive, AgentControl, ApprovalPolicy, CodingAgent, HookOutcome, Role,
    CODER_PROMPT,
};
use axon::swarm::registry::{
    broadcast_control, def_sig, open_envelope, same_sig, strip_json_envelope, AgentStatus, Control,
    Launch, TaskEvent,
};
use axon::swarm::state::{next_pause, Swarm};
use axon::swarm::store::{changed, is_active, is_settled, new_task, slugify, stamped_id};
use axon::swarm::teams::{
    add_def, add_team, all_teams, builtin_teams, def_row, delete_def, delete_team, is_builtin_def,
    is_builtin_team, owned, policy_from_str, policy_to_str, rename_team, resolve_def, row_to_def,
    update_def, AgentDef, DefForm, Team, TeamWithAgents,
};
use axon::swarm::tools::{
    AddTaskArgs, AddTaskTool, RunCommandTool, SpawnAgentArgs, SpawnAgentTool, WebSearchArgs,
    WebSearchTool,
};
use axon::swarm::writer::generate_prompt;

fn def(id: &str, mins: Option<u64>, task: Option<&str>) -> AgentDef {
    AgentDef {
        id: id.to_string(),
        team_id: "t".to_string(),
        name: format!("name-{}", id),
        model: None,
        instructions: "do".to_string(),
        tools: vec!["write_file".to_string()],
        policy: ApprovalPolicy::AutoApprove,
        memory_window: None,
        max_turns: Some(3),
        schedule_mins: mins,
        task: task.map(|t| t.to_string()),
        task_hint: None,
        builtin: false,
    }
}

fn team(agents: Vec<AgentDef>) -> Vec<TeamWithAgents> {
    vec![TeamWithAgents {
        team: Team { id: "t".to_string(), name: "T".to_string(), builtin: false },
        agents,
    }]
}

fn launch(s: &mut Swarm, d: &AgentDef, l: &Launch, sub: &str) {
    s.register(&l.spec, "2024-01-01T00:00:00Z");
    if let Some((secs, _)) = &l.schedule {
        s.arm(&d.id, &l.spec.id, *secs, &l.task, def_sig(d));
    }
    s.published(&l.spec.id, &l.task, sub, "2024-01-01T00:00:10Z");
}

#[test]
fn destructive_tools() {
    for t in ["run_command", "write_file", "delete_file", "move_file", "copy_file", "create_dir"] {
        assert!(is_destructive(t));
    }
    for t in ["read_file", "web_search", "add_task", ""] {
        assert!(!is_destructive(t));
    }
}

#[test]
fn policies_gate_tools() {
    let mut c = AgentControl::new(ApprovalPolicy::DenyDestructive);
    assert_eq!(c.gate_tool("write_file"), HookOutcome::Abort);
    assert_eq!(c.gate_tool("read_file"), HookOutcome::Continue);
    assert_eq!(AgentControl::new(ApprovalPolicy::AutoApprove).gate_tool("write_file"), HookOutcome::Continue);
    assert_eq!(c.on_run_start(), HookOutcome::Continue);
    assert_eq!(c.on_tool_call("read_file"), HookOutcome::Continue);
    assert!(!c.is_cancelled());
    c.cancel();
    assert!(c.is_cancelled());
    assert_eq!(c.on_run_start(), HookOutcome::Abort);
    assert_eq!(c.on_tool_call("read_file"), HookOutcome::Abort);
    assert_eq!(c.policy(), ApprovalPolicy::DenyDestructive);
    assert_eq!(ApprovalPolicy::default(), ApprovalPolicy::AutoApprove);
}

#[test]
fn agents_have_their_tools() {
    let free = CodingAgent::with_role("a", Role::Coder, vec!["mcp_x".to_string()]);
    assert_eq!(free.prompt, CODER_PROMPT);
    let mut all = all_coder_tools();
    all.push("mcp_x".to_string());
    assert_eq!(free.tools(), all);
    let tight = CodingAgent::coder(
        "b",
        "p".to_string(),
        Some(vec!["add_task".to_string(), "spawn_agent".to_string(), "nope".to_string()]),
        true,
        vec!["mcp_x".to_string()],
    );
    assert_eq!(
        tight.tools(),
        vec!["read_file", "list_dir", "search_file", "add_task", "spawn_agent"]
    );
}

#[test]
fn one_shot_agents() {
    let mut s = Swarm::new("base", "http://o");
    assert_eq!(s.ollama_url(), "http://o");
    let d = def("d", None, None);
    let l = s.spawn_from_def(&d, "job".to_string()).unwrap_or_else(|e| panic!("{}", e));
    assert_eq!(l.spec.id, "agent-1");
    assert_eq!(l.spec.model_label, "base");
    assert_eq!((l.spec.memory_window, l.spec.max_turns), (20, 3));
    assert!(!l.spec.perpetual);
    assert!(l.schedule.is_none());
    launch(&mut s, &d, &l, "sub-1");
    let info = s.get("agent-1").unwrap_or_else(|| panic!("registered"));
    assert_eq!(info.task, "job");
    assert_eq!(info.status, AgentStatus::Queued);
    assert_eq!(info.cycle_started, "2024-01-01T00:00:10Z");
    assert_eq!(s.list().len(), 1);
    assert!(s.get("agent-2").is_none());

    assert!(s.on_event("unknown", TaskEvent::Started, "t1").is_none());
    let p = s.on_event("sub-1", TaskEvent::Started, "t1").unwrap_or_else(|| panic!("known"));
    assert_eq!(p.agent_id, "agent-1");
    assert!(!p.ended);
    assert_eq!(s.get("agent-1").map(|i| i.status), Some(AgentStatus::Running));
    let p = s
        .on_event(
            "sub-1",
            TaskEvent::Complete { result: "{\"done\":true,\"response\":\"fine\"}".to_string() },
            "t2",
        )
        .unwrap_or_else(|| panic!("known"));
    assert!(p.ended);
    let review = p.review.unwrap_or_else(|| panic!("to be reviewed"));
    assert_eq!(review.title, "job");
    assert_eq!(review.description, "Auto-created from agent `agent-1`");
    assert_eq!(review.tags, "agent");
    assert_eq!(review.body, "fine");
    let info = s.get("agent-1").unwrap_or_else(|| panic!("registered"));
    assert_eq!(info.status, AgentStatus::Done);
    assert_eq!(info.cycle_completed, "t2");
    assert_eq!(s.history().len(), 1);
    assert_eq!(s.history()[0].completed, "t2");
    assert_eq!(s.history()[0].status, AgentStatus::Done);
    assert!(s.on_scheduled_done("agent-1", (0, 0)).is_none());
}

#[test]
fn reviews_without_a_task_are_named_after_the_agent() {
    let mut s = Swarm::new("m", "u");
    let d = def("d", None, None);
    let l = s.spawn_from_def(&d, String::new()).unwrap_or_else(|e| panic!("{}", e));
    launch(&mut s, &d, &l, "x");
    let p = s
        .on_event("x", TaskEvent::Complete { result: "plain".to_string() }, "t")
        .unwrap_or_else(|| panic!("known"));
    let review = p.review.unwrap_or_else(|| panic!("to be reviewed"));
    assert_eq!(review.title, "Agent agent-1 completed");
    assert_eq!(review.body, "plain");
}

#[test]
fn errors_end_tasks_without_review() {
    let mut s = Swarm::new("m", "u");
    let d = def("d", None, None);
    let l = s.spawn_from_def(&d, "job".to_string()).unwrap_or_else(|e| panic!("{}", e));
    launch(&mut s, &d, &l, "x");
    let p = s.on_event("x", TaskEvent::Error, "t").unwrap_or_else(|| panic!("known"));
    assert!(p.ended && p.review.is_none());
    assert_eq!(s.get("agent-1").map(|i| i.status), Some(AgentStatus::Error));
    assert!(s.history()[0].result.is_none());
    let p = s.on_event("x", TaskEvent::Other, "t").unwrap_or_else(|| panic!("known"));
    assert!(!p.ended);
}

#[test]
fn scheduled_agents_rest_and_start_over() {
    let mut s = Swarm::new("m", "u");
    let d = def("d", Some(5), Some("own task"));
    let l = s.spawn_from_def(&d, "given task".to_string()).unwrap_or_else(|e| panic!("{}", e));
    assert_eq!(l.spec.id, "sched-d-1");
    assert_eq!(l.task, "given task");
    assert_eq!(l.schedule.as_ref().map(|x| x.0), Some(300));
    launch(&mut s, &d, &l, "x");
    s.on_event("x", TaskEvent::Complete { result: String::new() }, "t");
    assert_eq!(s.get("sched-d-1").map(|i| i.status), Some(AgentStatus::Idle));
    // 2024-01-01T00:00:10Z is 1704067210 seconds after the epoch.
    assert_eq!(
        s.on_scheduled_done("sched-d-1", (1704067270, 0)),
        Some((240_000_000_000, "given task".to_string()))
    );
    assert!(s.wakes("sched-d-1"));
    assert!(s.cancel("sched-d-1"));
    assert_eq!(s.get("sched-d-1").map(|i| i.status), Some(AgentStatus::Idle));
    assert!(s.wakes("sched-d-1"));
    s.published("sched-d-1", "given task", "y", "now");
    assert!(s.cancel("sched-d-1"));
    assert_eq!(s.get("sched-d-1").map(|i| i.status), Some(AgentStatus::Cancelled));
    assert!(!s.wakes("sched-d-1"));
    // A cancelled agent stays cancelled.
    s.on_event("y", TaskEvent::Complete { result: String::new() }, "t");
    assert_eq!(s.get("sched-d-1").map(|i| i.status), Some(AgentStatus::Cancelled));
    assert!(!s.cancel("nobody"));
}

#[test]
fn schedules_need_a_task_and_an_interval() {
    let mut s = Swarm::new("m", "u");
    let err = |r: Result<Launch, String>| r.err().unwrap_or_default();
    assert_eq!(
        err(s.start_schedule(&def("d", None, None), None)),
        "start_schedule: no schedule_mins"
    );
    assert_eq!(
        err(s.start_schedule(&def("d", Some(0), Some("x")), None)),
        "start_schedule: mins=0 or task empty"
    );
    assert_eq!(
        err(s.spawn_from_def(&def("d", Some(5), None), "  ".to_string())),
        "start_schedule: mins=0 or task empty"
    );
    // Nothing took a number.
    let l = s.start_schedule(&def("d", Some(5), Some("own")), Some(" ".to_string()));
    let l = l.unwrap_or_else(|e| panic!("{}", e));
    assert_eq!((l.spec.id.as_str(), l.task.as_str()), ("sched-d-1", "own"));
}

#[test]
fn cancel_all_spares_resting_agents() {
    let mut s = Swarm::new("m", "u");
    let a = def("a", None, None);
    let b = def("b", Some(1), Some("x"));
    let c = def("c", None, None);
    for (d, sub) in [(&a, "1"), (&b, "2"), (&c, "3")] {
        let l = s.spawn_from_def(d, "job".to_string()).unwrap_or_else(|e| panic!("{}", e));
        launch(&mut s, d, &l, sub);
    }
    s.on_event("2", TaskEvent::Complete { result: String::new() }, "t");
    s.on_event("3", TaskEvent::Error, "t");
    s.cancel_all();
    assert_eq!(s.get("agent-1").map(|i| i.status), Some(AgentStatus::Cancelled));
    assert_eq!(s.get("sched-b-2").map(|i| i.status), Some(AgentStatus::Idle));
    assert_eq!(s.get("agent-3").map(|i| i.status), Some(AgentStatus::Error));
}

#[test]
fn a_cancelled_agent_is_cancelled_for_good() {
    let mut s = Swarm::new("m", "u");
    let d = def("a", None, None);
    let l = s.spawn_from_def(&d, "job".to_string()).unwrap_or_else(|e| panic!("{}", e));
    launch(&mut s, &d, &l, "1");
    let stopped = |s: &Swarm| s.control("agent-1").map(|c| c.is_cancelled());
    assert_eq!(stopped(&s), Some(false));
    assert!(s.cancel("agent-1"));
    s.on_event("1", TaskEvent::Started, "t");
    s.published("agent-1", "again", "2", "t");
    assert_eq!(s.get("agent-1").map(|i| i.status), Some(AgentStatus::Queued));
    s.on_event("2", TaskEvent::Complete { result: String::new() }, "t");
    s.set_model("n");
    s.resync_schedules(&Vec::new());
    s.remove_schedule("a");
    s.cancel_all();
    assert_eq!(stopped(&s), Some(true));
}

#[test]
fn schedules_follow_the_definitions() {
    let mut s = Swarm::new("m", "u");
    let a = def("a", Some(5), Some("x"));
    let b = def("b", Some(5), Some("x"));
    let none = def("n", Some(5), Some("  "));
    let start = s.resync_schedules(&team(vec![a.clone(), b.clone(), none]));
    assert_eq!(start.iter().map(|d| d.id.clone()).collect::<Vec<_>>(), vec!["a", "b"]);
    for (d, sub) in [(&a, "1"), (&b, "2")] {
        let l = s.start_schedule(d, None).unwrap_or_else(|e| panic!("{}", e));
        launch(&mut s, d, &l, sub);
    }
    assert!(s.resync_schedules(&team(vec![a.clone(), b.clone()])).is_empty());
    // Another name does not matter, another task does.
    let mut renamed = a.clone();
    renamed.name = "other".to_string();
    let mut retasked = b.clone();
    retasked.task = Some("y".to_string());
    let start = s.resync_schedules(&team(vec![renamed, retasked]));
    assert_eq!(start.iter().map(|d| d.id.clone()).collect::<Vec<_>>(), vec!["b"]);
    assert_eq!(s.get("sched-b-2").map(|i| i.status), Some(AgentStatus::Cancelled));
    assert_eq!(s.get("sched-a-1").map(|i| i.status), Some(AgentStatus::Queued));
    assert!(!s.wakes("sched-b-2"));
    // Nothing is wanted any more.
    assert!(s.resync_schedules(&Vec::new()).is_empty());
    assert_eq!(s.get("sched-a-1").map(|i| i.status), Some(AgentStatus::Cancelled));
}

#[test]
fn history_is_bounded() {
    let mut s = Swarm::new("m", "u");
    let d = def("d", None, None);
    let l = s.spawn_from_def(&d, "job".to_string()).unwrap_or_else(|e| panic!("{}", e));
    launch(&mut s, &d, &l, "x");
    for i in 0..505 {
        s.on_event("x", TaskEvent::Error, &format!("t{}", i));
    }
    assert_eq!(s.history().len(), 500);
    assert_eq!(s.history()[0].completed, "t504");
}

#[test]
fn models_and_providers() {
    let mut s = Swarm::new("m", "u");
    assert!(s.shares_provider("m"));
    s.set_model("n");
    assert_eq!(s.model(), "n");
    assert!(!s.shares_provider("m"));
}

#[test]
fn pauses() {
    assert_eq!(next_pause(60, None, (5, 0)), 60_000_000_000);
    assert_eq!(next_pause(60, Some((0, 0)), (20, 500_000_000)), 39_500_000_000);
    assert_eq!(next_pause(60, Some((0, 0)), (60, 0)), 0);
    assert_eq!(next_pause(60, Some((100, 0)), (60, 0)), 60_000_000_000);
}

#[test]
fn unreadable_times_wait_the_whole_interval() {
    let mut s = Swarm::new("m", "u");
    let d = def("d", Some(1), Some("x"));
    let l = s.start_schedule(&d, None).unwrap_or_else(|e| panic!("{}", e));
    launch(&mut s, &d, &l, "1");
    s.published("sched-d-1", "x", "2", "soon");
    assert_eq!(
        s.on_scheduled_done("sched-d-1", (1704067270, 0)),
        Some((60_000_000_000, "x".to_string()))
    );
}

#[test]
fn signatures() {
    let a = def("a", Some(1), Some("x"));
    let mut b = def("b", Some(1), Some("x"));
    assert!(same_sig(&def_sig(&a), &def_sig(&b)));
    b.policy = ApprovalPolicy::DenyDestructive;
    assert!(!same_sig(&def_sig(&a), &def_sig(&b)));
    let mut c = def("c", Some(1), Some("x"));
    c.tools.push("y".to_string());
    assert!(!same_sig(&def_sig(&a), &def_sig(&c)));
}

#[test]
fn envelopes_are_opened() {
    assert_eq!(strip_json_envelope(" {\"response\":\"x\\ny\"} "), "x\ny");
    assert_eq!(strip_json_envelope(" plain "), " plain ");
    assert_eq!(strip_json_envelope("{\"other\":1}"), "{\"other\":1}");
    assert_eq!(strip_json_envelope("{broken"), "{broken");
    assert_eq!(open_envelope("{}", &None), "{}");
}

#[test]
fn control_frames() {
    let e = broadcast_control(Control::TasksChanged);
    assert_eq!(e.agent_id, "system");
    assert_eq!(e.event, "{\"TasksChanged\":{}}");
    assert_eq!(broadcast_control(Control::ModelChanged).event, "{\"ModelChanged\":{}}");
    assert_eq!(broadcast_control(Control::Reload).event, "{\"Reload\":{}}");
}

#[test]
fn slugs() {
    assert_eq!(slugify("Fix the UI!!"), "fix-the-ui");
    assert_eq!(slugify("--a--B 1--"), "a-b-1");
    assert_eq!(slugify("äöü"), "task");
    assert_eq!(slugify(""), "task");
    assert_eq!(slugify(&slugify("Some Title (draft)")), slugify("Some Title (draft)"));
    assert_eq!(stamped_id("A b", "20240101"), "a-b-20240101");
}

#[test]
fn tasks_in_the_queue() {
    let t = new_task("Do it", "d", "x, y", "body", "now", "1");
    assert_eq!(t.id, "do-it-1");
    assert_eq!((t.status.as_str(), t.source.as_str()), ("proposed", "planner"));
    assert_eq!((t.created.as_str(), t.updated.as_str()), ("now", "now"));
    assert!(is_active("proposed") && is_active("accepted") && is_active("implementing"));
    assert!(is_settled("rejected") && is_settled("implemented") && is_settled("failed"));
    assert!(!is_active("failed") && !is_settled("proposed"));
    assert_eq!(changed(1, "task", "x"), Ok(()));
    assert_eq!(changed(0, "task", "x"), Err("task `x` not found".to_string()));
}

fn form(name: &str, tools: &[&str]) -> DefForm {
    DefForm {
        name: name.to_string(),
        model: Some("m".to_string()),
        instructions: "i".to_string(),
        tools: owned(tools),
        policy: ApprovalPolicy::DenyDestructive,
        memory_window: Some(usize::MAX),
        max_turns: Some(4),
        schedule_mins: Some(u64::MAX),
        task: Some("t".to_string()),
        task_hint: None,
    }
}

#[test]
fn built_in_teams() {
    let ts = builtin_teams();
    assert_eq!(ts.len(), 1);
    assert_eq!((ts[0].team.id.as_str(), ts[0].team.builtin), ("axon", true));
    assert_eq!(ts[0].agents[0].id, "agent-writer");
    assert_eq!(ts[0].agents[0].tools, all_coder_tools());
    assert!(is_builtin_team("axon") && !is_builtin_team("x"));
    assert!(is_builtin_def("agent-writer") && !is_builtin_def("x"));
    assert_eq!(owned(&["a", "b"]), vec!["a", "b"]);
}

#[test]
fn policies_have_names() {
    for p in [ApprovalPolicy::AutoApprove, ApprovalPolicy::DenyDestructive] {
        assert_eq!(policy_from_str(policy_to_str(p)), p);
    }
    assert_eq!(policy_from_str("whatever"), ApprovalPolicy::AutoApprove);
}

#[test]
fn definitions_are_stored_and_loaded() {
    let row = def_row("id", "team", &form("n", &["a", "b"]));
    assert_eq!(row.tools, "a,b");
    assert_eq!(row.policy, "deny_destructive");
    assert_eq!(row.schedule_mins, Some(-1));
    let d = row_to_def(row);
    assert_eq!(d.tools, vec!["a", "b"]);
    assert_eq!(d.memory_window, Some(usize::MAX));
    assert_eq!(d.schedule_mins, Some(u64::MAX));
    assert_eq!(d.policy, ApprovalPolicy::DenyDestructive);
    assert!(!d.builtin);
    assert!(row_to_def(def_row("id", "team", &form("n", &[]))).tools.is_empty());
}

#[test]
fn teams_and_definitions_are_added() {
    let t = add_team("My Team", "9").unwrap_or_else(|e| panic!("{}", e));
    assert_eq!((t.id.as_str(), t.name.as_str(), t.builtin), ("my-team-9", "My Team", false));
    assert_eq!(add_team(" ", "9").err(), Some("team name must not be empty".to_string()));
    let (d, row) = add_def("t", &form("A B", &["x"]), "9").unwrap_or_else(|e| panic!("{}", e));
    assert_eq!((d.id.as_str(), row.id.as_str()), ("a-b-9", "a-b-9"));
    assert_eq!(
        add_def("axon", &form("A", &[]), "9").err(),
        Some("cannot add agents to the built-in team".to_string())
    );
    assert_eq!(
        add_def("t", &form(" ", &[]), "9").err(),
        Some("agent name must not be empty".to_string())
    );
}

#[test]
fn built_ins_are_protected() {
    assert_eq!(rename_team("axon").err(), Some("cannot modify the built-in team".to_string()));
    assert_eq!(delete_team("axon").err(), Some("cannot delete the built-in team".to_string()));
    assert_eq!(
        delete_def("agent-writer").err(),
        Some("cannot delete a built-in agent".to_string())
    );
    assert!(rename_team("x").is_ok() && delete_team("x").is_ok() && delete_def("x").is_ok());
}

#[test]
fn edits_of_definitions() {
    let row = update_def("x", true, &form("n", &["a"])).unwrap_or_else(|e| panic!("{}", e));
    assert_eq!((row.id.as_str(), row.name.as_str(), row.tools.as_str()), ("x", "n", "a"));
    for exists in [false, true] {
        assert_eq!(
            update_def("agent-writer", exists, &form("x", &[])).err(),
            Some("cannot modify a built-in agent".to_string())
        );
    }
    assert_eq!(
        update_def("x", false, &form("n", &[])).err(),
        Some("agent `x` not found".to_string())
    );
}

#[test]
fn definitions_are_resolved() {
    assert!(resolve_def("x", None).is_none());
    assert_eq!(resolve_def("x", Some(def("x", None, None))).map(|d| d.builtin), Some(false));
    assert_eq!(resolve_def("agent-writer", None).map(|d| d.name), Some("Agent Writer".to_string()));
    let mut over = def("agent-writer", None, None);
    over.team_id = "axon".to_string();
    let ts = all_teams(vec![over, def("stray", None, None)], team(vec![def("u", None, None)]));
    assert_eq!(ts.len(), 2);
    assert_eq!(ts[0].agents.len(), 1);
    assert_eq!(ts[0].agents[0].name, "name-agent-writer");
    assert!(ts[0].agents[0].builtin);
    assert_eq!(ts[1].agents[0].id, "u");
}

#[test]
fn tools_of_the_swarm() {
    let args = |title: &str| AddTaskArgs {
        title: title.to_string(),
        description: String::new(),
        tags: String::new(),
        body: String::new(),
    };
    assert!(AddTaskTool {}.check(&args("x")).is_ok());
    assert_eq!(
        AddTaskTool {}.check(&args(" ")).err(),
        Some("title must not be empty".to_string())
    );
    assert_eq!(AddTaskTool {}.answer("i"), "added task `i`");
    let spawn = |task: &str| SpawnAgentArgs { def_id: "d".to_string(), task: task.to_string() };
    match (SpawnAgentTool {}).request(spawn("t")) {
        Ok(cmd) => assert_eq!((cmd.def_id.as_str(), cmd.task.as_str()), ("d", "t")),
        Err(e) => panic!("{}", e),
    }
    assert_eq!(
        (SpawnAgentTool {}).request(spawn("")).err(),
        Some("task must not be empty".to_string())
    );
    assert_eq!((SpawnAgentTool {}).answer("d"), "requested spawn of agent `d`");
    assert_eq!((RunCommandTool {}).answer("a", "", true, Some(0)), Ok("a".to_string()));
    assert_eq!(
        (RunCommandTool {}).answer("", "", false, Some(1)),
        Err("command failed: exit code 1".to_string())
    );
    let q = WebSearchArgs { query: "a b".to_string() };
    assert_eq!((WebSearchTool {}).url(&q), "https://html.duckduckgo.com/html/?q=a+b");
    assert_eq!((WebSearchTool {}).answer(&q, ""), "No results found for: a b");
}

#[test]
fn definitions_can_be_generated() {
    let p = generate_prompt("a linter");
    assert!(p.starts_with("You are an expert at designing AI agent configurations"));
    assert!(p.ends_with("no commentary.\n\nUser request: a linter"));
}
