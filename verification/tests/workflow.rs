use axon::session::Role;
use axon::workflow::executor::{
    confirm_step, llm_log, resolve_content_vars, resolve_path_vars, shell_result, strip_think,
    vars_to_json, Content, Execution, StepAction,
};
use axon::workflow::parser::{parse_workflow_md, WorkflowDef};
use axon::workflow::planner::{
    compile_messages, extract_json, plan_error, print_plan, ExecutionPlan, Step,
};
use axon::workflow::workspace::WorkspaceManager;

#[test]
fn parse_basic_workflow() {
    let raw = "---\nname: my-workflow\ndescription: A test\n---\n\n1. Step one\n2. Step two\n";
    let def = parse_workflow_md(raw).unwrap_or_else(|e| panic!("{}", e));
    assert_eq!(def.name, "my-workflow");
    assert_eq!(def.description.as_deref(), Some("A test"));
    assert!(def.raw_steps.contains("Step one"));
}

#[test]
fn missing_frontmatter_errors() {
    let raw = "# Just a heading\n1. Do something";
    assert!(parse_workflow_md(raw).is_err());
}

#[test]
fn missing_name_errors() {
    let raw = "---\ndescription: No name\n---\n1. Step";
    assert!(parse_workflow_md(raw).is_err());
}

#[test]
fn workflow_errors() {
    let message = |raw: &str| parse_workflow_md(raw).err().unwrap_or_default();
    assert_eq!(message("x"), "workflow file must start with `---` frontmatter");
    assert_eq!(message("---\nname: x"), "workflow file is missing the closing `---`");
    assert_eq!(message("---\nx: y\n---\n"), "workflow frontmatter is missing `name:`");
}

fn shell(id: &str, name: &str, cmd: &str, var: &str) -> Step {
    Step::Shell {
        id: id.to_string(),
        name: name.to_string(),
        cmd: cmd.to_string(),
        output_var: var.to_string(),
    }
}

fn llm(id: &str, name: &str, prompt: &str, var: &str) -> Step {
    Step::Llm {
        id: id.to_string(),
        name: name.to_string(),
        prompt: prompt.to_string(),
        output_var: var.to_string(),
    }
}

#[test]
fn steps_name_their_directories() {
    let s = shell("step-01", "collect", "ls", "files");
    assert_eq!(s.id(), "step-01");
    assert_eq!(s.name(), "collect");
    assert_eq!(s.output_var(), "files");
    assert_eq!(s.dir_name(), "step-01-collect");
    let l = llm("step-02", "sum", "p", "out");
    assert_eq!(l.dir_name(), "step-02-sum");
}

#[test]
fn compile_asks_with_and_without_description() {
    let with = WorkflowDef {
        name: "n".to_string(),
        description: Some("d".to_string()),
        raw_steps: "1. x".to_string(),
    };
    let ms = compile_messages(&with);
    assert_eq!(ms.len(), 2);
    assert_eq!(ms[0].role, Role::System);
    assert_eq!(
        ms[1].content,
        "Compile this workflow to a JSON execution plan.\nDescription: d\n\n1. x"
    );
    let without = WorkflowDef {
        name: "n".to_string(),
        description: None,
        raw_steps: "1. x".to_string(),
    };
    assert_eq!(
        compile_messages(&without)[1].content,
        "Compile this workflow to a JSON execution plan:\n\n1. x"
    );
}

#[test]
fn json_is_taken_out_of_replies() {
    assert_eq!(extract_json("```json\n{\"a\":{}}\n```"), "{\"a\":{}}");
    assert_eq!(extract_json("<think>{x}</think> {\"a\":1}"), "{\"a\":1}");
    assert_eq!(extract_json("say <think>no</think> {\"a\":1} }"), "{\"a\":1} }");
    assert_eq!(extract_json("\n<think>{a}</think>{\"x\":1}"), "{\"x\":1}");
    assert_eq!(extract_json("<think>{a}</think>{<think>}</think>}<think>"), "{}");
    assert_eq!(extract_json("</think>{<think>}"), "{<think>}");
    assert_eq!(extract_json("  nothing  "), "nothing");
    assert_eq!(extract_json("} {"), "} {");
}

#[test]
fn thoughts_are_stripped_only_at_the_start() {
    assert_eq!(strip_think("<think>a</think>  b"), "b");
    assert_eq!(strip_think("x <think>a</think> b"), "x <think>a</think> b");
    assert_eq!(strip_think("<think>a"), "<think>a");
}

#[test]
fn plan_failures_show_the_reply() {
    assert_eq!(
        plan_error("bad", "raw"),
        "failed to parse compiled plan (bad)\nRaw response:\nraw"
    );
}

#[test]
fn plans_are_shown() {
    let plan = ExecutionPlan {
        name: "p".to_string(),
        steps: vec![shell("step-01", "a", "ls", "x"), llm("step-02", "b", "ask", "y")],
    };
    assert_eq!(
        print_plan(&plan),
        "\nCompiled plan: p (2 steps)\n\n   1  [shell]  a\n            $ ls\n            → x\n\n   2  [llm  ]  b\n            ask\n            → y\n\n"
    );
    let one = ExecutionPlan {
        name: "q".to_string(),
        steps: vec![llm("step-01", "c", &"z".repeat(100), "v")],
    };
    let shown = print_plan(&one);
    assert!(shown.starts_with("\nCompiled plan: q (1 step)\n\n"));
    assert!(shown.contains(&format!("            {}…\n", "z".repeat(80))));
}

#[test]
fn variables_in_commands_are_quoted_paths() {
    let vars = vec![
        ("a".to_string(), "/tmp/x y".to_string()),
        ("b".to_string(), "/tmp/it's".to_string()),
    ];
    assert_eq!(
        resolve_path_vars("cat {{a}} {{b}} {{c}}", &vars),
        "cat '/tmp/x y' '/tmp/it'\\''s' {{c}}"
    );
}

#[test]
fn variables_in_prompts_are_contents() {
    let vars = vec![
        Content { name: "a".to_string(), text: Ok("A".to_string()) },
        Content { name: "b".to_string(), text: Err("gone".to_string()) },
    ];
    assert_eq!(resolve_content_vars("x {{a}} y", &vars), Ok("x A y".to_string()));
    assert_eq!(
        resolve_content_vars("x {{b}}", &vars),
        Err("failed to read variable 'b': gone".to_string())
    );
}

#[test]
fn variables_as_json() {
    let vars = vec![("k".to_string(), "/p/\"q\"".to_string())];
    assert_eq!(vars_to_json(&vars), "{\n  \"k\": \"/p/\\\"q\\\"\"\n}");
    assert_eq!(vars_to_json(&Vec::new()), "{}");
}

#[test]
fn workspace_paths() {
    let ws = match WorkspaceManager::new(Some("/home/u"), "flow", 17) {
        Ok(ws) => ws,
        Err(e) => panic!("{}", e),
    };
    assert_eq!(ws.root(), "/home/u/.axon/workflows/flow/17");
    assert_eq!(ws.plan_path(), "/home/u/.axon/workflows/flow/17/plan.json");
    assert_eq!(ws.step_dir("s"), "/home/u/.axon/workflows/flow/17/s");
    assert_eq!(ws.output_path("s"), "/home/u/.axon/workflows/flow/17/s/output.txt");
    assert_eq!(
        ws.file_path("s", "log.txt"),
        "/home/u/.axon/workflows/flow/17/s/log.txt"
    );
    let files = vec![ws.output_path("s")];
    assert!(ws.output_exists("s", &files));
    assert!(!ws.output_exists("t", &files));
    assert!(WorkspaceManager::new(None, "flow", 1).is_err());
}

#[test]
fn plans_run_step_by_step() {
    let plan = ExecutionPlan {
        name: "p".to_string(),
        steps: vec![
            shell("step-01", "a", "ls", "x"),
            shell("step-02", "b", "wc {{x}}", "y"),
            llm("step-03", "c", "sum {{y}}", "x"),
        ],
    };
    let ws = match WorkspaceManager::new(Some("/h"), "p", 1) {
        Ok(ws) => ws,
        Err(e) => panic!("{}", e),
    };
    let mut run = Execution::new();
    assert_eq!(run.next_dir(&plan), Some("step-01-a".to_string()));
    match run.next(&plan, &ws, true) {
        StepAction::Cached { name } => assert_eq!(name, "a"),
        _ => panic!("the first step is cached"),
    }
    match run.next(&plan, &ws, false) {
        StepAction::Shell { dir, name, cmd } => {
            assert_eq!(dir, "step-02-b");
            assert_eq!(name, "b");
            assert_eq!(cmd, "wc '/h/.axon/workflows/p/1/step-01-a/output.txt'");
        }
        _ => panic!("the second step is a command"),
    }
    run.completed(&plan, &ws);
    match run.next(&plan, &ws, false) {
        StepAction::Llm { dir, prompt } => {
            assert_eq!(dir, "step-03-c");
            assert_eq!(prompt, "sum {{y}}");
        }
        _ => panic!("the third step is a prompt"),
    }
    run.completed(&plan, &ws);
    // The third step writes the variable of the first anew.
    assert_eq!(run.vars().len(), 2);
    assert_eq!(run.vars()[0].1, "/h/.axon/workflows/p/1/step-03-c/output.txt");
    assert!(matches!(run.next(&plan, &ws, false), StepAction::Finished));
    assert_eq!(run.next_dir(&plan), None);
}

#[test]
fn commands_are_confirmed_and_reported() {
    assert_eq!(confirm_step("a", " YES \n"), Ok(()));
    assert_eq!(confirm_step("a", "y"), Ok(()));
    assert_eq!(
        confirm_step("a", "no"),
        Err("step 'a' not confirmed — aborting".to_string())
    );
    let (log, out) = shell_result("a", "out\n".to_string(), "warn\n", true, Some(0));
    assert_eq!(log, "exit: 0\nstderr:\nwarn");
    assert_eq!(out, Ok("out\n".to_string()));
    let (log, out) = shell_result("a", String::new(), "bad\n\n", false, None);
    assert_eq!(log, "exit: -1\nstderr:\nbad");
    assert_eq!(out, Err("step 'a' failed (exit -1)\nstderr: bad".to_string()));
    assert_eq!(llm_log("abcdefgh"), "~2 tokens");
}

#[test]
fn repeated_fences_belong_to_the_front_matter() {
    let steps = |raw: &str| parse_workflow_md(raw).map(|d| d.raw_steps);
    assert_eq!(steps("---\nname: s\n---\n---\nBody"), Ok("Body".to_string()));
    assert_eq!(steps("---\nname: s\n---\n\n---\nBody"), Ok("---\nBody".to_string()));
}
