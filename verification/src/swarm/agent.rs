//! Agents of the swarm: what they may do.

use crate::text;
use vstd::prelude::*;

verus! {

/// What an agent may do without being asked.
#[derive(Clone, Copy, Debug, PartialEq, Eq, Structural)]
pub enum ApprovalPolicy {
    AutoApprove,
    /// Refuse tools that change something; allow those that only read.
    DenyDestructive,
}

impl Default for ApprovalPolicy {
    fn default() -> (r: Self)
        ensures
            r == ApprovalPolicy::AutoApprove,
    {
        ApprovalPolicy::AutoApprove
    }
}

/// The job an agent performs.
#[derive(Clone, Copy, Debug, PartialEq, Eq, Structural)]
pub enum Role {
    /// A coding agent with the full toolset, governed by its policy.
    Coder,
}

pub const AGENT_WRITER_PROMPT: &'static str = "You are the Agent Writer. Given a description, output ONLY an agent definition with YAML frontmatter + markdown body. No commentary, no questions.

Available tools: write_file, read_file, list_dir, search_file, delete_file, run_command, web_search, add_task.

Format:
---
name: <name>
model:  # leave empty to use default
tools:
  - write_file
  - add_task
  # - run_command
  # - web_search
policy: auto_approve  # or deny_destructive
memory_window: 20
max_turns: 10
schedule_mins: 15  # runs every 15 min
task:  # optional, recurring task
task_hint:  # optional
---

# Agent instructions

<what this agent does>

When done, call add_task(title=<name>, body=<markdown>) to submit your work for human review (body must be markdown).

Generate the definition, then call add_task(title=<name>, body=<full definition>) to submit it for review. Output only the definition body — no preamble.";

pub const CODER_PROMPT: &'static str = "You are axon, a local AI coding agent using the ReAct (Reasoning + Acting) pattern. Solve software tasks by alternating Thought, Action (tool call), and Observation until done. Tools: read_file, write_file, list_dir, search_file, delete_file (filesystem); run_command (shell, via sh -c); web_search. Be concise; make incremental changes; use exact paths; never delete or overwrite without clear intent. When done, summarize what you did.";

pub const RESEARCH_AGENT_PROMPT: &'static str = "You are a research agent using the ReAct pattern. Investigate the user's question thoroughly: use web_search for external information and read_file/list_dir/search_file to study the local codebase. Cross-check sources, be concise, and finish with a clear, well-organized summary of your findings (with sources where relevant). Do not modify any files.";

pub const REVIEWER_PROMPT: &'static str = "You are a code-review agent using the ReAct pattern. Read the relevant code with read_file/list_dir/search_file and review it for correctness bugs, security risks, and concrete improvements. Cite findings as `file:line` and explain the impact and a suggested fix for each. Be specific and prioritize high-confidence issues. You are read-only — do NOT edit, write, or run anything.";

/// A tool that changes something.
pub open spec fn destructive(tool: Seq<char>) -> bool {
    ||| tool == "run_command"@
    ||| tool == "write_file"@
    ||| tool == "delete_file"@
    ||| tool == "move_file"@
    ||| tool == "copy_file"@
    ||| tool == "create_dir"@
}

/// Whether a tool changes something.
pub fn is_destructive(tool_name: &str) -> (r: bool)
    ensures
        r == destructive(tool_name@),
{
    text::same(tool_name, "run_command") || text::same(tool_name, "write_file") || text::same(
        tool_name,
        "delete_file",
    ) || text::same(tool_name, "move_file") || text::same(tool_name, "copy_file") || text::same(
        tool_name,
        "create_dir",
    )
}

/// A tool that only reads files; every agent has these.
pub open spec fn readonly(tool: Seq<char>) -> bool {
    tool == "read_file"@ || tool == "list_dir"@ || tool == "search_file"@
}

fn is_readonly(tool: &str) -> (r: bool)
    ensures
        r == readonly(tool@),
{
    text::same(tool, "read_file") || text::same(tool, "list_dir") || text::same(
        tool,
        "search_file",
    )
}

/// The tools of a coding agent, in order.
pub open spec fn coder_tools() -> Seq<Seq<char>> {
    seq![
        "read_file"@,
        "write_file"@,
        "list_dir"@,
        "search_file"@,
        "delete_file"@,
        "run_command"@,
        "web_search"@,
        "add_task"@,
    ]
}

/// The tools of a coding agent, in order.
pub fn all_coder_tools() -> (r: Vec<String>)
    ensures
        text::views(r@) == coder_tools(),
{
    let mut r: Vec<String> = Vec::new();
    r.push("read_file".to_string());
    r.push("write_file".to_string());
    r.push("list_dir".to_string());
    r.push("search_file".to_string());
    r.push("delete_file".to_string());
    r.push("run_command".to_string());
    r.push("web_search".to_string());
    r.push("add_task".to_string());
    assert(text::views(r@) =~= coder_tools());
    r
}

/// Whether a step of an agent goes on.
#[derive(Clone, Copy, Debug, PartialEq, Eq, Structural)]
pub enum HookOutcome {
    Continue,
    Abort,
}

/// What a policy says of a tool.
pub open spec fn gate(policy: ApprovalPolicy, tool: Seq<char>) -> HookOutcome {
    if policy == ApprovalPolicy::DenyDestructive && destructive(tool) {
        HookOutcome::Abort
    } else {
        HookOutcome::Continue
    }
}

/// What controls a running agent.
pub struct AgentControl {
    cancelled: bool,
    policy: ApprovalPolicy,
}

/// What an [`AgentControl`] holds.
#[verifier::ext_equal]
pub struct AgentControlView {
    pub cancelled: bool,
    pub policy: ApprovalPolicy,
}

impl View for AgentControl {
    type V = AgentControlView;

    closed spec fn view(&self) -> AgentControlView {
        AgentControlView { cancelled: self.cancelled, policy: self.policy }
    }
}

/// A control once its agent was told to stop.
pub open spec fn told_to_stop(c: AgentControlView) -> AgentControlView {
    AgentControlView { cancelled: true, ..c }
}

/// A use of a control.
pub enum ControlUse {
    /// Its agent is told to stop.
    Cancel,
    /// It is asked something, or copied.
    Ask,
}

/// A control after some uses in order.
pub open spec fn after_uses(c: AgentControlView, uses: Seq<ControlUse>) -> AgentControlView
    decreases uses.len(),
{
    if uses.len() == 0 {
        c
    } else {
        let before = after_uses(c, uses.drop_last());
        match uses.last() {
            ControlUse::Cancel => told_to_stop(before),
            ControlUse::Ask => before,
        }
    }
}

impl AgentControl {
    pub fn new(policy: ApprovalPolicy) -> (r: Self)
        ensures
            r@ == (AgentControlView { cancelled: false, policy }),
    {
        AgentControl { cancelled: false, policy }
    }

    pub fn cancel(&mut self)
        ensures
            final(self)@ == told_to_stop(old(self)@),
    {
        self.cancelled = true;
    }

    pub fn is_cancelled(&self) -> (r: bool)
        ensures
            r == self@.cancelled,
    {
        self.cancelled
    }

    pub fn policy(&self) -> (r: ApprovalPolicy)
        ensures
            r == self@.policy,
    {
        self.policy
    }

    /// What the policy says of a tool.
    pub fn gate_tool(&self, tool_name: &str) -> (r: HookOutcome)
        ensures
            r == gate(self@.policy, tool_name@),
    {
        match self.policy {
            ApprovalPolicy::AutoApprove => HookOutcome::Continue,
            ApprovalPolicy::DenyDestructive => if is_destructive(tool_name) {
                HookOutcome::Abort
            } else {
                HookOutcome::Continue
            },
        }
    }

    /// A cancelled agent starts no task.
    pub fn on_run_start(&self) -> (r: HookOutcome)
        ensures
            r == if self@.cancelled {
                HookOutcome::Abort
            } else {
                HookOutcome::Continue
            },
    {
        if self.cancelled {
            HookOutcome::Abort
        } else {
            HookOutcome::Continue
        }
    }

    /// A cancelled agent calls no tool; any other asks its policy.
    pub fn on_tool_call(&self, tool_name: &str) -> (r: HookOutcome)
        ensures
            r == if self@.cancelled {
                HookOutcome::Abort
            } else {
                gate(self@.policy, tool_name@)
            },
    {
        if self.cancelled {
            return HookOutcome::Abort;
        }
        self.gate_tool(tool_name)
    }
}

impl Clone for AgentControl {
    fn clone(&self) -> (r: Self)
        ensures
            r@ == self@,
    {
        AgentControl { cancelled: self.cancelled, policy: self.policy }
    }
}

/// An agent: its unique name, its prompt and what it may use.
pub struct CodingAgent {
    pub name: String,
    pub role: Role,
    pub prompt: String,
    /// The tools that it is restricted to; those that only read are always kept. All
    /// tools where there is no restriction.
    pub allowed_tools: Option<Vec<String>>,
    /// Whether it can spawn other agents.
    pub can_spawn: bool,
    /// The names of the tools of MCP servers.
    pub mcp_tools: Vec<String>,
}

/// The tools that there are for an agent, before any restriction.
pub open spec fn offered(can_spawn: bool, mcp: Seq<Seq<char>>) -> Seq<Seq<char>> {
    coder_tools() + (if can_spawn {
        seq!["spawn_agent"@]
    } else {
        Seq::empty()
    }) + mcp
}

/// The tools that are kept under a restriction.
pub open spec fn restricted(tools: Seq<Seq<char>>, allowed: Seq<Seq<char>>) -> Seq<Seq<char>> {
    tools.filter(|t: Seq<char>| readonly(t) || allowed.contains(t))
}

/// The tools that an agent has.
pub open spec fn granted(
    allowed: Option<Seq<Seq<char>>>,
    can_spawn: bool,
    mcp: Seq<Seq<char>>,
) -> Seq<Seq<char>> {
    match allowed {
        Some(a) => restricted(offered(can_spawn, mcp), a),
        None => offered(can_spawn, mcp),
    }
}

pub open spec fn list_view(v: Option<Vec<String>>) -> Option<Seq<Seq<char>>> {
    match v {
        Some(l) => Some(text::views(l@)),
        None => None,
    }
}

impl CodingAgent {
    /// An agent with the default prompt and all tools.
    pub fn with_role(name: &str, role: Role, mcp_tools: Vec<String>) -> (r: Self)
        ensures
            r.name@ == name@,
            r.role == role,
            r.prompt@ == CODER_PROMPT@,
            r.allowed_tools is None,
            !r.can_spawn,
            r.mcp_tools == mcp_tools,
    {
        CodingAgent {
            name: name.to_string(),
            role,
            prompt: CODER_PROMPT.to_string(),
            allowed_tools: None,
            can_spawn: false,
            mcp_tools,
        }
    }

    /// A configured agent: its own prompt, and perhaps a restricted toolset.
    pub fn coder(
        name: &str,
        prompt: String,
        allowed_tools: Option<Vec<String>>,
        can_spawn: bool,
        mcp_tools: Vec<String>,
    ) -> (r: Self)
        ensures
            r.name@ == name@,
            r.role == Role::Coder,
            r.prompt == prompt,
            r.allowed_tools == allowed_tools,
            r.can_spawn == can_spawn,
            r.mcp_tools == mcp_tools,
    {
        CodingAgent {
            name: name.to_string(),
            role: Role::Coder,
            prompt,
            allowed_tools,
            can_spawn,
            mcp_tools,
        }
    }

    /// The names of the tools that the agent has, in order.
    pub fn tools(&self) -> (r: Vec<String>)
        ensures
            text::views(r@) == granted(
                list_view(self.allowed_tools),
                self.can_spawn,
                text::views(self.mcp_tools@),
            ),
    {
        let mut all = all_coder_tools();
        if self.can_spawn {
            let ghost before = text::views(all@);
            all.push("spawn_agent".to_string());
            assert(text::views(all@) =~= before + seq!["spawn_agent"@]);
        } else {
            assert(text::views(all@) =~= text::views(all@) + Seq::<Seq<char>>::empty());
        }
        text::extend(&mut all, &self.mcp_tools);
        match &self.allowed_tools {
            None => all,
            Some(allowed) => {
                let mut kept: Vec<String> = Vec::new();
                let ghost names = text::views(all@);
                let ghost keep = |t: Seq<char>| readonly(t) || text::views(allowed@).contains(t);
                let mut i: usize = 0;
                proof {
                    assert(names.take(0) =~= Seq::<Seq<char>>::empty());
                    reveal_with_fuel(Seq::filter, 1);
                    assert(text::views(kept@) =~= names.take(0).filter(keep));
                }
                while i < all.len()
                    invariant
                        i <= all.len(),
                        names == text::views(all@),
                        keep == (|t: Seq<char>| readonly(t) || text::views(allowed@).contains(t)),
                        text::views(kept@) == names.take(i as int).filter(keep),
                    decreases all.len() - i,
                {
                    let ghost before = text::views(kept@);
                    proof {
                        assert(names.take(i + 1).drop_last() =~= names.take(i as int));
                        assert(names.take(i + 1).last() == all[i as int]@);
                        reveal_with_fuel(Seq::filter, 2);
                    }
                    let t = &all[i];
                    if is_readonly(t.as_str()) || text::list_contains(allowed, t.as_str()) {
                        kept.push(t.clone());
                        assert(text::views(kept@) =~= before.push(t@));
                    }
                    i += 1;
                }
                assert(names.take(i as int) =~= names);
                kept
            },
        }
    }
}

/// A new control is not cancelled before it is told to and is ever after, whatever it is
/// asked; and what its policy says of a tool never changes.
pub proof fn law_cancelled_for_good(policy: ApprovalPolicy, uses: Seq<ControlUse>, tool: Seq<char>)
    ensures
        ({
            let c = after_uses(AgentControlView { cancelled: false, policy }, uses);
            &&& c.cancelled <==> uses.contains(ControlUse::Cancel)
            &&& gate(c.policy, tool) == gate(policy, tool)
            &&& c.policy == policy
        }),
    decreases uses.len(),
{
    if uses.len() > 0 {
        let before = uses.drop_last();
        law_cancelled_for_good(policy, before, tool);
        if before.contains(ControlUse::Cancel) {
            let i = choose|i: int| 0 <= i < before.len() && before[i] == ControlUse::Cancel;
            assert(uses[i] == ControlUse::Cancel);
        }
        if uses.contains(ControlUse::Cancel) && uses.last() != ControlUse::Cancel {
            let i = choose|i: int| 0 <= i < uses.len() && uses[i] == ControlUse::Cancel;
            assert(before[i] == ControlUse::Cancel);
        }
    }
}

/// An agent that approves by itself is never stopped at a tool; one that denies
/// destructive tools is stopped at exactly those.
pub proof fn law_gate(tool: Seq<char>)
    ensures
        gate(ApprovalPolicy::AutoApprove, tool) == HookOutcome::Continue,
        gate(ApprovalPolicy::DenyDestructive, tool) == HookOutcome::Abort <==> destructive(tool),
        readonly(tool) ==> gate(ApprovalPolicy::DenyDestructive, tool) == HookOutcome::Continue,
{
    reveal_strlit("read_file");
    reveal_strlit("list_dir");
    reveal_strlit("search_file");
    reveal_strlit("run_command");
    reveal_strlit("write_file");
    reveal_strlit("delete_file");
    reveal_strlit("move_file");
    reveal_strlit("copy_file");
    reveal_strlit("create_dir");
    assert("read_file"@[0] == 'r' && "list_dir"@[0] == 'l' && "search_file"@[0] == 's');
    assert("run_command"@.len() == 11 && "read_file"@.len() == 9);
    assert("write_file"@[0] == 'w' && "delete_file"@[0] == 'd' && "move_file"@[0] == 'm');
    assert("copy_file"@[0] == 'c' && "create_dir"@[0] == 'c');
}

/// Whatever an agent is restricted to, it can read files; and it has no tool that was
/// not offered or, restricted, that is neither allowed nor read-only.
pub proof fn law_granted_tools(
    allowed: Seq<Seq<char>>,
    can_spawn: bool,
    mcp: Seq<Seq<char>>,
    tool: Seq<char>,
)
    ensures
        granted(Some(allowed), can_spawn, mcp).contains(tool) <==> offered(
            can_spawn,
            mcp,
        ).contains(tool) && (readonly(tool) || allowed.contains(tool)),
        readonly(tool) ==> granted(Some(allowed), can_spawn, mcp).contains(tool),
        readonly(tool) ==> granted(None, can_spawn, mcp).contains(tool),
{
    broadcast use vstd::seq_lib::group_seq_properties;

    let all = offered(can_spawn, mcp);
    let keep = |t: Seq<char>| readonly(t) || allowed.contains(t);
    lemma_filter_contains(all, keep, tool);
    assert(all[0] == "read_file"@);
    assert(all[2] == "list_dir"@);
    assert(all[3] == "search_file"@);
}

proof fn lemma_filter_contains(s: Seq<Seq<char>>, keep: spec_fn(Seq<char>) -> bool, x: Seq<char>)
    ensures
        s.filter(keep).contains(x) <==> s.contains(x) && keep(x),
    decreases s.len(),
{
    reveal_with_fuel(Seq::filter, 2);
    if s.len() > 0 {
        let rest = s.drop_last();
        lemma_filter_contains(rest, keep, x);
        let f = rest.filter(keep);
        if s.contains(x) {
            let i = choose|i: int| 0 <= i < s.len() && s[i] == x;
            if i < rest.len() {
                assert(rest[i] == x);
            }
        }
        if rest.contains(x) {
            let i = choose|i: int| 0 <= i < rest.len() && rest[i] == x;
            assert(s[i] == x);
        }
        if keep(s.last()) {
            let g = f.push(s.last());
            assert(s.filter(keep) == g);
            assert(g[f.len() as int] == s.last());
            if f.contains(x) {
                let i = choose|i: int| 0 <= i < f.len() && f[i] == x;
                assert(g[i] == x);
            }
            if g.contains(x) {
                let i = choose|i: int| 0 <= i < g.len() && g[i] == x;
                if i < f.len() {
                    assert(f[i] == x);
                }
            }
        }
        assert(s[s.len() - 1] == s.last());
    }
}

/// Every tool that there is for an agent is offered: those for code, the one to spawn agents
/// exactly where it may, and all tools of the servers, in order.
pub proof fn law_offered_tools(can_spawn: bool, mcp: Seq<Seq<char>>, i: int)
    ensures
        ({
            let with = offered(true, mcp);
            let alone = offered(false, mcp);
            &&& with.len() == alone.len() + 1 && alone.len() == 8 + mcp.len()
            &&& with[8] == "spawn_agent"@
            &&& 0 <= i < mcp.len() ==> with[9 + i] == mcp[i] && alone[8 + i] == mcp[i]
        }),
        granted(None, can_spawn, mcp) == offered(can_spawn, mcp),
        offered(can_spawn, mcp).contains("read_file"@),
        offered(can_spawn, mcp).contains("write_file"@),
        offered(can_spawn, mcp).contains("list_dir"@),
        offered(can_spawn, mcp).contains("search_file"@),
        offered(can_spawn, mcp).contains("delete_file"@),
        offered(can_spawn, mcp).contains("run_command"@),
        offered(can_spawn, mcp).contains("web_search"@),
        offered(can_spawn, mcp).contains("add_task"@),
{
    let all = offered(can_spawn, mcp);
    assert(all[0] == "read_file"@ && all[1] == "write_file"@ && all[2] == "list_dir"@);
    assert(all[3] == "search_file"@ && all[4] == "delete_file"@ && all[5] == "run_command"@);
    assert(all[6] == "web_search"@ && all[7] == "add_task"@);
}

} // verus!
