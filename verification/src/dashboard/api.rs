//! The records that the dashboard exchanges with the server.

use crate::text;
use vstd::prelude::*;

verus! {

/// A running agent as the server reports it.
pub struct AgentInfo {
    pub id: String,
    pub task: String,
    pub model: String,
    pub policy: String,
    pub status: String,
    pub role: String,
    pub perpetual: bool,
    pub def_name: Option<String>,
    pub last_seen_stage: String,
    pub current_stage: String,
    pub started: String,
    pub cycle_started: String,
    pub cycle_completed: String,
}

/// What an [`AgentInfo`] says.
#[verifier::ext_equal]
pub struct AgentInfoView {
    pub id: Seq<char>,
    pub task: Seq<char>,
    pub model: Seq<char>,
    pub policy: Seq<char>,
    pub status: Seq<char>,
    pub role: Seq<char>,
    pub perpetual: bool,
    pub def_name: Option<Seq<char>>,
    pub last_seen_stage: Seq<char>,
    pub current_stage: Seq<char>,
    pub started: Seq<char>,
    pub cycle_started: Seq<char>,
    pub cycle_completed: Seq<char>,
}

impl View for AgentInfo {
    type V = AgentInfoView;

    open spec fn view(&self) -> AgentInfoView {
        AgentInfoView {
            id: self.id@,
            task: self.task@,
            model: self.model@,
            policy: self.policy@,
            status: self.status@,
            role: self.role@,
            perpetual: self.perpetual,
            def_name: text::option_view(self.def_name),
            last_seen_stage: self.last_seen_stage@,
            current_stage: self.current_stage@,
            started: self.started@,
            cycle_started: self.cycle_started@,
            cycle_completed: self.cycle_completed@,
        }
    }
}

impl Clone for AgentInfo {
    fn clone(&self) -> (r: Self)
        ensures
            r@ == self@,
    {
        AgentInfo {
            id: self.id.clone(),
            task: self.task.clone(),
            model: self.model.clone(),
            policy: self.policy.clone(),
            status: self.status.clone(),
            role: self.role.clone(),
            perpetual: self.perpetual,
            def_name: text::copy_option(&self.def_name),
            last_seen_stage: self.last_seen_stage.clone(),
            current_stage: self.current_stage.clone(),
            started: self.started.clone(),
            cycle_started: self.cycle_started.clone(),
            cycle_completed: self.cycle_completed.clone(),
        }
    }
}

pub open spec fn agent_views(v: Seq<AgentInfo>) -> Seq<AgentInfoView> {
    v.map_values(|a: AgentInfo| a@)
}

/// A named group of agent definitions.
pub struct Team {
    pub id: String,
    pub name: String,
    pub builtin: bool,
}

/// What a [`Team`] says.
#[verifier::ext_equal]
pub struct TeamView {
    pub id: Seq<char>,
    pub name: Seq<char>,
    pub builtin: bool,
}

impl View for Team {
    type V = TeamView;

    open spec fn view(&self) -> TeamView {
        TeamView { id: self.id@, name: self.name@, builtin: self.builtin }
    }
}

/// A saved agent configuration.
pub struct AgentDef {
    pub id: String,
    pub team_id: String,
    pub name: String,
    pub model: Option<String>,
    pub instructions: String,
    pub tools: Vec<String>,
    pub policy: String,
    pub memory_window: Option<usize>,
    pub max_turns: Option<usize>,
    pub schedule_mins: Option<u64>,
    pub task: Option<String>,
    pub task_hint: Option<String>,
    pub builtin: bool,
}

/// What an [`AgentDef`] says.
#[verifier::ext_equal]
pub struct AgentDefView {
    pub id: Seq<char>,
    pub team_id: Seq<char>,
    pub name: Seq<char>,
    pub model: Option<Seq<char>>,
    pub instructions: Seq<char>,
    pub tools: Seq<Seq<char>>,
    pub policy: Seq<char>,
    pub memory_window: Option<usize>,
    pub max_turns: Option<usize>,
    pub schedule_mins: Option<u64>,
    pub task: Option<Seq<char>>,
    pub task_hint: Option<Seq<char>>,
    pub builtin: bool,
}

impl View for AgentDef {
    type V = AgentDefView;

    open spec fn view(&self) -> AgentDefView {
        AgentDefView {
            id: self.id@,
            team_id: self.team_id@,
            name: self.name@,
            model: text::option_view(self.model),
            instructions: self.instructions@,
            tools: text::views(self.tools@),
            policy: self.policy@,
            memory_window: self.memory_window,
            max_turns: self.max_turns,
            schedule_mins: self.schedule_mins,
            task: text::option_view(self.task),
            task_hint: text::option_view(self.task_hint),
            builtin: self.builtin,
        }
    }
}

impl Clone for AgentDef {
    fn clone(&self) -> (r: Self)
        ensures
            r@ == self@,
    {
        AgentDef {
            id: self.id.clone(),
            team_id: self.team_id.clone(),
            name: self.name.clone(),
            model: text::copy_option(&self.model),
            instructions: self.instructions.clone(),
            tools: text::copy_strings(&self.tools),
            policy: self.policy.clone(),
            memory_window: self.memory_window,
            max_turns: self.max_turns,
            schedule_mins: self.schedule_mins,
            task: text::copy_option(&self.task),
            task_hint: text::copy_option(&self.task_hint),
            builtin: self.builtin,
        }
    }
}

/// A team with its agent definitions.
pub struct TeamWithAgents {
    pub team: Team,
    pub agents: Vec<AgentDef>,
}

pub open spec fn def_views(v: Seq<AgentDef>) -> Seq<AgentDefView> {
    v.map_values(|d: AgentDef| d@)
}

/// What a [`TeamWithAgents`] says.
#[verifier::ext_equal]
pub struct TeamWithAgentsView {
    pub team: TeamView,
    pub agents: Seq<AgentDefView>,
}

impl View for TeamWithAgents {
    type V = TeamWithAgentsView;

    open spec fn view(&self) -> TeamWithAgentsView {
        TeamWithAgentsView { team: self.team@, agents: def_views(self.agents@) }
    }
}

pub open spec fn team_views(v: Seq<TeamWithAgents>) -> Seq<TeamWithAgentsView> {
    v.map_values(|t: TeamWithAgents| t@)
}

/// All definitions of the teams in their order.
pub open spec fn defs_of(ts: Seq<TeamWithAgentsView>) -> Seq<AgentDefView>
    decreases ts.len(),
{
    if ts.len() == 0 {
        Seq::empty()
    } else {
        defs_of(ts.drop_last()) + ts.last().agents
    }
}

/// All definitions of the teams in their order.
pub fn all_defs(teams: &Vec<TeamWithAgents>) -> (r: Vec<AgentDef>)
    ensures
        def_views(r@) == defs_of(team_views(teams@)),
{
    let mut out: Vec<AgentDef> = Vec::new();
    let ghost ts = team_views(teams@);
    let mut i: usize = 0;
    assert(ts.take(0) =~= Seq::<TeamWithAgentsView>::empty());
    assert(def_views(out@) =~= Seq::<AgentDefView>::empty());
    while i < teams.len()
        invariant
            i <= teams.len(),
            ts == team_views(teams@),
            def_views(out@) == defs_of(ts.take(i as int)),
        decreases teams.len() - i,
    {
        let agents = &teams[i].agents;
        let ghost head = def_views(out@);
        let ghost here = def_views(agents@);
        proof {
            assert(ts.take(i + 1).drop_last() =~= ts.take(i as int));
            assert(ts.take(i + 1).last() == teams[i as int]@);
            assert(head + here.take(0) =~= head);
        }
        let mut j: usize = 0;
        while j < agents.len()
            invariant
                j <= agents.len(),
                here == def_views(agents@),
                def_views(out@) == head + here.take(j as int),
            decreases agents.len() - j,
        {
            let ghost before = def_views(out@);
            let d = agents[j].clone();
            let ghost v = d@;
            out.push(d);
            assert(def_views(out@) =~= before.push(v));
            j += 1;
            assert(def_views(out@) =~= head + here.take(j as int));
        }
        assert(here.take(j as int) =~= here);
        i += 1;
    }
    assert(ts.take(i as int) =~= ts);
    out
}

/// An entry of the task queue.
pub struct Task {
    pub id: String,
    pub title: String,
    pub description: String,
    pub body: String,
    pub tags: String,
    pub status: String,
    pub updated: String,
}

/// What a [`Task`] says.
#[verifier::ext_equal]
pub struct TaskView {
    pub id: Seq<char>,
    pub title: Seq<char>,
    pub description: Seq<char>,
    pub body: Seq<char>,
    pub tags: Seq<char>,
    pub status: Seq<char>,
    pub updated: Seq<char>,
}

impl View for Task {
    type V = TaskView;

    open spec fn view(&self) -> TaskView {
        TaskView {
            id: self.id@,
            title: self.title@,
            description: self.description@,
            body: self.body@,
            tags: self.tags@,
            status: self.status@,
            updated: self.updated@,
        }
    }
}

impl Clone for Task {
    fn clone(&self) -> (r: Self)
        ensures
            r@ == self@,
    {
        Task {
            id: self.id.clone(),
            title: self.title.clone(),
            description: self.description.clone(),
            body: self.body.clone(),
            tags: self.tags.clone(),
            status: self.status.clone(),
            updated: self.updated.clone(),
        }
    }
}

pub open spec fn task_views(v: Seq<Task>) -> Seq<TaskView> {
    v.map_values(|t: Task| t@)
}

/// A tool that a connected MCP server offers.
pub struct McpTool {
    pub name: String,
    pub description: String,
    pub server_name: String,
}

/// What an [`McpTool`] says.
#[verifier::ext_equal]
pub struct McpToolView {
    pub name: Seq<char>,
    pub description: Seq<char>,
    pub server_name: Seq<char>,
}

impl View for McpTool {
    type V = McpToolView;

    open spec fn view(&self) -> McpToolView {
        McpToolView {
            name: self.name@,
            description: self.description@,
            server_name: self.server_name@,
        }
    }
}

pub open spec fn tool_views(v: Seq<McpTool>) -> Seq<McpToolView> {
    v.map_values(|t: McpTool| t@)
}

/// The address of the event stream of the server that a page came from.
pub fn ws_url(protocol: Option<&str>, host: &str) -> (r: String)
    ensures
        r@ == (if protocol matches Some(p) && p@ == "https:"@ {
            "wss"@
        } else {
            "ws"@
        }) + "://"@ + host@ + "/ws"@,
{
    let secure = match protocol {
        Some(p) => text::same(p, "https:"),
        None => false,
    };
    let mut out = if secure {
        "wss".to_string()
    } else {
        "ws".to_string()
    };
    out.append("://");
    out.append(host);
    out.append("/ws");
    out
}

/// The policy of a definition that names none.
pub fn default_policy() -> (r: String)
    ensures
        r@ == "auto_approve"@,
{
    "auto_approve".to_string()
}

/// Every definition of every team is there once, in order.
pub proof fn law_all_definitions_are_there(before: Seq<TeamWithAgentsView>, t: TeamWithAgentsView)
    ensures
        defs_of(Seq::empty()).len() == 0,
        defs_of(before.push(t)) == defs_of(before) + t.agents,
{
    assert(before.push(t).drop_last() =~= before);
}

} // verus!
