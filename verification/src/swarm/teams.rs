//! Teams and reusable agent definitions.
//!
//! A definition is a saved agent configuration, and a team groups them. The built-in
//! team is part of the program and read-only, except that the fields of its agents can be
//! overridden.

use crate::swarm::agent;
use crate::swarm::agent::{ApprovalPolicy, AGENT_WRITER_PROMPT};
use crate::swarm::store;
use crate::text;
use crate::text_facts;
use vstd::prelude::*;

verus! {

/// A named group of agent definitions.
pub struct Team {
    pub id: String,
    pub name: String,
    pub builtin: bool,
}

/// What a [`Team`] says.
#[verifier::ext_equal]
pub struct TeamView {
    pub id: Seq<char>,
    pub name: Seq<char>,
    pub builtin: bool,
}

impl View for Team {
    type V = TeamView;

    open spec fn view(&self) -> TeamView {
        TeamView { id: self.id@, name: self.name@, builtin: self.builtin }
    }
}

/// A saved agent configuration.
pub struct AgentDef {
    pub id: String,
    pub team_id: String,
    pub name: String,
    pub model: Option<String>,
    pub instructions: String,
    pub tools: Vec<String>,
    pub policy: ApprovalPolicy,
    pub memory_window: Option<usize>,
    pub max_turns: Option<usize>,
    /// The agent runs every so many minutes.
    pub schedule_mins: Option<u64>,
    /// The task of a scheduled agent in each cycle.
    pub task: Option<String>,
    /// The hint shown where a task is asked for.
    pub task_hint: Option<String>,
    pub builtin: bool,
}

/// What an [`AgentDef`] says.
#[verifier::ext_equal]
pub struct AgentDefView {
    pub id: Seq<char>,
    pub team_id: Seq<char>,
    pub name: Seq<char>,
    pub model: Option<Seq<char>>,
    pub instructions: Seq<char>,
    pub tools: Seq<Seq<char>>,
    pub policy: ApprovalPolicy,
    pub memory_window: Option<usize>,
    pub max_turns: Option<usize>,
    pub schedule_mins: Option<u64>,
    pub task: Option<Seq<char>>,
    pub task_hint: Option<Seq<char>>,
    pub builtin: bool,
}

impl View for AgentDef {
    type V = AgentDefView;

    open spec fn view(&self) -> AgentDefView {
        AgentDefView {
            id: self.id@,
            team_id: self.team_id@,
            name: self.name@,
            model: text::option_view(self.model),
            instructions: self.instructions@,
            tools: text::views(self.tools@),
            policy: self.policy,
            memory_window: self.memory_window,
            max_turns: self.max_turns,
            schedule_mins: self.schedule_mins,
            task: text::option_view(self.task),
            task_hint: text::option_view(self.task_hint),
            builtin: self.builtin,
        }
    }
}

impl Clone for AgentDef {
    fn clone(&self) -> (r: Self)
        ensures
            r@ == self@,
    {
        AgentDef {
            id: self.id.clone(),
            team_id: self.team_id.clone(),
            name: self.name.clone(),
            model: text::copy_option(&self.model),
            instructions: self.instructions.clone(),
            tools: text::copy_strings(&self.tools),
            policy: self.policy,
            memory_window: self.memory_window,
            max_turns: self.max_turns,
            schedule_mins: self.schedule_mins,
            task: text::copy_option(&self.task),
            task_hint: text::copy_option(&self.task_hint),
            builtin: self.builtin,
        }
    }
}

pub open spec fn def_views(v: Seq<AgentDef>) -> Seq<AgentDefView> {
    v.map_values(|d: AgentDef| d@)
}

/// A team with its agent definitions.
pub struct TeamWithAgents {
    pub team: Team,
    pub agents: Vec<AgentDef>,
}

/// What a [`TeamWithAgents`] says.
#[verifier::ext_equal]
pub struct TeamWithAgentsView {
    pub team: TeamView,
    pub agents: Seq<AgentDefView>,
}

impl View for TeamWithAgents {
    type V = TeamWithAgentsView;

    open spec fn view(&self) -> TeamWithAgentsView {
        TeamWithAgentsView { team: self.team@, agents: def_views(self.agents@) }
    }
}

pub open spec fn team_views(v: Seq<TeamWithAgents>) -> Seq<TeamWithAgentsView> {
    v.map_values(|t: TeamWithAgents| t@)
}

/// The fields of a definition that can be edited.
pub struct DefForm {
    pub name: String,
    pub model: Option<String>,
    pub instructions: String,
    pub tools: Vec<String>,
    pub policy: ApprovalPolicy,
    pub memory_window: Option<usize>,
    pub max_turns: Option<usize>,
    pub schedule_mins: Option<u64>,
    pub task: Option<String>,
    pub task_hint: Option<String>,
}

/// What a [`DefForm`] says.
#[verifier::ext_equal]
pub struct DefFormView {
    pub name: Seq<char>,
    pub model: Option<Seq<char>>,
    pub instructions: Seq<char>,
    pub tools: Seq<Seq<char>>,
    pub policy: ApprovalPolicy,
    pub memory_window: Option<usize>,
    pub max_turns: Option<usize>,
    pub schedule_mins: Option<u64>,
    pub task: Option<Seq<char>>,
    pub task_hint: Option<Seq<char>>,
}

impl View for DefForm {
    type V = DefFormView;

    open spec fn view(&self) -> DefFormView {
        DefFormView {
            name: self.name@,
            model: text::option_view(self.model),
            instructions: self.instructions@,
            tools: text::views(self.tools@),
            policy: self.policy,
            memory_window: self.memory_window,
            max_turns: self.max_turns,
            schedule_mins: self.schedule_mins,
            task: text::option_view(self.task),
            task_hint: text::option_view(self.task_hint),
        }
    }
}

/// The definition that a form describes.
pub open spec fn filled_in(id: Seq<char>, team_id: Seq<char>, form: DefFormView) -> AgentDefView {
    AgentDefView {
        id,
        team_id,
        name: form.name,
        model: form.model,
        instructions: form.instructions,
        tools: form.tools,
        policy: form.policy,
        memory_window: form.memory_window,
        max_turns: form.max_turns,
        schedule_mins: form.schedule_mins,
        task: form.task,
        task_hint: form.task_hint,
        builtin: false,
    }
}

/// The id of the built-in team.
pub const BUILTIN_TEAM_ID: &'static str = "axon";

pub open spec fn str_views(list: Seq<&str>) -> Seq<Seq<char>> {
    list.map_values(|s: &str| s@)
}

/// Owned copies of texts.
pub fn owned(list: &[&str]) -> (r: Vec<String>)
    ensures
        text::views(r@) == str_views(list@),
{
    let mut out: Vec<String> = Vec::new();
    let mut i: usize = 0;
    while i < list.len()
        invariant
            i <= list.len(),
            text::views(out@) == str_views(list@).take(i as int),
        decreases list.len() - i,
    {
        let ghost before = text::views(out@);
        out.push(list[i].to_string());
        i += 1;
        assert(text::views(out@) =~= before.push(list@[i - 1]@));
        assert(text::views(out@) =~= str_views(list@).take(i as int));
    }
    assert(text::views(out@) =~= str_views(list@));
    out
}

/// The built-in agent that writes agent definitions.
pub open spec fn agent_writer() -> AgentDefView {
    AgentDefView {
        id: "agent-writer"@,
        team_id: "axon"@,
        name: "Agent Writer"@,
        model: None,
        instructions: AGENT_WRITER_PROMPT@,
        tools: agent::coder_tools(),
        policy: ApprovalPolicy::AutoApprove,
        memory_window: None,
        max_turns: None,
        schedule_mins: None,
        task: None,
        task_hint: None,
        builtin: true,
    }
}

/// The built-in team.
pub open spec fn axon_team() -> TeamView {
    TeamView { id: "axon"@, name: "axon"@, builtin: true }
}

fn builtin_writer() -> (r: AgentDef)
    ensures
        r@ == agent_writer(),
{
    let writer = AgentDef {
        id: "agent-writer".to_string(),
        team_id: BUILTIN_TEAM_ID.to_string(),
        name: "Agent Writer".to_string(),
        model: None,
        instructions: AGENT_WRITER_PROMPT.to_string(),
        tools: agent::all_coder_tools(),
        policy: ApprovalPolicy::AutoApprove,
        memory_window: None,
        max_turns: None,
        schedule_mins: None,
        task: None,
        task_hint: None,
        builtin: true,
    };
    assert(writer@ =~= agent_writer());
    writer
}

/// The built-in teams.
pub fn builtin_teams() -> (r: Vec<TeamWithAgents>)
    ensures
        team_views(r@) == seq![
            (TeamWithAgentsView { team: axon_team(), agents: seq![agent_writer()] }),
        ],
{
    let writer = builtin_writer();
    let mut agents: Vec<AgentDef> = Vec::new();
    agents.push(writer);
    assert(def_views(agents@) =~= seq![agent_writer()]);
    let mut out: Vec<TeamWithAgents> = Vec::new();
    out.push(
        TeamWithAgents {
            team: Team {
                id: BUILTIN_TEAM_ID.to_string(),
                name: "axon".to_string(),
                builtin: true,
            },
            agents,
        },
    );
    assert(out@[0]@ =~= TeamWithAgentsView { team: axon_team(), agents: seq![agent_writer()] });
    assert(team_views(out@) =~= seq![
        TeamWithAgentsView { team: axon_team(), agents: seq![agent_writer()] },
    ]);
    out
}

/// Whether `id` is that of a built-in team.
pub fn is_builtin_team(id: &str) -> (r: bool)
    ensures
        r == (id@ == "axon"@),
{
    text::same(id, BUILTIN_TEAM_ID)
}

/// Whether `id` is that of a built-in agent.
pub fn is_builtin_def(id: &str) -> (r: bool)
    ensures
        r == (id@ == "agent-writer"@),
{
    text::same(id, "agent-writer")
}

/// The name of a policy.
pub open spec fn policy_text(p: ApprovalPolicy) -> Seq<char> {
    match p {
        ApprovalPolicy::AutoApprove => "auto_approve"@,
        ApprovalPolicy::DenyDestructive => "deny_destructive"@,
    }
}

/// The policy of a name; any other name stands for the default.
pub open spec fn policy_of(s: Seq<char>) -> ApprovalPolicy {
    if s == "deny_destructive"@ {
        ApprovalPolicy::DenyDestructive
    } else {
        ApprovalPolicy::AutoApprove
    }
}

pub fn policy_to_str(p: ApprovalPolicy) -> (r: &'static str)
    ensures
        r@ == policy_text(p),
{
    match p {
        ApprovalPolicy::AutoApprove => "auto_approve",
        ApprovalPolicy::DenyDestructive => "deny_destructive",
    }
}

pub fn policy_from_str(s: &str) -> (r: ApprovalPolicy)
    ensures
        r == policy_of(s@),
{
    if text::same(s, "deny_destructive") {
        ApprovalPolicy::DenyDestructive
    } else {
        ApprovalPolicy::AutoApprove
    }
}

/// A policy is known again by its name.
pub proof fn law_policy_reads_back(p: ApprovalPolicy)
    ensures
        policy_of(policy_text(p)) == p,
{
    reveal_strlit("auto_approve");
    reveal_strlit("deny_destructive");
    assert("auto_approve"@.len() == 12 && "deny_destructive"@.len() == 16);
}

/// A number as the database holds it: the same 64 bits, signed.
pub open spec fn signed_bits(n: int) -> int {
    if n <= i64::MAX {
        n
    } else {
        n - 0x1_0000_0000_0000_0000
    }
}

/// A number from the database: the same 64 bits, unsigned.
pub open spec fn unsigned_bits(n: int) -> int {
    if n >= 0 {
        n
    } else {
        n + 0x1_0000_0000_0000_0000
    }
}

fn to_db(n: u64) -> (r: i64)
    ensures
        r == signed_bits(n as int),
{
    if n <= 0x7fff_ffff_ffff_ffff {
        n as i64
    } else {
        (n as i128 - 0x1_0000_0000_0000_0000) as i64
    }
}

fn from_db(n: i64) -> (r: u64)
    ensures
        r == unsigned_bits(n as int),
{
    if n >= 0 {
        n as u64
    } else {
        (n as i128 + 0x1_0000_0000_0000_0000) as u64
    }
}

/// A definition as the database holds it.
pub struct DefRow {
    pub id: String,
    pub team_id: String,
    pub name: String,
    pub model: Option<String>,
    pub instructions: String,
    pub tools: String,
    pub policy: String,
    pub memory_window: Option<i64>,
    pub max_turns: Option<i64>,
    pub schedule_mins: Option<i64>,
    pub task: Option<String>,
    pub task_hint: Option<String>,
}

/// What a [`DefRow`] says.
#[verifier::ext_equal]
pub struct DefRowView {
    pub id: Seq<char>,
    pub team_id: Seq<char>,
    pub name: Seq<char>,
    pub model: Option<Seq<char>>,
    pub instructions: Seq<char>,
    pub tools: Seq<char>,
    pub policy: Seq<char>,
    pub memory_window: Option<i64>,
    pub max_turns: Option<i64>,
    pub schedule_mins: Option<i64>,
    pub task: Option<Seq<char>>,
    pub task_hint: Option<Seq<char>>,
}

impl View for DefRow {
    type V = DefRowView;

    open spec fn view(&self) -> DefRowView {
        DefRowView {
            id: self.id@,
            team_id: self.team_id@,
            name: self.name@,
            model: text::option_view(self.model),
            instructions: self.instructions@,
            tools: self.tools@,
            policy: self.policy@,
            memory_window: self.memory_window,
            max_turns: self.max_turns,
            schedule_mins: self.schedule_mins,
            task: text::option_view(self.task),
            task_hint: text::option_view(self.task_hint),
        }
    }
}

pub open spec fn stored_size(n: Option<usize>) -> Option<i64> {
    match n {
        Some(n) => Some(signed_bits(n as int) as i64),
        None => None,
    }
}

pub open spec fn stored_mins(n: Option<u64>) -> Option<i64> {
    match n {
        Some(n) => Some(signed_bits(n as int) as i64),
        None => None,
    }
}

pub open spec fn loaded_size(n: Option<i64>) -> Option<usize> {
    match n {
        Some(n) => Some(unsigned_bits(n as int) as usize),
        None => None,
    }
}

pub open spec fn loaded_mins(n: Option<i64>) -> Option<u64> {
    match n {
        Some(n) => Some(unsigned_bits(n as int) as u64),
        None => None,
    }
}

/// The record of a form.
pub open spec fn row_of(id: Seq<char>, team_id: Seq<char>, form: DefFormView) -> DefRowView {
    DefRowView {
        id,
        team_id,
        name: form.name,
        model: form.model,
        instructions: form.instructions,
        tools: text::joined(form.tools, ","@),
        policy: policy_text(form.policy),
        memory_window: stored_size(form.memory_window),
        max_turns: stored_size(form.max_turns),
        schedule_mins: stored_mins(form.schedule_mins),
        task: form.task,
        task_hint: form.task_hint,
    }
}

/// The definition of a record.
pub open spec fn def_of(row: DefRowView) -> AgentDefView {
    AgentDefView {
        id: row.id,
        team_id: row.team_id,
        name: row.name,
        model: row.model,
        instructions: row.instructions,
        tools: text::nonempty(text::split_at_char(row.tools, ',')),
        policy: policy_of(row.policy),
        memory_window: loaded_size(row.memory_window),
        max_turns: loaded_size(row.max_turns),
        schedule_mins: loaded_mins(row.schedule_mins),
        task: row.task,
        task_hint: row.task_hint,
        builtin: false,
    }
}

fn store_size(n: Option<usize>) -> (r: Option<i64>)
    ensures
        r == stored_size(n),
{
    match n {
        Some(n) => Some(to_db(n as u64)),
        None => None,
    }
}

fn store_mins(n: Option<u64>) -> (r: Option<i64>)
    ensures
        r == stored_mins(n),
{
    match n {
        Some(n) => Some(to_db(n)),
        None => None,
    }
}

fn load_size(n: Option<i64>) -> (r: Option<usize>)
    ensures
        r == loaded_size(n),
{
    match n {
        Some(n) => {
            let m = from_db(n);
            Some(
                #[verifier::truncate]
                (m as usize),
            )
        },
        None => None,
    }
}

fn load_mins(n: Option<i64>) -> (r: Option<u64>)
    ensures
        r == loaded_mins(n),
{
    match n {
        Some(n) => Some(from_db(n)),
        None => None,
    }
}

/// The record of a form.
pub fn def_row(id: &str, team_id: &str, form: &DefForm) -> (r: DefRow)
    ensures
        r@ == row_of(id@, team_id@, form@),
{
    DefRow {
        id: id.to_string(),
        team_id: team_id.to_string(),
        name: form.name.clone(),
        model: text::copy_option(&form.model),
        instructions: form.instructions.clone(),
        tools: text::join(&form.tools, ","),
        policy: policy_to_str(form.policy).to_string(),
        memory_window: store_size(form.memory_window),
        max_turns: store_size(form.max_turns),
        schedule_mins: store_mins(form.schedule_mins),
        task: text::copy_option(&form.task),
        task_hint: text::copy_option(&form.task_hint),
    }
}

/// The definition of a record.
pub fn row_to_def(row: DefRow) -> (r: AgentDef)
    ensures
        r@ == def_of(row@),
{
    AgentDef {
        id: row.id,
        team_id: row.team_id,
        name: row.name,
        model: row.model,
        instructions: row.instructions,
        tools: text::split_nonempty(row.tools.as_str(), ','),
        policy: policy_from_str(row.policy.as_str()),
        memory_window: load_size(row.memory_window),
        max_turns: load_size(row.max_turns),
        schedule_mins: load_mins(row.schedule_mins),
        task: row.task,
        task_hint: row.task_hint,
        builtin: false,
    }
}

/// What is read back of a form that was written is the form, as long as every tool has a
/// name and no name holds a comma.
pub proof fn law_definition_is_stored(id: Seq<char>, team_id: Seq<char>, form: DefFormView)
    requires
        forall|i: int|
            0 <= i < form.tools.len() ==> (#[trigger] form.tools[i]).len() > 0
                && text_facts::free_of(form.tools[i], ','),
    ensures
        def_of(row_of(id, team_id, form)) == filled_in(id, team_id, form),
{
    reveal_strlit(",");
    law_policy_reads_back(form.policy);
    assert(","@ =~= seq![',']);
    if form.tools.len() > 0 {
        text_facts::lemma_split_of_joined(form.tools, ',', ","@);
        text_facts::lemma_all_nonempty(form.tools);
    } else {
        let e = Seq::<char>::empty();
        assert(text::joined(form.tools, ","@) == e);
        assert(text::first_char(e, ',') is None);
        assert(text::split_at_char(e, ',') =~= seq![e]);
        assert(seq![e].drop_last() =~= Seq::<Seq<char>>::empty());
        assert(text::nonempty(seq![e].drop_last()) == Seq::<Seq<char>>::empty());
        assert(text::nonempty(seq![e]) =~= form.tools);
    }
    assert(def_of(row_of(id, team_id, form)) =~= filled_in(id, team_id, form));
}

/// A built-in definition with its saved fields: everything but its id and the built-in
/// mark is taken from them.
pub open spec fn overridden(builtin: AgentDefView, saved: AgentDefView) -> AgentDefView {
    AgentDefView { id: builtin.id, builtin: true, ..saved }
}

/// The built-in agent with the saved fields of the records that carry its id, the last
/// of them counting.
pub open spec fn with_overrides(d: AgentDefView, saved: Seq<AgentDefView>) -> AgentDefView
    decreases saved.len(),
{
    if saved.len() == 0 {
        d
    } else {
        let before = with_overrides(d, saved.drop_last());
        if saved.last().id == before.id {
            overridden(before, saved.last())
        } else {
            before
        }
    }
}

/// All teams: the built-in one with its saved fields, then those of the user.
pub fn all_teams(overrides: Vec<AgentDef>, user_teams: Vec<TeamWithAgents>) -> (r: Vec<
    TeamWithAgents,
>)
    ensures
        team_views(r@) == seq![
            (TeamWithAgentsView {
                team: axon_team(),
                agents: seq![with_overrides(agent_writer(), def_views(overrides@))],
            }),
        ] + team_views(user_teams@),
{
    let mut out: Vec<TeamWithAgents> = Vec::new();
    let mut writer = builtin_writer();
    let ghost saved = def_views(overrides@);
    let mut i: usize = 0;
    assert(saved.take(0) =~= Seq::<AgentDefView>::empty());
    while i < overrides.len()
        invariant
            i <= overrides.len(),
            saved == def_views(overrides@),
            writer@ == with_overrides(agent_writer(), saved.take(i as int)),
        decreases overrides.len() - i,
    {
        assert(saved.take(i + 1).drop_last() =~= saved.take(i as int));
        assert(saved.take(i + 1).last() == overrides[i as int]@);
        if text::same(overrides[i].id.as_str(), writer.id.as_str()) {
            writer = override_def(&writer, overrides[i].clone());
        }
        i += 1;
    }
    assert(saved.take(i as int) =~= saved);
    let mut agents: Vec<AgentDef> = Vec::new();
    agents.push(writer);
    let ghost first = TeamWithAgentsView {
        team: axon_team(),
        agents: seq![with_overrides(agent_writer(), saved)],
    };
    assert(def_views(agents@) =~= first.agents);
    out.push(
        TeamWithAgents {
            team: Team {
                id: BUILTIN_TEAM_ID.to_string(),
                name: "axon".to_string(),
                builtin: true,
            },
            agents,
        },
    );
    assert(out@[0]@ =~= first);
    assert(team_views(out@) =~= seq![first]);
    let mut users = user_teams;
    let ghost before = team_views(out@);
    let ghost theirs = team_views(users@);
    out.append(&mut users);
    assert(team_views(out@) =~= before + theirs);
    out
}

fn override_def(builtin: &AgentDef, saved: AgentDef) -> (r: AgentDef)
    ensures
        r@ == overridden(builtin@, saved@),
{
    let mut d = saved;
    d.id = builtin.id.clone();
    d.builtin = true;
    d
}

/// The definition with an id: a built-in one with its saved fields, or the saved one.
pub open spec fn resolved(id: Seq<char>, saved: Option<AgentDefView>) -> Option<AgentDefView> {
    if id == "agent-writer"@ {
        match saved {
            Some(d) => Some(overridden(agent_writer(), d)),
            None => Some(agent_writer()),
        }
    } else {
        saved
    }
}

pub open spec fn def_option(d: Option<AgentDef>) -> Option<AgentDefView> {
    match d {
        Some(d) => Some(d@),
        None => None,
    }
}

/// The definition with an id, given what the database holds under it.
pub fn resolve_def(id: &str, saved: Option<AgentDef>) -> (r: Option<AgentDef>)
    ensures
        def_option(r) == resolved(id@, def_option(saved)),
{
    if is_builtin_def(id) {
        let writer = builtin_writer();
        match saved {
            Some(d) => Some(override_def(&writer, d)),
            None => Some(writer),
        }
    } else {
        saved
    }
}

/// A new team with this name, made at the time that `stamp` writes; it must have a name.
pub fn add_team(name: &str, stamp: &str) -> (r: Result<Team, String>)
    ensures
        match r {
            Ok(t) => !text::blank(name@) && t@ == (TeamView {
                id: store::stamped(name@, stamp@),
                name: name@,
                builtin: false,
            }),
            Err(e) => text::blank(name@) && e@ == "team name must not be empty"@,
        },
{
    if text::is_blank(name) {
        return Err("team name must not be empty".to_string());
    }
    Ok(Team { id: store::stamped_id(name, stamp), name: name.to_string(), builtin: false })
}

/// Whether a team may be renamed: the built-in one may not.
pub fn rename_team(id: &str) -> (r: Result<(), String>)
    ensures
        r is Ok <==> id@ != "axon"@,
        r matches Err(e) ==> e@ == "cannot modify the built-in team"@,
{
    if is_builtin_team(id) {
        Err("cannot modify the built-in team".to_string())
    } else {
        Ok(())
    }
}

/// Whether a team may be deleted: the built-in one may not.
pub fn delete_team(id: &str) -> (r: Result<(), String>)
    ensures
        r is Ok <==> id@ != "axon"@,
        r matches Err(e) ==> e@ == "cannot delete the built-in team"@,
{
    if is_builtin_team(id) {
        Err("cannot delete the built-in team".to_string())
    } else {
        Ok(())
    }
}

/// Why a definition cannot be added to a team.
pub open spec fn add_refused(team_id: Seq<char>, name: Seq<char>) -> Option<Seq<char>> {
    if team_id == "axon"@ {
        Some("cannot add agents to the built-in team"@)
    } else if text::blank(name) {
        Some("agent name must not be empty"@)
    } else {
        None
    }
}

/// A new definition in a team, made at the time that `stamp` writes, and its record.
pub fn add_def(team_id: &str, form: &DefForm, stamp: &str) -> (r: Result<
    (AgentDef, DefRow),
    String,
>)
    ensures
        match r {
            Ok((d, row)) => add_refused(team_id@, form.name@) is None && d@ == filled_in(
                store::stamped(form.name@, stamp@),
                team_id@,
                form@,
            ) && row@ == row_of(store::stamped(form.name@, stamp@), team_id@, form@),
            Err(e) => add_refused(team_id@, form.name@) == Some(e@),
        },
{
    if is_builtin_team(team_id) {
        return Err("cannot add agents to the built-in team".to_string());
    }
    if text::is_blank(form.name.as_str()) {
        return Err("agent name must not be empty".to_string());
    }
    let id = store::stamped_id(form.name.as_str(), stamp);
    let row = def_row(id.as_str(), team_id, form);
    let def = AgentDef {
        id,
        team_id: team_id.to_string(),
        name: form.name.clone(),
        model: text::copy_option(&form.model),
        instructions: form.instructions.clone(),
        tools: text::copy_strings(&form.tools),
        policy: form.policy,
        memory_window: form.memory_window,
        max_turns: form.max_turns,
        schedule_mins: form.schedule_mins,
        task: text::copy_option(&form.task),
        task_hint: text::copy_option(&form.task_hint),
        builtin: false,
    };
    Ok((def, row))
}

/// The record of an edited definition, which goes over the one that there is and leaves its
/// team as it is, or why it is not saved: it is built in, or there is none.
pub open spec fn written(id: Seq<char>, exists: bool, form: DefFormView) -> Result<
    DefRowView,
    Seq<char>,
> {
    if id == "agent-writer"@ {
        Err("cannot modify a built-in agent"@)
    } else if exists {
        Ok(row_of(id, Seq::empty(), form))
    } else {
        Err("agent `"@ + id + "` not found"@)
    }
}

/// Decides whether an edited definition is saved, and as what; `exists` says whether it has a
/// record.
pub fn update_def(id: &str, exists: bool, form: &DefForm) -> (r: Result<DefRow, String>)
    ensures
        written(id@, exists, form@) == match r {
            Ok(row) => Ok(row@),
            Err(e) => Err(e@),
        },
{
    if is_builtin_def(id) {
        Err("cannot modify a built-in agent".to_string())
    } else if exists {
        proof {
            reveal_strlit("");
            assert(""@ =~= Seq::<char>::empty());
        }
        Ok(def_row(id, "", form))
    } else {
        let mut m = "agent `".to_string();
        m.append(id);
        m.append("` not found");
        Err(m)
    }
}

/// Whether a definition may be deleted: a built-in one may not.
pub fn delete_def(id: &str) -> (r: Result<(), String>)
    ensures
        r is Ok <==> id@ != "agent-writer"@,
        r matches Err(e) ==> e@ == "cannot delete a built-in agent"@,
{
    if is_builtin_def(id) {
        Err("cannot delete a built-in agent".to_string())
    } else {
        Ok(())
    }
}

/// Whatever is saved for the built-in agent, it keeps its id and stays built-in.
pub proof fn law_builtin_keeps_its_identity(
    saved: Option<AgentDefView>,
    overrides: Seq<AgentDefView>,
)
    ensures
        resolved("agent-writer"@, saved) matches Some(d) && d.id == "agent-writer"@ && d.builtin,
        with_overrides(agent_writer(), overrides).id == "agent-writer"@,
        with_overrides(agent_writer(), overrides).builtin,
    decreases overrides.len(),
{
    if overrides.len() > 0 {
        law_builtin_keeps_its_identity(saved, overrides.drop_last());
    }
}

/// The built-in team is read-only: no edit of its agent is saved, whatever there is under its
/// id, and no agent is added to it.
pub proof fn law_builtin_team_is_read_only(exists: bool, form: DefFormView, name: Seq<char>)
    ensures
        written("agent-writer"@, exists, form) is Err,
        add_refused("axon"@, name) is Some,
        axon_team().id == "axon"@,
        agent_writer().id == "agent-writer"@ && agent_writer().team_id == "axon"@,
{
}

/// A definition has everything that the form says, and nothing of its own but who it is.
pub proof fn law_form_is_taken_over(id: Seq<char>, team_id: Seq<char>, form: DefFormView)
    ensures
        ({
            let d = filled_in(id, team_id, form);
            &&& d.id == id && d.team_id == team_id && !d.builtin
            &&& d.name == form.name && d.model == form.model && d.instructions == form.instructions
            &&& d.tools == form.tools && d.policy == form.policy
            &&& d.memory_window == form.memory_window && d.max_turns == form.max_turns
            &&& d.schedule_mins == form.schedule_mins && d.task == form.task && d.task_hint
                == form.task_hint
        }),
{
}

/// What is saved under an id is what the id stands for; the built-in agent takes over every
/// saved field, and is itself where nothing is saved.
pub proof fn law_saved_definition_is_used(id: Seq<char>, saved: AgentDefView)
    ensures
        id != "agent-writer"@ ==> resolved(id, Some(saved)) == Some(saved) && resolved(id, None)
            == None::<AgentDefView>,
        resolved("agent-writer"@, None) == Some(agent_writer()),
        ({
            let d = resolved("agent-writer"@, Some(saved))->0;
            &&& resolved("agent-writer"@, Some(saved)) is Some
            &&& d.name == saved.name && d.model == saved.model && d.instructions
                == saved.instructions
            &&& d.tools == saved.tools && d.policy == saved.policy
            &&& d.memory_window == saved.memory_window && d.max_turns == saved.max_turns
            &&& d.schedule_mins == saved.schedule_mins && d.task == saved.task && d.task_hint
                == saved.task_hint
        }),
{
}

/// Of several saved records of an agent the last counts, and those of other agents do not.
pub proof fn law_last_override_counts(
    d: AgentDefView,
    before: Seq<AgentDefView>,
    saved: AgentDefView,
)
    ensures
        saved.id == d.id ==> with_overrides(d, before.push(saved)) == (AgentDefView {
            builtin: true,
            ..saved
        }),
        saved.id != d.id ==> with_overrides(d, before.push(saved)) == with_overrides(d, before),
        with_overrides(d, Seq::empty()) == d,
    decreases before.len(),
{
    lemma_overridden_id(d, before);
    assert(before.push(saved).drop_last() =~= before);
}

proof fn lemma_overridden_id(d: AgentDefView, saved: Seq<AgentDefView>)
    ensures
        with_overrides(d, saved).id == d.id,
    decreases saved.len(),
{
    if saved.len() > 0 {
        lemma_overridden_id(d, saved.drop_last());
    }
}

/// A definition with a name can be added to every team but the built-in one.
pub proof fn law_adding(team_id: Seq<char>, name: Seq<char>)
    ensures
        add_refused(team_id, name) is None <==> team_id != "axon"@ && (exists|i: int|
            0 <= i < name.len() && !text::white(#[trigger] name[i])),
{
    if text::blank(name) {
        assert forall|i: int| 0 <= i < name.len() implies text::white(#[trigger] name[i]) by {}
    }
}

} // verus!
