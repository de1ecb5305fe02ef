//! The registry of the swarm: which agents there are, what they do, which run on a
//! schedule, and what has been finished.

use crate::json;
use crate::json::{Field, FieldView};
use crate::swarm::agent::{AgentControl, AgentControlView, ApprovalPolicy, Role};
use crate::swarm::teams::{AgentDef, AgentDefView, TeamWithAgentsView};
use crate::text;
use crate::time;
use vstd::prelude::*;

verus! {

/// How an agent is doing.
#[derive(Clone, Copy, Debug, PartialEq, Eq, Structural)]
pub enum AgentStatus {
    Queued,
    Running,
    Done,
    /// A scheduled agent that finished a cycle and waits for the next.
    Idle,
    Error,
    Cancelled,
}

/// An agent as the registry shows it.
pub struct AgentInfo {
    pub id: String,
    pub task: String,
    pub model: String,
    pub policy: ApprovalPolicy,
    pub status: AgentStatus,
    pub role: Role,
    /// Whether it runs on a schedule.
    pub perpetual: bool,
    /// The name of its definition.
    pub def_name: Option<String>,
    pub started: String,
    pub cycle_started: String,
    /// Empty while a cycle runs.
    pub cycle_completed: String,
}

/// What an [`AgentInfo`] says.
#[verifier::ext_equal]
pub struct AgentInfoView {
    pub id: Seq<char>,
    pub task: Seq<char>,
    pub model: Seq<char>,
    pub policy: ApprovalPolicy,
    pub status: AgentStatus,
    pub role: Role,
    pub perpetual: bool,
    pub def_name: Option<Seq<char>>,
    pub started: Seq<char>,
    pub cycle_started: Seq<char>,
    pub cycle_completed: Seq<char>,
}

impl View for AgentInfo {
    type V = AgentInfoView;

    open spec fn view(&self) -> AgentInfoView {
        AgentInfoView {
            id: self.id@,
            task: self.task@,
            model: self.model@,
            policy: self.policy,
            status: self.status,
            role: self.role,
            perpetual: self.perpetual,
            def_name: text::option_view(self.def_name),
            started: self.started@,
            cycle_started: self.cycle_started@,
            cycle_completed: self.cycle_completed@,
        }
    }
}

impl Clone for AgentInfo {
    fn clone(&self) -> (r: Self)
        ensures
            r@ == self@,
    {
        AgentInfo {
            id: self.id.clone(),
            task: self.task.clone(),
            model: self.model.clone(),
            policy: self.policy,
            status: self.status,
            role: self.role,
            perpetual: self.perpetual,
            def_name: text::copy_option(&self.def_name),
            started: self.started.clone(),
            cycle_started: self.cycle_started.clone(),
            cycle_completed: self.cycle_completed.clone(),
        }
    }
}

/// An agent with what controls it.
pub struct AgentEntry {
    pub info: AgentInfo,
    pub control: AgentControl,
}

/// What an [`AgentEntry`] says.
#[verifier::ext_equal]
pub struct AgentEntryView {
    pub info: AgentInfoView,
    pub control: AgentControlView,
}

impl View for AgentEntry {
    type V = AgentEntryView;

    open spec fn view(&self) -> AgentEntryView {
        AgentEntryView { info: self.info@, control: self.control@ }
    }
}

impl Clone for AgentEntry {
    fn clone(&self) -> (r: Self)
        ensures
            r@ == self@,
    {
        AgentEntry { info: self.info.clone(), control: self.control.clone() }
    }
}

/// A finished run of an agent.
pub struct HistoricAgent {
    pub id: String,
    pub task: String,
    pub model: String,
    pub status: AgentStatus,
    pub def_name: Option<String>,
    pub started: String,
    pub completed: String,
    pub result: Option<String>,
}

/// What a [`HistoricAgent`] says.
#[verifier::ext_equal]
pub struct HistoricAgentView {
    pub id: Seq<char>,
    pub task: Seq<char>,
    pub model: Seq<char>,
    pub status: AgentStatus,
    pub def_name: Option<Seq<char>>,
    pub started: Seq<char>,
    pub completed: Seq<char>,
    pub result: Option<Seq<char>>,
}

impl View for HistoricAgent {
    type V = HistoricAgentView;

    open spec fn view(&self) -> HistoricAgentView {
        HistoricAgentView {
            id: self.id@,
            task: self.task@,
            model: self.model@,
            status: self.status,
            def_name: text::option_view(self.def_name),
            started: self.started@,
            completed: self.completed@,
            result: text::option_view(self.result),
        }
    }
}

pub open spec fn history_views(v: Seq<HistoricAgent>) -> Seq<HistoricAgentView> {
    v.map_values(|h: HistoricAgent| h@)
}

/// What an agent is built from.
pub struct AgentSpec {
    pub id: String,
    pub role: Role,
    pub policy: ApprovalPolicy,
    pub prompt: String,
    pub allowed_tools: Vec<String>,
    pub memory_window: usize,
    pub max_turns: usize,
    pub model_label: String,
    pub perpetual: bool,
    pub def_name: Option<String>,
}

/// What an [`AgentSpec`] says.
#[verifier::ext_equal]
pub struct AgentSpecView {
    pub id: Seq<char>,
    pub role: Role,
    pub policy: ApprovalPolicy,
    pub prompt: Seq<char>,
    pub allowed_tools: Seq<Seq<char>>,
    pub memory_window: usize,
    pub max_turns: usize,
    pub model_label: Seq<char>,
    pub perpetual: bool,
    pub def_name: Option<Seq<char>>,
}

impl View for AgentSpec {
    type V = AgentSpecView;

    open spec fn view(&self) -> AgentSpecView {
        AgentSpecView {
            id: self.id@,
            role: self.role,
            policy: self.policy,
            prompt: self.prompt@,
            allowed_tools: text::views(self.allowed_tools@),
            memory_window: self.memory_window,
            max_turns: self.max_turns,
            model_label: self.model_label@,
            perpetual: self.perpetual,
            def_name: text::option_view(self.def_name),
        }
    }
}

/// What a scheduled agent does again and again.
pub struct ScheduleEntry {
    pub interval_secs: u64,
    pub task: String,
}

/// What a [`ScheduleEntry`] says.
#[verifier::ext_equal]
pub struct ScheduleEntryView {
    pub interval_secs: u64,
    pub task: Seq<char>,
}

impl View for ScheduleEntry {
    type V = ScheduleEntryView;

    open spec fn view(&self) -> ScheduleEntryView {
        ScheduleEntryView { interval_secs: self.interval_secs, task: self.task@ }
    }
}

/// What of a definition its scheduled agent depends on.
pub struct DefSig {
    pub schedule_mins: Option<u64>,
    pub task: Option<String>,
    pub instructions: String,
    pub tools: Vec<String>,
    pub model: Option<String>,
    pub memory_window: Option<usize>,
    pub max_turns: Option<usize>,
    pub policy: ApprovalPolicy,
}

/// What a [`DefSig`] says.
#[verifier::ext_equal]
pub struct DefSigView {
    pub schedule_mins: Option<u64>,
    pub task: Option<Seq<char>>,
    pub instructions: Seq<char>,
    pub tools: Seq<Seq<char>>,
    pub model: Option<Seq<char>>,
    pub memory_window: Option<usize>,
    pub max_turns: Option<usize>,
    pub policy: ApprovalPolicy,
}

impl View for DefSig {
    type V = DefSigView;

    open spec fn view(&self) -> DefSigView {
        DefSigView {
            schedule_mins: self.schedule_mins,
            task: text::option_view(self.task),
            instructions: self.instructions@,
            tools: text::views(self.tools@),
            model: text::option_view(self.model),
            memory_window: self.memory_window,
            max_turns: self.max_turns,
            policy: self.policy,
        }
    }
}

/// What of a definition its scheduled agent depends on.
pub open spec fn signature(d: AgentDefView) -> DefSigView {
    DefSigView {
        schedule_mins: d.schedule_mins,
        task: d.task,
        instructions: d.instructions,
        tools: d.tools,
        model: d.model,
        memory_window: d.memory_window,
        max_turns: d.max_turns,
        policy: d.policy,
    }
}

/// What of a definition its scheduled agent depends on. A change of anything else leaves
/// the agent running.
pub fn def_sig(def: &AgentDef) -> (r: DefSig)
    ensures
        r@ == signature(def@),
{
    DefSig {
        schedule_mins: def.schedule_mins,
        task: text::copy_option(&def.task),
        instructions: def.instructions.clone(),
        tools: text::copy_strings(&def.tools),
        model: text::copy_option(&def.model),
        memory_window: def.memory_window,
        max_turns: def.max_turns,
        policy: def.policy,
    }
}

fn same_size(a: Option<usize>, b: Option<usize>) -> (r: bool)
    ensures
        r == (a == b),
{
    match (a, b) {
        (Some(x), Some(y)) => x == y,
        (None, None) => true,
        _ => false,
    }
}

fn same_mins(a: Option<u64>, b: Option<u64>) -> (r: bool)
    ensures
        r == (a == b),
{
    match (a, b) {
        (Some(x), Some(y)) => x == y,
        (None, None) => true,
        _ => false,
    }
}

/// Whether two signatures agree.
pub fn same_sig(a: &DefSig, b: &DefSig) -> (r: bool)
    ensures
        r == (a@ == b@),
{
    same_mins(a.schedule_mins, b.schedule_mins) && text::same_option(&a.task, &b.task)
        && text::same(a.instructions.as_str(), b.instructions.as_str()) && text::same_list(
        &a.tools,
        &b.tools,
    ) && text::same_option(&a.model, &b.model) && same_size(a.memory_window, b.memory_window)
        && same_size(a.max_turns, b.max_turns) && a.policy == b.policy
}

/// The scheduled agent of a definition.
pub struct Scheduled {
    pub agent_id: String,
    pub sig: DefSig,
}

/// What a [`Scheduled`] says.
#[verifier::ext_equal]
pub struct ScheduledView {
    pub agent_id: Seq<char>,
    pub sig: DefSigView,
}

impl View for Scheduled {
    type V = ScheduledView;

    open spec fn view(&self) -> ScheduledView {
        ScheduledView { agent_id: self.agent_id@, sig: self.sig@ }
    }
}

/// Everything that the registry knows.
#[verifier::ext_equal]
pub struct SwarmView {
    pub model: Seq<char>,
    /// The agents by id.
    pub agents: Map<Seq<char>, AgentEntryView>,
    /// The agent of each submitted task.
    pub submissions: Map<Seq<char>, Seq<char>>,
    /// The number of the next agent.
    pub next_id: u64,
    /// The scheduled agents by id.
    pub scheduled: Map<Seq<char>, ScheduleEntryView>,
    /// The scheduled agent of each definition.
    pub sched_index: Map<Seq<char>, ScheduledView>,
    /// What has been finished, the newest first.
    pub history: Seq<HistoricAgentView>,
}

/// The number after `n`.
pub open spec fn after(n: u64) -> u64 {
    if n == u64::MAX {
        0
    } else {
        (n + 1) as u64
    }
}

/// The id of an agent that runs once.
pub open spec fn agent_id(n: nat) -> Seq<char> {
    "agent-"@ + text::decimal(n)
}

/// The id of the scheduled agent of a definition.
pub open spec fn schedule_id(def_id: Seq<char>, n: nat) -> Seq<char> {
    "sched-"@ + def_id + "-"@ + text::decimal(n)
}

/// What the agent of a definition is built from.
pub open spec fn spec_of(d: AgentDefView, id: Seq<char>, model: Seq<char>, perpetual: bool) -> AgentSpecView {
    AgentSpecView {
        id,
        role: Role::Coder,
        policy: d.policy,
        prompt: d.instructions,
        allowed_tools: d.tools,
        memory_window: match d.memory_window {
            Some(n) => n,
            None => 20,
        },
        max_turns: match d.max_turns {
            Some(n) => n,
            None => 10,
        },
        model_label: match d.model {
            Some(m) => m,
            None => model,
        },
        perpetual,
        def_name: Some(d.name),
    }
}

/// A definition that is scheduled.
pub open spec fn has_schedule(d: AgentDefView) -> bool {
    d.schedule_mins matches Some(n) && n > 0
}

/// The recurring task: the one that is given, unless it is blank, else that of the
/// definition.
pub open spec fn recurring_task(d: AgentDefView, given: Option<Seq<char>>) -> Seq<char> {
    if given is Some && !text::blank(given->0) {
        given->0
    } else {
        match d.task {
            Some(t) => t,
            None => Seq::empty(),
        }
    }
}

/// What is to be launched for a definition.
pub struct Launch {
    pub spec: AgentSpec,
    pub task: String,
    /// The interval and the signature of a scheduled agent.
    pub schedule: Option<(u64, DefSig)>,
}

/// What a [`Launch`] says.
#[verifier::ext_equal]
pub struct LaunchView {
    pub spec: AgentSpecView,
    pub task: Seq<char>,
    pub schedule: Option<(u64, DefSigView)>,
}

impl View for Launch {
    type V = LaunchView;

    open spec fn view(&self) -> LaunchView {
        LaunchView {
            spec: self.spec@,
            task: self.task@,
            schedule: match self.schedule {
                Some((n, s)) => Some((n, s@)),
                None => None,
            },
        }
    }
}

/// What is launched for a scheduled definition, and why it is not.
pub open spec fn schedule_launch(st: SwarmView, d: AgentDefView, given: Option<Seq<char>>) -> Result<
    LaunchView,
    Seq<char>,
> {
    match d.schedule_mins {
        None => Err("start_schedule: no schedule_mins"@),
        Some(mins) => {
            let task = recurring_task(d, given);
            if mins == 0 || text::blank(task) {
                Err("start_schedule: mins=0 or task empty"@)
            } else {
                Ok(
                    LaunchView {
                        spec: spec_of(d, schedule_id(d.id, st.next_id as nat), st.model, true),
                        task,
                        schedule: Some(((mins * 60) as u64, signature(d))),
                    },
                )
            }
        },
    }
}

/// What is launched when a definition is spawned with a task.
pub open spec fn spawn_launch(st: SwarmView, d: AgentDefView, task: Seq<char>) -> Result<
    LaunchView,
    Seq<char>,
> {
    if has_schedule(d) {
        schedule_launch(st, d, Some(task))
    } else {
        Ok(
            LaunchView {
                spec: spec_of(d, agent_id(st.next_id as nat), st.model, false),
                task,
                schedule: None,
            },
        )
    }
}

/// The registry once something was planned: a launch takes a number.
pub open spec fn numbered(st: SwarmView, launch: Result<LaunchView, Seq<char>>) -> SwarmView {
    match launch {
        Ok(_) => SwarmView { next_id: after(st.next_id), ..st },
        Err(_) => st,
    }
}

pub open spec fn launch_view(r: Result<Launch, String>) -> Result<LaunchView, Seq<char>> {
    match r {
        Ok(l) => Ok(l@),
        Err(e) => Err(e@),
    }
}

/// A new agent in the registry.
pub open spec fn new_entry(spec: AgentSpecView, now: Seq<char>) -> AgentEntryView {
    AgentEntryView {
        info: AgentInfoView {
            id: spec.id,
            task: Seq::empty(),
            model: spec.model_label,
            policy: spec.policy,
            status: AgentStatus::Queued,
            role: spec.role,
            perpetual: spec.perpetual,
            def_name: spec.def_name,
            started: now,
            cycle_started: now,
            cycle_completed: Seq::empty(),
        },
        control: AgentControlView { cancelled: false, policy: spec.policy },
    }
}

/// An agent that was given a task.
pub open spec fn queued(e: AgentEntryView, task: Seq<char>, now: Seq<char>) -> AgentEntryView {
    AgentEntryView {
        info: AgentInfoView {
            task,
            status: AgentStatus::Queued,
            cycle_started: now,
            cycle_completed: Seq::empty(),
            ..e.info
        },
        ..e
    }
}

/// The registry with an agent that was built.
pub open spec fn registered(st: SwarmView, spec: AgentSpecView, now: Seq<char>) -> SwarmView {
    SwarmView { agents: st.agents.insert(spec.id, new_entry(spec, now)), ..st }
}

/// The registry with the agent of a definition on its schedule.
pub open spec fn armed(
    st: SwarmView,
    def_id: Seq<char>,
    entry: ScheduleEntryView,
    running: ScheduledView,
) -> SwarmView {
    SwarmView {
        scheduled: st.scheduled.insert(running.agent_id, entry),
        sched_index: st.sched_index.insert(def_id, running),
        ..st
    }
}

/// The registry once an agent was given a task under a submission id.
pub open spec fn published(
    st: SwarmView,
    id: Seq<char>,
    task: Seq<char>,
    submission: Seq<char>,
    now: Seq<char>,
) -> SwarmView {
    SwarmView {
        agents: if st.agents.contains_key(id) {
            st.agents.insert(id, queued(st.agents[id], task, now))
        } else {
            st.agents
        },
        submissions: st.submissions.insert(submission, id),
        ..st
    }
}

/// The registry once one agent was cancelled.
pub open spec fn with_cancelled(st: SwarmView, id: Seq<char>) -> SwarmView {
    if st.agents.contains_key(id) {
        SwarmView { agents: st.agents.insert(id, cancelled(st.agents[id])), ..st }
    } else {
        st
    }
}

/// The registry once all agents were cancelled.
pub open spec fn all_cancelled(st: SwarmView) -> SwarmView {
    SwarmView { agents: st.agents.map_values(|e: AgentEntryView| swept(e)), ..st }
}

/// A change of the registry.
pub enum Change {
    Model { name: Seq<char> },
    Planned { launch: Result<LaunchView, Seq<char>> },
    Registered { spec: AgentSpecView, now: Seq<char> },
    Armed { def_id: Seq<char>, entry: ScheduleEntryView, running: ScheduledView },
    Published { id: Seq<char>, task: Seq<char>, submission: Seq<char>, now: Seq<char> },
    Cancelled { id: Seq<char> },
    AllCancelled,
    Unscheduled { gone: Set<Seq<char>> },
    Event { id: Seq<char>, event: TaskEventView, now: Seq<char> },
}

/// The registry after a change.
pub open spec fn changed(st: SwarmView, c: Change) -> SwarmView {
    match c {
        Change::Model { name } => SwarmView { model: name, ..st },
        Change::Planned { launch } => numbered(st, launch),
        Change::Registered { spec, now } => registered(st, spec, now),
        Change::Armed { def_id, entry, running } => armed(st, def_id, entry, running),
        Change::Published { id, task, submission, now } => published(
            st,
            id,
            task,
            submission,
            now,
        ),
        Change::Cancelled { id } => with_cancelled(st, id),
        Change::AllCancelled => all_cancelled(st),
        Change::Unscheduled { gone } => unscheduled(st, gone),
        Change::Event { id, event, now } => pumped(st, id, event, now),
    }
}

/// The registry after some changes in order.
pub open spec fn after_changes(st: SwarmView, cs: Seq<Change>) -> SwarmView
    decreases cs.len(),
{
    if cs.len() == 0 {
        st
    } else {
        changed(after_changes(st, cs.drop_last()), cs.last())
    }
}

/// An agent that is stopped whatever it does.
pub open spec fn force_cancelled(e: AgentEntryView) -> AgentEntryView {
    AgentEntryView {
        info: AgentInfoView { status: AgentStatus::Cancelled, ..e.info },
        control: AgentControlView { cancelled: true, ..e.control },
    }
}

/// A scheduled agent between two cycles.
pub open spec fn resting(e: AgentEntryView) -> bool {
    e.info.perpetual && e.info.status == AgentStatus::Idle
}

/// An agent that was cancelled by itself: one that rests between cycles is left alone.
pub open spec fn cancelled(e: AgentEntryView) -> AgentEntryView {
    if resting(e) {
        e
    } else {
        force_cancelled(e)
    }
}

/// An agent once all were cancelled: one that rests is left alone, and only one that had
/// something to do is shown as cancelled.
pub open spec fn swept(e: AgentEntryView) -> AgentEntryView {
    if resting(e) {
        e
    } else {
        AgentEntryView {
            info: AgentInfoView {
                status: if e.info.status == AgentStatus::Queued || e.info.status
                    == AgentStatus::Running {
                    AgentStatus::Cancelled
                } else {
                    e.info.status
                },
                ..e.info
            },
            control: AgentControlView { cancelled: true, ..e.control },
        }
    }
}

/// The agent `a` belongs to one of the definitions `gone`.
pub open spec fn stopped_with(st: SwarmView, gone: Set<Seq<char>>, a: Seq<char>) -> bool {
    exists|k: Seq<char>|
        gone.contains(k) && #[trigger] st.sched_index.contains_key(k) && st.sched_index[k].agent_id
            == a
}

/// The registry without the schedules of the definitions `gone`, their agents stopped.
pub open spec fn unscheduled(st: SwarmView, gone: Set<Seq<char>>) -> SwarmView {
    SwarmView {
        sched_index: st.sched_index.remove_keys(gone),
        scheduled: Map::new(
            |a: Seq<char>| st.scheduled.contains_key(a) && !stopped_with(st, gone, a),
            |a: Seq<char>| st.scheduled[a],
        ),
        agents: Map::new(
            |a: Seq<char>| st.agents.contains_key(a),
            |a: Seq<char>|
                if stopped_with(st, gone, a) {
                    force_cancelled(st.agents[a])
                } else {
                    st.agents[a]
                },
        ),
        ..st
    }
}

/// A definition that should run on a schedule: the user's own, with an interval and a
/// task.
pub open spec fn wanted(d: AgentDefView) -> bool {
    !d.builtin && has_schedule(d) && d.task is Some && !text::blank(d.task->0)
}

/// The wanted definitions of a list by id; of two with one id the last counts.
pub open spec fn desired_of(defs: Seq<AgentDefView>) -> Map<Seq<char>, AgentDefView>
    decreases defs.len(),
{
    if defs.len() == 0 {
        Map::empty()
    } else {
        let before = desired_of(defs.drop_last());
        if wanted(defs.last()) {
            before.insert(defs.last().id, defs.last())
        } else {
            before
        }
    }
}

/// All definitions of the teams in their order.
pub open spec fn defs_of(ts: Seq<TeamWithAgentsView>) -> Seq<AgentDefView>
    decreases ts.len(),
{
    if ts.len() == 0 {
        Seq::empty()
    } else {
        defs_of(ts.drop_last()) + ts.last().agents
    }
}

/// The scheduled definitions that are no longer wanted as they run.
pub open spec fn stale(
    index: Map<Seq<char>, ScheduledView>,
    desired: Map<Seq<char>, AgentDefView>,
) -> Set<Seq<char>> {
    Set::new(
        |k: Seq<char>|
            index.contains_key(k) && !(desired.contains_key(k) && signature(desired[k])
                == index[k].sig),
    )
}

/// What happens to a task that an agent was given.
pub enum TaskEvent {
    Started,
    Complete { result: String },
    Error,
    /// Anything else that concerns the task.
    Other,
}

/// What a [`TaskEvent`] says.
pub enum TaskEventView {
    Started,
    Complete { result: Seq<char> },
    Error,
    Other,
}

impl View for TaskEvent {
    type V = TaskEventView;

    open spec fn view(&self) -> TaskEventView {
        match self {
            TaskEvent::Started => TaskEventView::Started,
            TaskEvent::Complete { result } => TaskEventView::Complete { result: result@ },
            TaskEvent::Error => TaskEventView::Error,
            TaskEvent::Other => TaskEventView::Other,
        }
    }
}

/// The status that an event brings.
pub open spec fn status_of(e: TaskEventView) -> Option<AgentStatus> {
    match e {
        TaskEventView::Started => Some(AgentStatus::Running),
        TaskEventView::Complete { .. } => Some(AgentStatus::Done),
        TaskEventView::Error => Some(AgentStatus::Error),
        TaskEventView::Other => None,
    }
}

/// An agent after an event: a cancelled one stays cancelled, and a scheduled one that is
/// done rests.
pub open spec fn advanced(e: AgentEntryView, ev: TaskEventView, now: Seq<char>) -> AgentEntryView {
    match status_of(ev) {
        Some(s) => if e.info.status == AgentStatus::Cancelled {
            e
        } else {
            AgentEntryView {
                info: AgentInfoView {
                    status: if e.info.perpetual && s == AgentStatus::Done {
                        AgentStatus::Idle
                    } else {
                        s
                    },
                    cycle_completed: if s == AgentStatus::Done || s == AgentStatus::Error {
                        now
                    } else {
                        e.info.cycle_completed
                    },
                    ..e.info
                },
                ..e
            }
        },
        None => e,
    }
}

/// The event ends the task.
pub open spec fn ends_task(ev: TaskEventView) -> bool {
    ev is Complete || ev is Error
}

pub open spec fn result_of(ev: TaskEventView) -> Option<Seq<char>> {
    match ev {
        TaskEventView::Complete { result } => Some(result),
        _ => None,
    }
}

/// The record of a finished run.
pub open spec fn record(info: AgentInfoView, id: Seq<char>, ev: TaskEventView, now: Seq<char>) -> HistoricAgentView {
    HistoricAgentView {
        id,
        task: info.task,
        model: info.model,
        status: info.status,
        def_name: info.def_name,
        started: info.started,
        completed: now,
        result: result_of(ev),
    }
}

/// How many finished runs are kept.
pub const HISTORY_LIMIT: usize = 500;

/// The history with one more record: the newest first, the oldest dropped.
pub open spec fn recorded(history: Seq<HistoricAgentView>, r: HistoricAgentView) -> Seq<
    HistoricAgentView,
> {
    let all = seq![r] + history;
    if all.len() > HISTORY_LIMIT {
        all.take(HISTORY_LIMIT as int)
    } else {
        all
    }
}

/// The text inside the envelope that some models put round their reply, given what the
/// reply is as a JSON object.
pub open spec fn opened(t: Seq<char>, fields: Option<Seq<FieldView>>) -> Seq<char> {
    if text::heads(text::trimmed(t), '{') && fields is Some && json::string_at(
        fields->0,
        "response"@,
    ) is Some {
        json::string_at(fields->0, "response"@)->0
    } else {
        t
    }
}

/// The text inside the envelope that some models put round their reply.
pub open spec fn without_envelope(t: Seq<char>) -> Seq<char> {
    opened(t, json::json_object(text::trimmed(t)))
}

/// A task for a human to review.
pub struct ReviewTask {
    pub title: String,
    pub description: String,
    pub tags: String,
    pub body: String,
}

/// What a [`ReviewTask`] says.
#[verifier::ext_equal]
pub struct ReviewTaskView {
    pub title: Seq<char>,
    pub description: Seq<char>,
    pub tags: Seq<char>,
    pub body: Seq<char>,
}

impl View for ReviewTask {
    type V = ReviewTaskView;

    open spec fn view(&self) -> ReviewTaskView {
        ReviewTaskView {
            title: self.title@,
            description: self.description@,
            tags: self.tags@,
            body: self.body@,
        }
    }
}

/// The review task for an agent that ran once and completed its task.
pub open spec fn review_of(info: AgentInfoView, id: Seq<char>, ev: TaskEventView) -> Option<
    ReviewTaskView,
> {
    match ev {
        TaskEventView::Complete { result } => if info.perpetual {
            None
        } else {
            Some(
                ReviewTaskView {
                    title: if info.task.len() == 0 {
                        "Agent "@ + id + " completed"@
                    } else {
                        info.task
                    },
                    description: "Auto-created from agent `"@ + id + "`"@,
                    tags: "agent"@,
                    body: without_envelope(result),
                },
            )
        },
        _ => None,
    }
}

/// What an event led to.
pub struct Pumped {
    pub agent_id: String,
    /// Whether a task ended, so that a scheduled agent starts over.
    pub ended: bool,
    pub review: Option<ReviewTask>,
}

/// What a [`Pumped`] says.
#[verifier::ext_equal]
pub struct PumpedView {
    pub agent_id: Seq<char>,
    pub ended: bool,
    pub review: Option<ReviewTaskView>,
}

impl View for Pumped {
    type V = PumpedView;

    open spec fn view(&self) -> PumpedView {
        PumpedView {
            agent_id: self.agent_id@,
            ended: self.ended,
            review: match self.review {
                Some(r) => Some(r@),
                None => None,
            },
        }
    }
}

/// The registry after an event of agent `id`.
pub open spec fn pumped(st: SwarmView, id: Seq<char>, ev: TaskEventView, now: Seq<char>) -> SwarmView {
    if st.agents.contains_key(id) {
        let e = advanced(st.agents[id], ev, now);
        SwarmView {
            agents: st.agents.insert(id, e),
            history: if ends_task(ev) {
                recorded(st.history, record(e.info, id, ev, now))
            } else {
                st.history
            },
            ..st
        }
    } else {
        st
    }
}

/// What an event of agent `id` leads to.
pub open spec fn pump_outcome(st: SwarmView, id: Seq<char>, ev: TaskEventView, now: Seq<char>) -> PumpedView {
    PumpedView {
        agent_id: id,
        ended: ends_task(ev),
        review: if st.agents.contains_key(id) {
            review_of(advanced(st.agents[id], ev, now).info, id, ev)
        } else {
            None
        },
    }
}

/// How many nanoseconds a scheduled agent waits for its next cycle: until its interval
/// has passed since the cycle started, or the whole interval where that is not known.
pub open spec fn pause(interval_secs: nat, started: Option<(i64, u32)>, now: (i64, u32)) -> int {
    let interval = interval_secs * time::NANOS;
    match started {
        None => interval,
        Some(s) => {
            let passed = time::instant_nanos(now) - time::instant_nanos(s);
            if passed < 0 {
                interval
            } else if passed < interval {
                interval - passed
            } else {
                0
            }
        },
    }
}

/// When the current cycle of an agent started, as far as it is known.
pub open spec fn cycle_start(st: SwarmView, id: Seq<char>) -> Option<(i64, u32)> {
    if st.agents.contains_key(id) && st.agents[id].info.cycle_started.len() > 0 {
        time::rfc3339_instant(st.agents[id].info.cycle_started)
    } else {
        None
    }
}

/// A frame that tells the dashboard of a change.
#[derive(Clone, Copy, Debug, PartialEq, Eq, Structural)]
pub enum Control {
    Reload,
    TasksChanged,
    ModelChanged,
}

/// The name of a change.
pub open spec fn control_name(c: Control) -> Seq<char> {
    match c {
        Control::Reload => "Reload"@,
        Control::TasksChanged => "TasksChanged"@,
        Control::ModelChanged => "ModelChanged"@,
    }
}

/// An event for the dashboard, as a JSON text.
pub struct SwarmEvent {
    pub agent_id: String,
    pub event: String,
}

/// The frame that tells the dashboard of a change.
pub fn broadcast_control(c: Control) -> (r: SwarmEvent)
    ensures
        r.agent_id@ == "system"@,
        r.event@ == "{\""@ + control_name(c) + "\":{}}"@,
{
    let name = match c {
        Control::Reload => "Reload",
        Control::TasksChanged => "TasksChanged",
        Control::ModelChanged => "ModelChanged",
    };
    let mut event = "{\"".to_string();
    event.append(name);
    event.append("\":{}}");
    SwarmEvent { agent_id: "system".to_string(), event }
}

/// The text inside the envelope, given what the reply is as a JSON object.
pub fn open_envelope(t: &str, fields: &Option<Vec<Field>>) -> (r: String)
    ensures
        r@ == opened(t@, json::object_view(*fields)),
{
    if text::starts_with_char(text::trim(t), '{') {
        if let Some(f) = fields {
            if let Some(resp) = json::get_string(f, "response") {
                return resp;
            }
        }
    }
    t.to_string()
}

/// The text inside the envelope that some models put round their reply.
pub fn strip_json_envelope(t: &str) -> (r: String)
    ensures
        r@ == without_envelope(t@),
{
    let fields = json::read_object(text::trim(t));
    open_envelope(t, &fields)
}

} // verus!
