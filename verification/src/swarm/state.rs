//! The state of the swarm and what changes it.

use crate::swarm::agent::AgentControl;
use crate::swarm::registry;
use crate::swarm::registry::{
    AgentEntry, AgentEntryView, AgentInfo, AgentSpec, AgentStatus, DefSig, HistoricAgent,
    HistoricAgentView, Launch, Pumped, ReviewTask, ScheduleEntry, ScheduleEntryView, Scheduled,
    ScheduledView, SwarmView, TaskEvent,
};
use crate::swarm::teams;
use crate::swarm::teams::{AgentDef, AgentDefView, TeamWithAgents};
use crate::table;
use crate::table::Table;
use crate::text;
use crate::text_facts;
use crate::time;
use vstd::prelude::*;

verus! {

/// The swarm: its agents, their schedules and what they have finished.
pub struct Swarm {
    model: String,
    ollama_url: String,
    agents: Table<AgentEntry>,
    submissions: Table<String>,
    next_id: u64,
    scheduled: Table<ScheduleEntry>,
    sched_index: Table<Scheduled>,
    history: Vec<HistoricAgent>,
}

impl View for Swarm {
    type V = SwarmView;

    closed spec fn view(&self) -> SwarmView {
        SwarmView {
            model: self.model@,
            agents: self.agents@,
            submissions: self.submissions@,
            next_id: self.next_id,
            scheduled: self.scheduled@,
            sched_index: self.sched_index@,
            history: registry::history_views(self.history@),
        }
    }
}

impl Swarm {
    /// The tables hold each name once, and the history is no longer than it may be.
    pub closed spec fn wf(&self) -> bool {
        &&& self.agents.wf()
        &&& self.submissions.wf()
        &&& self.scheduled.wf()
        &&& self.sched_index.wf()
        &&& self.history@.len() <= registry::HISTORY_LIMIT
    }

    /// The address of the model server.
    pub closed spec fn url(&self) -> Seq<char> {
        self.ollama_url@
    }

    pub fn new(model: &str, ollama_url: &str) -> (r: Swarm)
        ensures
            r.wf(),
            r.url() == ollama_url@,
            r@ == (SwarmView {
                model: model@,
                agents: Map::empty(),
                submissions: Map::empty(),
                next_id: 1,
                scheduled: Map::empty(),
                sched_index: Map::empty(),
                history: Seq::empty(),
            }),
    {
        let r = Swarm {
            model: model.to_string(),
            ollama_url: ollama_url.to_string(),
            agents: Table::new(),
            submissions: Table::new(),
            next_id: 1,
            scheduled: Table::new(),
            sched_index: Table::new(),
            history: Vec::new(),
        };
        assert(r@.history =~= Seq::<HistoricAgentView>::empty());
        r
    }

    pub fn model(&self) -> (r: &str)
        ensures
            r@ == self@.model,
    {
        self.model.as_str()
    }

    pub fn ollama_url(&self) -> (r: &str)
        ensures
            r@ == self.url(),
    {
        self.ollama_url.as_str()
    }

    /// Makes `new_model` the default for agents that name none.
    pub fn set_model(&mut self, new_model: &str)
        requires
            old(self).wf(),
        ensures
            final(self).wf(),
            final(self).url() == old(self).url(),
            final(self)@ == registry::changed(
                old(self)@,
                registry::Change::Model { name: new_model@ },
            ),
    {
        self.model = new_model.to_string();
    }

    /// Whether an agent with this model can share the default provider.
    pub fn shares_provider(&self, model: &str) -> (r: bool)
        ensures
            r == (model@ == self@.model),
    {
        text::same(model, self.model.as_str())
    }

    /// The agent with an id.
    pub fn get(&self, id: &str) -> (r: Option<AgentInfo>)
        requires
            self.wf(),
        ensures
            match r {
                Some(i) => self@.agents.contains_key(id@) && i@ == self@.agents[id@].info,
                None => !self@.agents.contains_key(id@),
            },
    {
        match self.agents.get(id) {
            Some(e) => Some(e.info.clone()),
            None => None,
        }
    }

    /// What controls the agent with an id.
    pub fn control(&self, id: &str) -> (r: Option<AgentControl>)
        requires
            self.wf(),
        ensures
            match r {
                Some(c) => self@.agents.contains_key(id@) && c@ == self@.agents[id@].control,
                None => !self@.agents.contains_key(id@),
            },
    {
        match self.agents.get(id) {
            Some(e) => Some(e.control.clone()),
            None => None,
        }
    }

    /// All agents, each once.
    pub fn list(&self) -> (r: Vec<AgentInfo>)
        requires
            self.wf(),
        ensures
            r.len() == self@.agents.len(),
            exists|ids: Seq<Seq<char>>|
                #![auto]
                ids.len() == r.len() && ids.no_duplicates() && (forall|i: int|
                    0 <= i < ids.len() ==> self@.agents.contains_key(ids[i]) && r[i]@
                        == self@.agents[ids[i]].info),
    {
        let mut out: Vec<AgentInfo> = Vec::new();
        let ghost rows = self.agents.row_views();
        proof {
            self.agents.lemma_rows();
            table::lemma_map_of(rows);
        }
        let n = self.agents.len();
        let mut i: usize = 0;
        while i < n
            invariant
                i <= n,
                n == rows.len(),
                rows == self.agents.row_views(),
                out.len() == i,
                forall|j: int| 0 <= j < i ==> (#[trigger] out@[j])@ == rows[j].1.info,
            decreases n - i,
        {
            let (_, e) = self.agents.row(i);
            out.push(e.info.clone());
            i += 1;
        }
        proof {
            let ids = Seq::new(rows.len(), |j: int| rows[j].0);
            assert(ids.no_duplicates()) by {
                assert forall|a: int, b: int|
                    0 <= a < ids.len() && 0 <= b < ids.len() && a != b implies ids[a] != ids[b] by {
                    if a < b {
                        assert(rows[a].0 != rows[b].0);
                    } else {
                        assert(rows[b].0 != rows[a].0);
                    }
                }
            }
            assert forall|j: int| 0 <= j < ids.len() implies self@.agents.contains_key(ids[j])
                && out[j]@ == self@.agents[ids[j]].info by {
                assert(rows[j].0 == ids[j]);
                assert(out@[j]@ == rows[j].1.info);
            }
        }
        out
    }

    /// What has been finished, the newest first.
    pub fn history(&self) -> (r: &Vec<HistoricAgent>)
        ensures
            registry::history_views(r@) == self@.history,
    {
        &self.history
    }

    fn take_number(&mut self) -> (r: u64)
        requires
            old(self).wf(),
        ensures
            final(self).wf(),
            final(self).url() == old(self).url(),
            r == old(self)@.next_id,
            final(self)@ == (SwarmView {
                next_id: registry::after(old(self)@.next_id),
                ..old(self)@
            }),
    {
        let n = self.next_id;
        self.next_id = if n == u64::MAX {
            0
        } else {
            n + 1
        };
        n
    }

    fn spec_for(&self, def: &AgentDef, id: String, perpetual: bool) -> (r: AgentSpec)
        ensures
            r@ == registry::spec_of(def@, id@, self@.model, perpetual),
    {
        AgentSpec {
            id,
            role: crate::swarm::agent::Role::Coder,
            policy: def.policy,
            prompt: def.instructions.clone(),
            allowed_tools: text::copy_strings(&def.tools),
            memory_window: match def.memory_window {
                Some(n) => n,
                None => 20,
            },
            max_turns: match def.max_turns {
                Some(n) => n,
                None => 10,
            },
            model_label: match &def.model {
                Some(m) => m.clone(),
                None => self.model.clone(),
            },
            perpetual,
            def_name: Some(def.name.clone()),
        }
    }

    /// Plans the scheduled agent of a definition. A task that is given and not blank takes
    /// the place of the definition's own.
    pub fn start_schedule(&mut self, def: &AgentDef, task_override: Option<String>) -> (r: Result<
        Launch,
        String,
    >)
        requires
            old(self).wf(),
            def.schedule_mins matches Some(m) ==> m * 60 <= u64::MAX,
        ensures
            final(self).wf(),
            final(self).url() == old(self).url(),
            registry::launch_view(r) == registry::schedule_launch(
                old(self)@,
                def@,
                text::option_view(task_override),
            ),
            final(self)@ == registry::numbered(old(self)@, registry::launch_view(r)),
    {
        let mins = match def.schedule_mins {
            Some(m) => m,
            None => {
                return Err("start_schedule: no schedule_mins".to_string());
            },
        };
        let given: Option<String> = match task_override {
            Some(t) => {
                if text::is_blank(t.as_str()) {
                    None
                } else {
                    Some(t)
                }
            },
            None => None,
        };
        let task: String = match given {
            Some(t) => t,
            None => match &def.task {
                Some(t) => t.clone(),
                None => String::new(),
            },
        };
        assert(task@ == registry::recurring_task(def@, text::option_view(task_override)));
        if mins == 0 || text::is_blank(task.as_str()) {
            return Err("start_schedule: mins=0 or task empty".to_string());
        }
        let n = self.take_number();
        let mut id = "sched-".to_string();
        id.append(def.id.as_str());
        id.append("-");
        id.append(text::to_decimal(n).as_str());
        let spec = self.spec_for(def, id, true);
        let sig = registry::def_sig(def);
        Ok(Launch { spec, task, schedule: Some((mins * 60, sig)) })
    }

    /// Plans the agent of a definition with a task. One that is scheduled runs again and
    /// again; any other runs once.
    pub fn spawn_from_def(&mut self, def: &AgentDef, task: String) -> (r: Result<Launch, String>)
        requires
            old(self).wf(),
            def.schedule_mins matches Some(m) ==> m * 60 <= u64::MAX,
        ensures
            final(self).wf(),
            final(self).url() == old(self).url(),
            registry::launch_view(r) == registry::spawn_launch(old(self)@, def@, task@),
            final(self)@ == registry::numbered(old(self)@, registry::launch_view(r)),
    {
        let scheduled = match def.schedule_mins {
            Some(m) => m > 0,
            None => false,
        };
        if scheduled {
            return self.start_schedule(def, Some(task));
        }
        let n = self.take_number();
        let id = text::cat("agent-", text::to_decimal(n).as_str());
        let spec = self.spec_for(def, id, false);
        Ok(Launch { spec, task, schedule: None })
    }

    /// Puts an agent that was built in the registry.
    pub fn register(&mut self, spec: &AgentSpec, now: &str)
        requires
            old(self).wf(),
        ensures
            final(self).wf(),
            final(self).url() == old(self).url(),
            final(self)@ == registry::registered(old(self)@, spec@, now@),
    {
        let info = AgentInfo {
            id: spec.id.clone(),
            task: String::new(),
            model: spec.model_label.clone(),
            policy: spec.policy,
            status: AgentStatus::Queued,
            role: spec.role,
            perpetual: spec.perpetual,
            def_name: text::copy_option(&spec.def_name),
            started: now.to_string(),
            cycle_started: now.to_string(),
            cycle_completed: String::new(),
        };
        let entry = AgentEntry { info, control: AgentControl::new(spec.policy) };
        assert(entry@ =~= registry::new_entry(spec@, now@));
        self.agents.insert(spec.id.clone(), entry);
    }

    /// Puts the agent of a definition on its schedule.
    pub fn arm(
        &mut self,
        def_id: &str,
        agent_id: &str,
        interval_secs: u64,
        task: &str,
        sig: DefSig,
    )
        requires
            old(self).wf(),
        ensures
            final(self).wf(),
            final(self).url() == old(self).url(),
            final(self)@ == registry::armed(
                old(self)@,
                def_id@,
                (ScheduleEntryView { interval_secs, task: task@ }),
                (ScheduledView { agent_id: agent_id@, sig: sig@ }),
            ),
    {
        self.scheduled.insert(
            agent_id.to_string(),
            ScheduleEntry { interval_secs, task: task.to_string() },
        );
        self.sched_index.insert(
            def_id.to_string(),
            Scheduled { agent_id: agent_id.to_string(), sig },
        );
    }

    /// Gives an agent a task under a submission id.
    pub fn published(&mut self, id: &str, task: &str, submission: &str, now: &str)
        requires
            old(self).wf(),
        ensures
            final(self).wf(),
            final(self).url() == old(self).url(),
            final(self)@ == registry::published(old(self)@, id@, task@, submission@, now@),
    {
        if let Some(i) = self.agents.position(id) {
            let (_, e) = self.agents.row(i);
            let mut entry = e.clone();
            entry.info.task = task.to_string();
            entry.info.status = AgentStatus::Queued;
            entry.info.cycle_started = now.to_string();
            entry.info.cycle_completed = String::new();
            assert(entry@ =~= registry::queued(old(self)@.agents[id@], task@, now@));
            self.agents.set_row(i, entry);
        }
        self.submissions.insert(submission.to_string(), id.to_string());
    }

    /// Cancels an agent, unless it rests between two cycles; says whether there is one.
    pub fn cancel(&mut self, id: &str) -> (r: bool)
        requires
            old(self).wf(),
        ensures
            final(self).wf(),
            final(self).url() == old(self).url(),
            r == old(self)@.agents.contains_key(id@),
            final(self)@ == registry::with_cancelled(old(self)@, id@),
    {
        match self.agents.position(id) {
            Some(i) => {
                let (_, e) = self.agents.row(i);
                if e.info.perpetual && e.info.status == AgentStatus::Idle {
                    assert(self@.agents =~= old(self)@.agents.insert(
                        id@,
                        registry::cancelled(old(self)@.agents[id@]),
                    ));
                    return true;
                }
                let mut entry = e.clone();
                entry.control.cancel();
                entry.info.status = AgentStatus::Cancelled;
                assert(entry@ =~= registry::cancelled(old(self)@.agents[id@]));
                self.agents.set_row(i, entry);
                true
            },
            None => false,
        }
    }

    /// Cancels every agent that does not rest between two cycles.
    pub fn cancel_all(&mut self)
        requires
            old(self).wf(),
        ensures
            final(self).wf(),
            final(self).url() == old(self).url(),
            final(self)@ == registry::all_cancelled(old(self)@),
    {
        let ghost f = |e: AgentEntryView| registry::swept(e);
        let ghost g = |r: (Seq<char>, AgentEntryView)| (r.0, f(r.1));
        let ghost rows = self.agents.row_views();
        let n = self.agents.len();
        let mut i: usize = 0;
        proof {
            self.agents.lemma_rows();
        }
        while i < n
            invariant
                i <= n,
                n == rows.len(),
                self.wf(),
                self.agents.row_views().len() == n,
                f == (|e: AgentEntryView| registry::swept(e)),
                g == (|r: (Seq<char>, AgentEntryView)| (r.0, f(r.1))),
                forall|j: int| 0 <= j < i ==> #[trigger] self.agents.row_views()[j] == g(rows[j]),
                forall|j: int| i <= j < n ==> #[trigger] self.agents.row_views()[j] == rows[j],
                self.url() == old(self).url(),
                self@ == (SwarmView { agents: self@.agents, ..old(self)@ }),
            decreases n - i,
        {
            let (_, e) = self.agents.row(i);
            assert((self.agents.row_views()[i as int]) == rows[i as int]);
            let mut entry = e.clone();
            if !(entry.info.perpetual && entry.info.status == AgentStatus::Idle) {
                entry.control.cancel();
                if entry.info.status == AgentStatus::Queued || entry.info.status
                    == AgentStatus::Running {
                    entry.info.status = AgentStatus::Cancelled;
                }
            }
            assert(entry@ =~= registry::swept(rows[i as int].1));
            self.agents.set_row(i, entry);
            i += 1;
        }
        proof {
            self.agents.lemma_rows();
            assert(self.agents.row_views() =~= rows.map_values(g));
            table::lemma_map_of_values(rows, f);
        }
    }

    /// Stops the scheduled agent of a definition.
    pub fn remove_schedule(&mut self, def_id: &str)
        requires
            old(self).wf(),
        ensures
            final(self).wf(),
            final(self).url() == old(self).url(),
            final(self)@ == registry::unscheduled(old(self)@, set![def_id@]),
    {
        let ghost before = self@;
        let ghost gone = set![def_id@];
        let entry = match self.sched_index.remove(def_id) {
            Some(e) => e,
            None => {
                proof {
                    assert forall|a: Seq<char>| !registry::stopped_with(before, gone, a) by {}
                    assert(self@.agents =~= registry::unscheduled(before, gone).agents);
                    assert(self@.scheduled =~= registry::unscheduled(before, gone).scheduled);
                    assert(self@.sched_index =~= registry::unscheduled(before, gone).sched_index);
                }
                return ;
            },
        };
        let ghost agent = entry.agent_id@;
        proof {
            assert(before.sched_index.contains_key(def_id@));
            assert forall|a: Seq<char>| registry::stopped_with(before, gone, a) == (a == agent) by {
                if a == agent {
                    assert(gone.contains(def_id@));
                }
            }
        }
        self.scheduled.remove(entry.agent_id.as_str());
        if let Some(i) = self.agents.position(entry.agent_id.as_str()) {
            let (_, e) = self.agents.row(i);
            let mut changed = e.clone();
            changed.control.cancel();
            changed.info.status = AgentStatus::Cancelled;
            assert(changed@ =~= registry::force_cancelled(before.agents[agent]));
            self.agents.set_row(i, changed);
        }
        proof {
            assert(self@.agents =~= registry::unscheduled(before, gone).agents);
            assert(self@.scheduled =~= registry::unscheduled(before, gone).scheduled);
            assert(self@.sched_index =~= registry::unscheduled(before, gone).sched_index);
        }
    }
}

/// The definitions that should run on a schedule, by id.
fn desired_defs(teams: &Vec<TeamWithAgents>) -> (r: Table<AgentDef>)
    ensures
        r.wf(),
        r@ == registry::desired_of(registry::defs_of(teams::team_views(teams@))),
{
    let mut out: Table<AgentDef> = Table::new();
    let ghost ts = teams::team_views(teams@);
    let mut i: usize = 0;
    assert(ts.take(0) =~= Seq::<teams::TeamWithAgentsView>::empty());
    while i < teams.len()
        invariant
            i <= teams.len(),
            ts == teams::team_views(teams@),
            out.wf(),
            out@ == registry::desired_of(registry::defs_of(ts.take(i as int))),
        decreases teams.len() - i,
    {
        let agents = &teams[i].agents;
        let ghost head = registry::defs_of(ts.take(i as int));
        let ghost here = teams::def_views(agents@);
        proof {
            assert(ts.take(i + 1).drop_last() =~= ts.take(i as int));
            assert(ts.take(i + 1).last() == teams[i as int]@);
            assert(head + here.take(0) =~= head);
        }
        let mut j: usize = 0;
        while j < agents.len()
            invariant
                j <= agents.len(),
                here == teams::def_views(agents@),
                out.wf(),
                out@ == registry::desired_of(head + here.take(j as int)),
            decreases agents.len() - j,
        {
            let d = &agents[j];
            proof {
                let upto = head + here.take(j + 1);
                assert(upto.drop_last() =~= head + here.take(j as int));
                assert(upto.last() == d@);
            }
            let timed = match d.schedule_mins {
                Some(n) => n > 0,
                None => false,
            };
            let has_task = match &d.task {
                Some(t) => !text::is_blank(t.as_str()),
                None => false,
            };
            if !d.builtin && timed && has_task {
                out.insert(d.id.clone(), d.clone());
            }
            j += 1;
        }
        assert(here.take(j as int) =~= here);
        i += 1;
    }
    assert(ts.take(i as int) =~= ts);
    out
}

/// Stopping the schedules of some definitions and then of one more is stopping those of
/// all of them.
proof fn lemma_unscheduled(st: SwarmView, gone: Set<Seq<char>>, k: Seq<char>)
    requires
        !gone.contains(k),
    ensures
        registry::unscheduled(registry::unscheduled(st, gone), set![k]) == registry::unscheduled(
            st,
            gone.insert(k),
        ),
{
    let mid = registry::unscheduled(st, gone);
    let all = gone.insert(k);
    let one = set![k];
    assert forall|a: Seq<char>|
        registry::stopped_with(st, all, a) == (registry::stopped_with(st, gone, a)
            || registry::stopped_with(mid, one, a)) by {
        if registry::stopped_with(st, all, a) {
            let x = choose|x: Seq<char>|
                all.contains(x) && #[trigger] st.sched_index.contains_key(x)
                    && st.sched_index[x].agent_id == a;
            if gone.contains(x) {
                assert(registry::stopped_with(st, gone, a));
            } else {
                assert(x == k);
                assert(mid.sched_index.contains_key(k));
                assert(one.contains(k));
            }
        }
        if registry::stopped_with(st, gone, a) {
            let x = choose|x: Seq<char>|
                gone.contains(x) && #[trigger] st.sched_index.contains_key(x)
                    && st.sched_index[x].agent_id == a;
            assert(all.contains(x));
        }
        if registry::stopped_with(mid, one, a) {
            let x = choose|x: Seq<char>|
                one.contains(x) && #[trigger] mid.sched_index.contains_key(x)
                    && mid.sched_index[x].agent_id == a;
            assert(all.contains(x));
            assert(st.sched_index.contains_key(x));
        }
    }
    let a = registry::unscheduled(mid, one);
    let b = registry::unscheduled(st, all);
    assert(a.sched_index =~= b.sched_index);
    assert(a.scheduled =~= b.scheduled);
    assert(a.agents =~= b.agents);
}

/// A wanted definition stands under its own id.
proof fn lemma_desired_ids(defs: Seq<AgentDefView>)
    ensures
        forall|k: Seq<char>| #[trigger]
            registry::desired_of(defs).contains_key(k) ==> registry::desired_of(defs)[k].id == k
                && registry::wanted(registry::desired_of(defs)[k]),
    decreases defs.len(),
{
    if defs.len() > 0 {
        lemma_desired_ids(defs.drop_last());
        assert forall|k: Seq<char>| #[trigger] registry::desired_of(defs).contains_key(k) implies
            registry::desired_of(defs)[k].id == k && registry::wanted(
            registry::desired_of(defs)[k],
        ) by {
            let before = registry::desired_of(defs.drop_last());
            if !(registry::wanted(defs.last()) && defs.last().id == k) {
                assert(before.contains_key(k));
            }
        }
    }
}

impl Swarm {
    /// Brings the schedules in line with the saved definitions: stops those that are gone
    /// or have changed, and says which definitions are to be started.
    pub fn resync_schedules(&mut self, teams: &Vec<TeamWithAgents>) -> (r: Vec<AgentDef>)
        requires
            old(self).wf(),
        ensures
            final(self).wf(),
            final(self).url() == old(self).url(),
            ({
                let desired = registry::desired_of(registry::defs_of(teams::team_views(teams@)));
                let out = teams::def_views(r@);
                &&& final(self)@ == registry::unscheduled(
                    old(self)@,
                    registry::stale(old(self)@.sched_index, desired),
                )
                &&& forall|i: int|
                    0 <= i < out.len() ==> desired.contains_key((#[trigger] out[i]).id)
                        && desired[out[i].id] == out[i] && !final(self)@.sched_index.contains_key(out[i].id)
                &&& forall|k: Seq<char>| #[trigger]
                    desired.contains_key(k) && !final(self)@.sched_index.contains_key(k)
                        ==> exists|i: int| 0 <= i < out.len() && #[trigger] out[i].id == k
                &&& forall|i: int, j: int|
                    0 <= i < j < out.len() ==> #[trigger] out[i].id != #[trigger] out[j].id
            }),
    {
        let desired = desired_defs(teams);
        let ghost before = self@;
        let ghost want = desired@;
        let ghost all_stale = registry::stale(before.sched_index, want);
        // The definitions whose schedules are to be stopped.
        let mut stale: Vec<String> = Vec::new();
        let ghost rows = self.sched_index.row_views();
        proof {
            self.sched_index.lemma_rows();
            table::lemma_map_of(rows);
        }
        let n = self.sched_index.len();
        let mut i: usize = 0;
        while i < n
            invariant
                i <= n,
                n == rows.len(),
                rows == self.sched_index.row_views(),
                desired.wf(),
                want == desired@,
                self@ == before,
                before.sched_index == self.sched_index@,
                all_stale == registry::stale(before.sched_index, want),
                table::distinct(rows),
                forall|j: int|
                    0 <= j < rows.len() ==> before.sched_index.contains_key(#[trigger] rows[j].0)
                        && before.sched_index[rows[j].0] == rows[j].1,
                forall|j: int|
                    0 <= j < stale.len() ==> all_stale.contains(#[trigger] stale@[j]@),
                forall|j: int|
                    0 <= j < i && all_stale.contains(#[trigger] rows[j].0) ==> text::views(
                        stale@,
                    ).contains(rows[j].0),
                forall|a: int, b: int|
                    0 <= a < b < stale.len() ==> #[trigger] stale@[a]@ != #[trigger] stale@[b]@,
                forall|a: int|
                    0 <= a < stale.len() ==> exists|j: int|
                        0 <= j < i && #[trigger] rows[j].0 == #[trigger] stale@[a]@,
            decreases n - i,
        {
            let (k, s) = self.sched_index.row(i);
            assert(rows[i as int].0 == k@);
            let keep = match desired.get(k.as_str()) {
                Some(d) => registry::same_sig(&registry::def_sig(d), &s.sig),
                None => false,
            };
            assert(all_stale.contains(k@) == !keep);
            let ghost old_stale = stale@;
            if !keep {
                stale.push(k.clone());
                proof {
                    assert(text::views(stale@)[stale.len() - 1] == k@);
                    assert forall|a: int, b: int|
                        0 <= a < b < stale.len() implies #[trigger] stale@[a]@
                            != #[trigger] stale@[b]@ by {
                        assert(stale@[a] == old_stale[a]);
                        if b < old_stale.len() {
                            assert(stale@[b] == old_stale[b]);
                        } else {
                            let j = choose|j: int|
                                0 <= j < i && #[trigger] rows[j].0 == old_stale[a]@;
                            assert(rows[j].0 != rows[i as int].0);
                        }
                    }
                    assert forall|a: int| 0 <= a < stale.len() implies exists|j: int|
                        0 <= j < i + 1 && #[trigger] rows[j].0 == #[trigger] stale@[a]@ by {
                        if a < old_stale.len() {
                            assert(stale@[a] == old_stale[a]);
                            let j = choose|j: int|
                                0 <= j < i && #[trigger] rows[j].0 == old_stale[a]@;
                            assert(rows[j].0 == stale@[a]@);
                        } else {
                            assert(rows[i as int].0 == stale@[a]@);
                        }
                    }
                }
            }
            proof {
                assert forall|j: int|
                    0 <= j < i + 1 && all_stale.contains(#[trigger] rows[j].0) implies text::views(
                    stale@,
                ).contains(rows[j].0) by {
                    if j < i {
                        assert(text::views(old_stale).contains(rows[j].0));
                        let a = choose|a: int|
                            0 <= a < text::views(old_stale).len() && text::views(old_stale)[a]
                                == rows[j].0;
                        assert(text::views(stale@)[a] == rows[j].0);
                    }
                }
                assert forall|j: int| 0 <= j < stale.len() implies all_stale.contains(
                    #[trigger] stale@[j]@,
                ) by {
                    if j < old_stale.len() {
                        assert(stale@[j] == old_stale[j]);
                    }
                }
            }
            i += 1;
        }
        // Stop them one by one.
        let ghost names = text::views(stale@);
        let mut j: usize = 0;
        proof {
            assert(names.take(0).to_set() =~= Set::<Seq<char>>::empty());
            lemma_unscheduled_none(before);
        }
        while j < stale.len()
            invariant
                j <= stale.len(),
                names == text::views(stale@),
                self.wf(),
                self.url() == old(self).url(),
                self@ == registry::unscheduled(before, names.take(j as int).to_set()),
                forall|a: int, b: int|
                    0 <= a < b < stale.len() ==> #[trigger] stale@[a]@ != #[trigger] stale@[b]@,
            decreases stale.len() - j,
        {
            let ghost done = names.take(j as int).to_set();
            self.remove_schedule(stale[j].as_str());
            proof {
                let k = names[j as int];
                assert(!done.contains(k)) by {
                    if done.contains(k) {
                        let a = choose|a: int|
                            0 <= a < names.take(j as int).len() && names.take(j as int)[a] == k;
                        assert(stale@[a]@ != stale@[j as int]@);
                    }
                }
                lemma_unscheduled(before, done, k);
                assert(names.take(j + 1) =~= names.take(j as int).push(k));
                assert(names.take(j + 1).to_set() =~= done.insert(k)) by {
                    let longer = names.take(j + 1);
                    assert forall|x: Seq<char>| longer.to_set().contains(x) == done.insert(
                        k,
                    ).contains(x) by {
                        if done.contains(x) {
                            let a = choose|a: int|
                                0 <= a < names.take(j as int).len() && names.take(j as int)[a] == x;
                            assert(longer[a] == x);
                        }
                        if x == k {
                            assert(longer[j as int] == k);
                        }
                        if longer.contains(x) {
                            let a = choose|a: int| 0 <= a < longer.len() && longer[a] == x;
                            if a < j {
                                assert(names.take(j as int)[a] == x);
                            }
                        }
                    }
                }
            }
            j += 1;
        }
        proof {
            assert(names.take(j as int) =~= names);
            assert(names.to_set() =~= all_stale) by {
                assert forall|x: Seq<char>| names.to_set().contains(x) == all_stale.contains(x) by {
                    if names.contains(x) {
                        let a = choose|a: int| 0 <= a < names.len() && names[a] == x;
                        assert(all_stale.contains(stale@[a]@));
                    }
                    if all_stale.contains(x) {
                        assert(before.sched_index.contains_key(x));
                        assert(table::map_of(rows).contains_key(x));
                        let a = choose|a: int| 0 <= a < rows.len() && #[trigger] rows[a].0 == x;
                        assert(text::views(stale@).contains(rows[a].0));
                    }
                }
            }
        }
        proof {
            lemma_desired_ids(registry::defs_of(teams::team_views(teams@)));
        }
        self.to_start(&desired)
    }

    /// The definitions that should run and do not.
    fn to_start(&self, desired: &Table<AgentDef>) -> (r: Vec<AgentDef>)
        requires
            self.wf(),
            desired.wf(),
            forall|k: Seq<char>| #[trigger] desired@.contains_key(k) ==> desired@[k].id == k,
        ensures
            ({
                let out = teams::def_views(r@);
                &&& forall|i: int|
                    0 <= i < out.len() ==> desired@.contains_key((#[trigger] out[i]).id)
                        && desired@[out[i].id] == out[i] && !self@.sched_index.contains_key(
                        out[i].id,
                    )
                &&& forall|k: Seq<char>| #[trigger]
                    desired@.contains_key(k) && !self@.sched_index.contains_key(k)
                        ==> exists|i: int| 0 <= i < out.len() && #[trigger] out[i].id == k
                &&& forall|i: int, j: int|
                    0 <= i < j < out.len() ==> #[trigger] out[i].id != #[trigger] out[j].id
            }),
    {
        let mut out: Vec<AgentDef> = Vec::new();
        let ghost rows = desired.row_views();
        proof {
            desired.lemma_rows();
            table::lemma_map_of(rows);
        }
        let n = desired.len();
        let mut i: usize = 0;
        while i < n
            invariant
                i <= n,
                n == rows.len(),
                self.wf(),
                rows == desired.row_views(),
                table::distinct(rows),
                forall|j: int|
                    0 <= j < rows.len() ==> desired@.contains_key(#[trigger] rows[j].0)
                        && desired@[rows[j].0] == rows[j].1,
                forall|k: Seq<char>| #[trigger] desired@.contains_key(k) ==> desired@[k].id == k,
                forall|a: int|
                    0 <= a < out.len() ==> exists|j: int|
                        0 <= j < i && #[trigger] rows[j].1 == (#[trigger] out@[a])@
                            && !self@.sched_index.contains_key(rows[j].0),
                forall|j: int|
                    0 <= j < i && !self@.sched_index.contains_key(#[trigger] rows[j].0)
                        ==> exists|a: int|
                        0 <= a < out.len() && (#[trigger] out@[a])@.id == rows[j].0,
                forall|a: int, b: int|
                    0 <= a < b < out.len() ==> (#[trigger] out@[a])@.id != (#[trigger] out@[b])@.id,
            decreases n - i,
        {
            let (k, d) = desired.row(i);
            assert(rows[i as int].0 == k@ && rows[i as int].1 == d@);
            let ghost before = out@;
            if !self.sched_index.contains(k.as_str()) {
                out.push(d.clone());
                proof {
                    assert forall|a: int, b: int| 0 <= a < b < out.len() implies (
                    #[trigger] out@[a])@.id != (#[trigger] out@[b])@.id by {
                        assert(out@[a] == before[a]);
                        if b < before.len() {
                            assert(out@[b] == before[b]);
                        } else {
                            let j = choose|j: int|
                                0 <= j < i && #[trigger] rows[j].1 == before[a]@
                                    && !self@.sched_index.contains_key(rows[j].0);
                            assert(rows[j].0 != rows[i as int].0);
                            assert(rows[j].1.id == rows[j].0);
                        }
                    }
                    assert forall|a: int| 0 <= a < out.len() implies exists|j: int|
                        0 <= j < i + 1 && #[trigger] rows[j].1 == (#[trigger] out@[a])@
                            && !self@.sched_index.contains_key(rows[j].0) by {
                        if a < before.len() {
                            assert(out@[a] == before[a]);
                            let j = choose|j: int|
                                0 <= j < i && #[trigger] rows[j].1 == before[a]@
                                    && !self@.sched_index.contains_key(rows[j].0);
                            assert(rows[j].1 == out@[a]@);
                        } else {
                            assert(rows[i as int].1 == out@[a]@);
                        }
                    }
                    assert(out@[out.len() - 1]@.id == rows[i as int].0);
                }
            }
            proof {
                assert forall|j: int|
                    0 <= j < i + 1 && !self@.sched_index.contains_key(
                        #[trigger] rows[j].0,
                    ) implies exists|a: int|
                    0 <= a < out.len() && (#[trigger] out@[a])@.id == rows[j].0 by {
                    if j < i {
                        let a = choose|a: int|
                            0 <= a < before.len() && (#[trigger] before[a])@.id == rows[j].0;
                        assert(out@[a] == before[a]);
                    } else {
                        assert(out@[out.len() - 1]@.id == rows[j].0);
                    }
                }
            }
            i += 1;
        }
        proof {
            let v = teams::def_views(out@);
            assert forall|a: int| 0 <= a < v.len() implies desired@.contains_key((#[trigger] v[a]).id)
                && desired@[v[a].id] == v[a] && !self@.sched_index.contains_key(v[a].id) by {
                assert(out@[a]@ == v[a]);
                let j = choose|j: int|
                    0 <= j < n && #[trigger] rows[j].1 == out@[a]@
                        && !self@.sched_index.contains_key(rows[j].0);
                assert(desired@.contains_key(rows[j].0));
            }
            assert forall|k: Seq<char>| #[trigger]
                desired@.contains_key(k) && !self@.sched_index.contains_key(k) implies exists|a:
                int|
                0 <= a < v.len() && #[trigger] v[a].id == k by {
                let j = choose|j: int| 0 <= j < rows.len() && #[trigger] rows[j].0 == k;
                let a = choose|a: int| 0 <= a < out.len() && (#[trigger] out@[a])@.id == rows[j].0;
                assert(v[a].id == k);
            }
            assert forall|a: int, b: int| 0 <= a < b < v.len() implies #[trigger] v[a].id
                != #[trigger] v[b].id by {
                assert(out@[a]@.id != out@[b]@.id);
            }
        }
        out
    }

    /// Takes in what happened to a submitted task and says what it leads to; nothing where no
    /// agent was given the task. A cancelled agent stays cancelled.
    pub fn on_event(&mut self, submission: &str, ev: TaskEvent, now: &str) -> (r: Option<Pumped>)
        requires
            old(self).wf(),
        ensures
            final(self).wf(),
            final(self).url() == old(self).url(),
            match r {
                None => !old(self)@.submissions.contains_key(submission@) && final(self)@ == old(self)@,
                Some(p) => {
                    &&& old(self)@.submissions.contains_key(submission@)
                    &&& p@ == registry::pump_outcome(
                        old(self)@,
                        old(self)@.submissions[submission@],
                        ev@,
                        now@,
                    )
                    &&& final(self)@ == registry::pumped(
                        old(self)@,
                        old(self)@.submissions[submission@],
                        ev@,
                        now@,
                    )
                },
            },
    {
        let id = match self.submissions.get(submission) {
            Some(id) => id.clone(),
            None => {
                return None;
            },
        };
        let ended = match &ev {
            TaskEvent::Complete { .. } => true,
            TaskEvent::Error => true,
            _ => false,
        };
        let at = match self.agents.position(id.as_str()) {
            Some(i) => i,
            None => {
                return Some(Pumped { agent_id: id, ended, review: None });
            },
        };
        let (_, e) = self.agents.row(at);
        let mut entry = e.clone();
        let status: Option<AgentStatus> = match &ev {
            TaskEvent::Started => Some(AgentStatus::Running),
            TaskEvent::Complete { .. } => Some(AgentStatus::Done),
            TaskEvent::Error => Some(AgentStatus::Error),
            TaskEvent::Other => None,
        };
        if let Some(s) = status {
            if entry.info.status != AgentStatus::Cancelled {
                entry.info.status = if entry.info.perpetual && s == AgentStatus::Done {
                    AgentStatus::Idle
                } else {
                    s
                };
                if s == AgentStatus::Done || s == AgentStatus::Error {
                    entry.info.cycle_completed = now.to_string();
                }
            }
        }
        assert(entry@ =~= registry::advanced(old(self)@.agents[id@], ev@, now@));
        let info = entry.info.clone();
        self.agents.set_row(at, entry);
        let mut review: Option<ReviewTask> = None;
        if ended {
            let result: Option<String> = match &ev {
                TaskEvent::Complete { result } => Some(result.clone()),
                _ => None,
            };
            if !info.perpetual {
                if let TaskEvent::Complete { result } = &ev {
                    review = Some(review_task(&info, id.as_str(), result.as_str()));
                }
            }
            let h = HistoricAgent {
                id: id.clone(),
                task: info.task,
                model: info.model,
                status: info.status,
                def_name: info.def_name,
                started: info.started,
                completed: now.to_string(),
                result,
            };
            assert(h@ =~= registry::record(info@, id@, ev@, now@));
            self.remember(h);
        }
        Some(Pumped { agent_id: id, ended, review })
    }

    /// Puts a record in front of the history and drops the oldest where there are too many.
    fn remember(&mut self, h: HistoricAgent)
        requires
            old(self).wf(),
        ensures
            final(self).wf(),
            final(self).url() == old(self).url(),
            final(self)@ == (SwarmView {
                history: registry::recorded(old(self)@.history, h@),
                ..old(self)@
            }),
    {
        let ghost before = registry::history_views(self.history@);
        let ghost v = h@;
        self.history.insert(0, h);
        assert(registry::history_views(self.history@) =~= seq![v] + before);
        if self.history.len() > registry::HISTORY_LIMIT {
            self.history.truncate(registry::HISTORY_LIMIT);
            assert(registry::history_views(self.history@) =~= (seq![v] + before).take(
                registry::HISTORY_LIMIT as int,
            ));
        }
    }

    /// How many nanoseconds a scheduled agent that finished a cycle waits for the next, and
    /// its task; nothing for an agent that is not on a schedule.
    pub fn on_scheduled_done(&self, agent_id: &str, now: (i64, u32)) -> (r: Option<(u128, String)>)
        requires
            self.wf(),
        ensures
            match r {
                Some((wait, task)) => self@.scheduled.contains_key(agent_id@) && task@
                    == self@.scheduled[agent_id@].task && wait == registry::pause(
                    self@.scheduled[agent_id@].interval_secs as nat,
                    registry::cycle_start(self@, agent_id@),
                    now,
                ),
                None => !self@.scheduled.contains_key(agent_id@),
            },
    {
        match self.scheduled.get(agent_id) {
            None => None,
            Some(entry) => {
                let started: Option<(i64, u32)> = match self.agents.get(agent_id) {
                    Some(e) => {
                        if e.info.cycle_started.as_str().is_empty() {
                            None
                        } else {
                            time::parse_rfc3339(e.info.cycle_started.as_str())
                        }
                    },
                    None => None,
                };
                let wait = next_pause(entry.interval_secs, started, now);
                Some((wait, entry.task.clone()))
            },
        }
    }

    /// Whether a scheduled agent that has waited starts its next cycle: it must still be on
    /// its schedule and not cancelled.
    pub fn wakes(&self, agent_id: &str) -> (r: bool)
        requires
            self.wf(),
        ensures
            r == (self@.agents.contains_key(agent_id@) && self@.agents[agent_id@].info.status
                != AgentStatus::Cancelled && self@.scheduled.contains_key(agent_id@)),
    {
        let alive = match self.agents.get(agent_id) {
            Some(e) => e.info.status != AgentStatus::Cancelled,
            None => false,
        };
        alive && self.scheduled.contains(agent_id)
    }
}

/// How many nanoseconds are left of an interval that began at `started`.
pub fn next_pause(interval_secs: u64, started: Option<(i64, u32)>, now: (i64, u32)) -> (r: u128)
    ensures
        r == registry::pause(interval_secs as nat, started, now),
{
    let interval: i128 = interval_secs as i128 * time::NANOS;
    match started {
        None => interval as u128,
        Some(s) => {
            let passed: i128 = time::nanos_of(now) - time::nanos_of(s);
            if passed < 0 {
                interval as u128
            } else if passed < interval {
                (interval - passed) as u128
            } else {
                0
            }
        },
    }
}

/// The review task for an agent that ran once and completed its task.
fn review_task(info: &AgentInfo, id: &str, result: &str) -> (r: ReviewTask)
    requires
        !info.perpetual,
    ensures
        Some(r@) == registry::review_of(
            info@,
            id@,
            (registry::TaskEventView::Complete { result: result@ }),
        ),
{
    let title = if info.task.as_str().is_empty() {
        let mut t = "Agent ".to_string();
        t.append(id);
        t.append(" completed");
        t
    } else {
        info.task.clone()
    };
    let mut description = "Auto-created from agent `".to_string();
    description.append(id);
    description.append("`");
    ReviewTask {
        title,
        description,
        tags: "agent".to_string(),
        body: registry::strip_json_envelope(result),
    }
}

proof fn lemma_unscheduled_none(st: SwarmView)
    ensures
        registry::unscheduled(st, Set::empty()) == st,
{
    let none = Set::<Seq<char>>::empty();
    let u = registry::unscheduled(st, none);
    assert forall|a: Seq<char>| !registry::stopped_with(st, none, a) by {}
    assert(u.sched_index =~= st.sched_index);
    assert(u.scheduled =~= st.scheduled);
    assert(u.agents =~= st.agents);
}

/// What is left running once the schedules were brought in line runs as its definition
/// says, and everything else that should run is to be started.
pub proof fn law_resync_matches_definitions(st: SwarmView, defs: Seq<AgentDefView>, k: Seq<char>)
    ensures
        ({
            let desired = registry::desired_of(defs);
            let after = registry::unscheduled(st, registry::stale(st.sched_index, desired));
            &&& after.sched_index.contains_key(k) ==> desired.contains_key(k)
                && after.sched_index[k].sig == registry::signature(desired[k])
                && after.sched_index[k] == st.sched_index[k]
            &&& desired.contains_key(k) ==> desired[k].id == k && registry::wanted(desired[k])
        }),
{
    lemma_desired_ids(defs);
}

/// A definition that is wanted as it already runs is not touched: its agent goes on.
pub proof fn law_resync_leaves_unchanged_agents(
    st: SwarmView,
    defs: Seq<AgentDefView>,
    k: Seq<char>,
)
    requires
        st.sched_index.contains_key(k),
        registry::desired_of(defs).contains_key(k),
        registry::signature(registry::desired_of(defs)[k]) == st.sched_index[k].sig,
        forall|j: Seq<char>| #[trigger]
            st.sched_index.contains_key(j) && j != k ==> st.sched_index[j].agent_id
                != st.sched_index[k].agent_id,
    ensures
        ({
            let after = registry::unscheduled(
                st,
                registry::stale(st.sched_index, registry::desired_of(defs)),
            );
            let a = st.sched_index[k].agent_id;
            &&& after.sched_index.contains_key(k)
            &&& st.agents.contains_key(a) ==> after.agents[a] == st.agents[a]
            &&& st.scheduled.contains_key(a) ==> after.scheduled.contains_key(a)
                && after.scheduled[a] == st.scheduled[a]
        }),
{
    let gone = registry::stale(st.sched_index, registry::desired_of(defs));
    let a = st.sched_index[k].agent_id;
    assert(!registry::stopped_with(st, gone, a)) by {
        if registry::stopped_with(st, gone, a) {
            let j = choose|j: Seq<char>|
                gone.contains(j) && #[trigger] st.sched_index.contains_key(j)
                    && st.sched_index[j].agent_id == a;
            assert(j == k);
        }
    }
}

/// An agent that was told to stop has been told for good: whatever changes the registry
/// afterwards, what controls it stays cancelled and keeps its policy. Another agent that is
/// registered under its id is another matter.
pub proof fn law_cancel_mark_lasts(st: SwarmView, cs: Seq<registry::Change>, id: Seq<char>)
    requires
        st.agents.contains_key(id),
        st.agents[id].control.cancelled,
        forall|i: int|
            0 <= i < cs.len() && (#[trigger] cs[i]) is Registered ==> cs[i]->Registered_spec.id
                != id,
    ensures
        registry::after_changes(st, cs).agents.contains_key(id),
        registry::after_changes(st, cs).agents[id].control == st.agents[id].control,
    decreases cs.len(),
{
    if cs.len() > 0 {
        let fewer = cs.drop_last();
        assert forall|i: int|
            0 <= i < fewer.len() && (#[trigger] fewer[i]) is Registered implies fewer[i]->Registered_spec.id
            != id by {
            assert(cs[i] == fewer[i]);
        }
        law_cancel_mark_lasts(st, fewer, id);
        law_change_keeps_control(registry::after_changes(st, fewer), cs.last(), id);
        assert(cs[cs.len() - 1] == cs.last());
    }
}

/// No change of the registry takes an agent out, gives it another policy or takes back that
/// it was told to stop.
pub proof fn law_change_keeps_control(st: SwarmView, c: registry::Change, id: Seq<char>)
    requires
        st.agents.contains_key(id),
        c is Registered ==> c->Registered_spec.id != id,
    ensures
        ({
            let after = registry::changed(st, c);
            &&& after.agents.contains_key(id)
            &&& after.agents[id].control.policy == st.agents[id].control.policy
            &&& st.agents[id].control.cancelled ==> after.agents[id].control.cancelled
        }),
{
}

/// A cancelled agent stays cancelled whatever its task still reports, until it is given
/// another task.
pub proof fn law_cancelled_sticks(
    e: AgentEntryView,
    ev: registry::TaskEventView,
    now: Seq<char>,
)
    requires
        e.info.status == AgentStatus::Cancelled,
    ensures
        registry::advanced(e, ev, now) == e,
{
}

/// An agent that was cancelled and does not rest is told to stop, and no agent that rests
/// between two cycles is.
pub proof fn law_cancel(e: AgentEntryView)
    ensures
        registry::resting(e) ==> registry::cancelled(e) == e && registry::swept(e) == e,
        !registry::resting(e) ==> registry::cancelled(e).control.cancelled
            && registry::cancelled(e).info.status == AgentStatus::Cancelled && registry::swept(
            e,
        ).control.cancelled,
        registry::cancelled(registry::cancelled(e)) == registry::cancelled(e),
        registry::swept(registry::swept(e)) == registry::swept(e),
{
}

/// A scheduled agent is never done: what ends its cycle leaves it resting or failed.
pub proof fn law_scheduled_agents_rest(
    e: AgentEntryView,
    ev: registry::TaskEventView,
    now: Seq<char>,
)
    requires
        e.info.perpetual,
        e.info.status != AgentStatus::Done,
    ensures
        registry::advanced(e, ev, now).info.status != AgentStatus::Done,
        ev is Complete && e.info.status != AgentStatus::Cancelled ==> registry::advanced(
            e,
            ev,
            now,
        ).info.status == AgentStatus::Idle,
{
}

/// The history never grows beyond its limit and always starts with the newest record.
pub proof fn law_history_is_bounded(
    history: Seq<HistoricAgentView>,
    r: registry::HistoricAgentView,
)
    ensures
        registry::recorded(history, r).len() <= registry::HISTORY_LIMIT,
        registry::recorded(history, r)[0] == r,
        forall|i: int|
            0 < i < registry::recorded(history, r).len() ==> #[trigger] registry::recorded(
                history,
                r,
            )[i] == history[i - 1],
{
}

/// Agents with different numbers have different ids, scheduled or not.
pub proof fn law_ids_are_unique(d: Seq<char>, e: Seq<char>, n: nat, m: nat)
    requires
        n != m,
    ensures
        registry::agent_id(n) != registry::agent_id(m),
        registry::schedule_id(d, n) != registry::schedule_id(e, m),
        registry::agent_id(n) != registry::schedule_id(e, m),
{
    reveal_strlit("agent-");
    reveal_strlit("sched-");
    reveal_strlit("-");
    assert(registry::agent_id(n)[0] == 'a');
    assert(registry::schedule_id(e, m)[0] == 's');
    assert("agent-"@ + text::decimal(n) =~= "agent"@ + "-"@ + text::decimal(n)) by {
        reveal_strlit("agent");
    }
    assert("agent-"@ + text::decimal(m) =~= "agent"@ + "-"@ + text::decimal(m)) by {
        reveal_strlit("agent");
    }
    lemma_numbered_apart("agent"@, "agent"@, n, m);
    lemma_numbered_apart("sched-"@ + d, "sched-"@ + e, n, m);
}

proof fn lemma_numbered_apart(a: Seq<char>, b: Seq<char>, n: nat, m: nat)
    requires
        n != m,
    ensures
        a + "-"@ + text::decimal(n) != b + "-"@ + text::decimal(m),
{
    reveal_strlit("-");
    let x = a + "-"@ + text::decimal(n);
    let y = b + "-"@ + text::decimal(m);
    let p = text::decimal(n);
    let q = text::decimal(m);
    text_facts::lemma_decimal_digits(n);
    text_facts::lemma_decimal_digits(m);
    if x == y {
        if p.len() == q.len() {
            assert(x.skip(x.len() - p.len()) =~= p);
            assert(y.skip(y.len() - q.len()) =~= q);
        } else if p.len() < q.len() {
            let i = x.len() - p.len() - 1;
            assert(x[i] == '-');
            assert(y[i] == q[i - (y.len() - q.len())]);
            assert(text::is_digit(q[i - (y.len() - q.len())]));
        } else {
            let i = y.len() - q.len() - 1;
            assert(y[i] == '-');
            assert(x[i] == p[i - (x.len() - p.len())]);
            assert(text::is_digit(p[i - (x.len() - p.len())]));
        }
    }
}

/// A scheduled agent never waits longer than its interval, and not at all once the
/// interval has passed.
pub proof fn law_pause_is_bounded(interval_secs: nat, started: Option<(i64, u32)>, now: (i64, u32))
    ensures
        0 <= registry::pause(interval_secs, started, now) <= interval_secs * time::NANOS,
        started matches Some(s) ==> (time::instant_nanos(now) - time::instant_nanos(s)
            >= interval_secs * time::NANOS ==> registry::pause(interval_secs, started, now) == 0),
{
    assert(interval_secs * time::NANOS >= 0) by (nonlinear_arith)
        requires
            interval_secs >= 0,
            time::NANOS >= 0,
    ;
}

/// An agent is launched as its definition says: with the model that the definition names,
/// whatever the default is, and with the default only where it names none; with its
/// instructions, its tools, its policy, its memory and its turns. One without an interval runs
/// the given task once; one with an interval runs again and again, a task that is given and
/// not blank before the definition's own.
pub proof fn law_launch_follows_the_definition(st: SwarmView, d: AgentDefView, task: Seq<char>)
    ensures
        registry::spawn_launch(st, d, task) matches Ok(l) ==> {
            &&& d.model matches Some(m) ==> l.spec.model_label == m
            &&& d.model is None ==> l.spec.model_label == st.model
            &&& l.spec.prompt == d.instructions
            &&& l.spec.allowed_tools == d.tools
            &&& l.spec.policy == d.policy
            &&& l.spec.role == crate::swarm::agent::Role::Coder
            &&& l.spec.def_name == Some(d.name)
            &&& d.memory_window matches Some(n) ==> l.spec.memory_window == n
            &&& d.memory_window is None ==> l.spec.memory_window == 20
            &&& d.max_turns matches Some(n) ==> l.spec.max_turns == n
            &&& d.max_turns is None ==> l.spec.max_turns == 10
            &&& l.spec.perpetual <==> d.schedule_mins is Some && d.schedule_mins->0 > 0
            &&& l.schedule is Some <==> l.spec.perpetual
            &&& !l.spec.perpetual ==> l.task == task && l.spec.id == "agent-"@ + text::decimal(
                st.next_id as nat,
            )
            &&& l.spec.perpetual ==> l.spec.id == "sched-"@ + d.id + "-"@ + text::decimal(
                st.next_id as nat,
            )
            &&& l.spec.perpetual && !text::blank(task) ==> l.task == task
            &&& l.spec.perpetual && text::blank(task) ==> d.task == Some(l.task)
            &&& l.spec.perpetual && d.schedule_mins->0 * 60 <= u64::MAX ==> (l.schedule->0).0
                == d.schedule_mins->0 * 60 && (l.schedule->0).1 == registry::signature(d)
        },
        registry::spawn_launch(st, d, task) is Err <==> d.schedule_mins is Some
            && d.schedule_mins->0 > 0 && text::blank(task) && (d.task is None || text::blank(
            d.task->0,
        )),
{
}

/// The default model of the swarm decides nothing of an agent but the model of one whose
/// definition names none.
pub proof fn law_default_model_is_a_default(
    st: SwarmView,
    other: Seq<char>,
    d: AgentDefView,
    task: Seq<char>,
)
    ensures
        ({
            let with_other = SwarmView { model: other, ..st };
            &&& d.model is Some ==> registry::spawn_launch(with_other, d, task)
                == registry::spawn_launch(st, d, task)
            &&& registry::spawn_launch(st, d, task) is Ok <==> registry::spawn_launch(
                with_other,
                d,
                task,
            ) is Ok
            &&& d.model is None && registry::spawn_launch(with_other, d, task) is Ok
                ==> registry::spawn_launch(with_other, d, task)->Ok_0.spec.model_label == other
        }),
{
}

/// A definition that is started on its schedule is launched as when it is spawned, with its
/// own task; one without an interval or a task is not.
pub proof fn law_schedule_follows_the_definition(st: SwarmView, d: AgentDefView)
    ensures
        registry::schedule_launch(st, d, None) is Ok <==> d.schedule_mins is Some
            && d.schedule_mins->0 > 0 && d.task is Some && !text::blank(d.task->0),
        registry::schedule_launch(st, d, None) matches Ok(l) ==> l.task == d.task->0
            && l.spec.perpetual && (d.model matches Some(m) ==> l.spec.model_label == m) && (
        d.model is None ==> l.spec.model_label == st.model),
        registry::schedule_launch(st, d, None) matches Ok(l) ==> registry::spawn_launch(
            st,
            d,
            d.task->0,
        ) == Ok::<_, Seq<char>>(l),
{
}

/// A launch takes a number of its own, and one that fails takes none; nothing else changes.
pub proof fn law_numbers_are_taken_once(
    st: SwarmView,
    launch: Result<registry::LaunchView, Seq<char>>,
)
    ensures
        ({
            let after = registry::numbered(st, launch);
            &&& launch is Ok && st.next_id < u64::MAX ==> after.next_id == st.next_id + 1
            &&& launch is Err ==> after == st
            &&& after.agents == st.agents && after.model == st.model && after.history == st.history
            &&& after.scheduled == st.scheduled && after.sched_index == st.sched_index
            &&& after.submissions == st.submissions
        }),
{
}

/// A new agent is in the registry as it was built, queued and not cancelled, and no other
/// agent changes.
pub proof fn law_new_agent_is_registered(
    st: SwarmView,
    spec: registry::AgentSpecView,
    now: Seq<char>,
    other: Seq<char>,
)
    ensures
        ({
            let after = registry::registered(st, spec, now);
            let e = after.agents[spec.id];
            &&& after.agents.contains_key(spec.id)
            &&& e.info.id == spec.id && e.info.model == spec.model_label
            &&& e.info.policy == spec.policy && e.control.policy == spec.policy
            &&& e.info.perpetual == spec.perpetual && e.info.def_name == spec.def_name
            &&& e.info.status == AgentStatus::Queued && !e.control.cancelled
            &&& e.info.task.len() == 0 && e.info.cycle_completed.len() == 0
            &&& e.info.started == now && e.info.cycle_started == now
            &&& other != spec.id ==> (after.agents.contains_key(other) <==> st.agents.contains_key(
                other,
            )) && after.agents[other] == st.agents[other]
            &&& after.history == st.history && after.submissions == st.submissions
        }),
{
}

/// A task that an agent is given is its task from then on, under its submission id, and starts
/// a cycle; what else is known of the agent, and all other agents, stay.
pub proof fn law_task_is_given(
    st: SwarmView,
    id: Seq<char>,
    task: Seq<char>,
    submission: Seq<char>,
    now: Seq<char>,
    other: Seq<char>,
)
    ensures
        ({
            let after = registry::published(st, id, task, submission, now);
            &&& after.submissions.contains_key(submission) && after.submissions[submission] == id
            &&& other != submission ==> (after.submissions.contains_key(other)
                <==> st.submissions.contains_key(other)) && after.submissions[other]
                == st.submissions[other]
            &&& st.agents.contains_key(id) ==> {
                let e = after.agents[id];
                let b = st.agents[id];
                &&& after.agents.contains_key(id)
                &&& e.info.task == task && e.info.status == AgentStatus::Queued
                &&& e.info.cycle_started == now && e.info.cycle_completed.len() == 0
                &&& e.info.id == b.info.id && e.info.model == b.info.model && e.info.started
                    == b.info.started && e.info.def_name == b.info.def_name && e.info.perpetual
                    == b.info.perpetual && e.control == b.control
            }
            &&& other != id && st.agents.contains_key(other) ==> after.agents[other]
                == st.agents[other]
            &&& after.agents.dom() == st.agents.dom()
            &&& after.scheduled == st.scheduled && after.sched_index == st.sched_index
        }),
{
    let after = registry::published(st, id, task, submission, now);
    assert(after.agents.dom() =~= st.agents.dom());
}

/// What happens to a task is shown at its agent and at no other: it runs once it has started,
/// and is done or has failed once it has ended, a scheduled agent resting instead of being
/// done; and the time of the end is kept.
pub proof fn law_events_are_shown(
    st: SwarmView,
    id: Seq<char>,
    ev: registry::TaskEventView,
    now: Seq<char>,
    other: Seq<char>,
)
    requires
        st.agents.contains_key(id),
    ensures
        ({
            let after = registry::pumped(st, id, ev, now);
            let b = st.agents[id];
            let e = after.agents[id];
            &&& after.agents.dom() == st.agents.dom()
            &&& other != id && st.agents.contains_key(other) ==> after.agents[other]
                == st.agents[other]
            &&& e.control == b.control && e.info.task == b.info.task && e.info.model
                == b.info.model && e.info.started == b.info.started && e.info.cycle_started
                == b.info.cycle_started
            &&& b.info.status != AgentStatus::Cancelled ==> {
                &&& ev is Started ==> e.info.status == AgentStatus::Running
                &&& ev is Complete && !b.info.perpetual ==> e.info.status == AgentStatus::Done
                &&& ev is Complete && b.info.perpetual ==> e.info.status == AgentStatus::Idle
                &&& ev is Error ==> e.info.status == AgentStatus::Error
                &&& ev is Complete || ev is Error ==> e.info.cycle_completed == now
                &&& ev is Started || ev is Other ==> e.info.cycle_completed
                    == b.info.cycle_completed
                &&& ev is Other ==> e == b
            }
            &&& after.submissions == st.submissions && after.scheduled == st.scheduled
                && after.sched_index == st.sched_index && after.model == st.model
        }),
{
    assert(registry::pumped(st, id, ev, now).agents.dom() =~= st.agents.dom());
}

/// The end of a task is recorded in front of the history with the task, the model, the times
/// and the whole result, and nothing else is recorded.
pub proof fn law_ends_are_recorded(
    st: SwarmView,
    id: Seq<char>,
    ev: registry::TaskEventView,
    now: Seq<char>,
)
    requires
        st.agents.contains_key(id),
    ensures
        ({
            let after = registry::pumped(st, id, ev, now);
            let info = after.agents[id].info;
            let r = after.history[0];
            &&& ev is Started || ev is Other ==> after.history == st.history
            &&& ev is Complete || ev is Error ==> {
                &&& after.history.len() > 0
                &&& r.id == id && r.task == info.task && r.model == info.model
                &&& r.status == info.status && r.def_name == info.def_name
                &&& r.started == info.started && r.completed == now
                &&& ev matches registry::TaskEventView::Complete { result } ==> r.result == Some(
                    result,
                )
                &&& ev is Error ==> r.result is None
            }
        }),
{
}

/// A task that an agent completed once is put up for review with the whole of its result; that
/// of a scheduled agent is not, and neither is one that failed.
pub proof fn law_results_are_reviewed(
    st: SwarmView,
    id: Seq<char>,
    ev: registry::TaskEventView,
    now: Seq<char>,
)
    requires
        st.agents.contains_key(id),
    ensures
        ({
            let info = st.agents[id].info;
            let p = registry::pump_outcome(st, id, ev, now);
            &&& p.agent_id == id
            &&& p.ended <==> ev is Complete || ev is Error
            &&& p.review is Some <==> ev is Complete && !info.perpetual
            &&& p.review matches Some(t) ==> {
                &&& info.task.len() > 0 ==> t.title == info.task
                &&& info.task.len() == 0 ==> t.title == "Agent "@ + id + " completed"@
                &&& t.description == "Auto-created from agent `"@ + id + "`"@
                &&& t.tags == "agent"@
                &&& ev matches registry::TaskEventView::Complete { result } ==> (!text::begins_with(
                    text::trimmed(result),
                    seq!['{'],
                ) ==> t.body == result)
            }
        }),
{
    if let registry::TaskEventView::Complete { result } = ev {
        let t = text::trimmed(result);
        if text::heads(t, '{') {
            assert(t.subrange(0, 1) =~= seq!['{']);
        }
    }
}

/// A reply in an envelope is taken out of it: the text under `response`, the whole of it; any
/// other reply is left as it is.
pub proof fn law_envelope_is_opened(
    t: Seq<char>,
    members: Seq<(Seq<char>, Seq<char>)>,
    i: int,
    s: Seq<char>,
)
    ensures
        crate::json::json_of(text::trimmed(t)) == Ok::<_, Seq<char>>(
            crate::json::JsonView::Object(members),
        ) && text::heads(text::trimmed(t), '{') && 0 <= i < members.len() && members[i].0
            == "response"@ && (forall|k: int|
            0 <= k < i ==> (#[trigger] members[k]).0 != "response"@) && crate::json::json_of(
            members[i].1,
        ) == Ok::<_, Seq<char>>(crate::json::JsonView::Text(s)) ==> registry::without_envelope(t)
            == s,
        !(crate::json::json_of(text::trimmed(t)) matches Ok(crate::json::JsonView::Object(_)))
            ==> registry::without_envelope(t) == t,
{
    if crate::json::json_of(text::trimmed(t)) == Ok::<_, Seq<char>>(
        crate::json::JsonView::Object(members),
    ) && 0 <= i < members.len() && members[i].0 == "response"@ && (forall|k: int|
        0 <= k < i ==> (#[trigger] members[k]).0 != "response"@) {
        crate::json::law_member_is_found(text::trimmed(t), members, i, "response"@);
    }
}

/// Cancelling one agent changes no other, and cancelling all stops every agent that does not
/// rest between two cycles; none is taken out of the registry.
pub proof fn law_cancelling(st: SwarmView, id: Seq<char>, other: Seq<char>)
    ensures
        ({
            let one = registry::with_cancelled(st, id);
            let all = registry::all_cancelled(st);
            &&& one.agents.dom() == st.agents.dom() && all.agents.dom() == st.agents.dom()
            &&& other != id && st.agents.contains_key(other) ==> one.agents[other]
                == st.agents[other]
            &&& st.agents.contains_key(id) ==> {
                let b = st.agents[id];
                let rests = b.info.perpetual && b.info.status == AgentStatus::Idle;
                &&& rests ==> one.agents[id] == b && all.agents[id] == b
                &&& !rests ==> one.agents[id].control.cancelled && one.agents[id].info.status
                    == AgentStatus::Cancelled && all.agents[id].control.cancelled
                &&& !rests && (b.info.status == AgentStatus::Queued || b.info.status
                    == AgentStatus::Running) ==> all.agents[id].info.status
                    == AgentStatus::Cancelled
                &&& b.info.status != AgentStatus::Queued && b.info.status != AgentStatus::Running
                    ==> all.agents[id].info.status == b.info.status
                &&& one.agents[id].info.task == b.info.task && all.agents[id].info.task
                    == b.info.task
            }
            &&& one.history == st.history && all.history == st.history
            &&& one.scheduled == st.scheduled && all.scheduled == st.scheduled
        }),
{
    assert(registry::with_cancelled(st, id).agents.dom() =~= st.agents.dom());
    assert(registry::all_cancelled(st).agents.dom() =~= st.agents.dom());
}

/// A schedule that is stopped is gone with its agent: the agent is cancelled and will not be
/// woken; every other schedule and every other agent stays.
pub proof fn law_stopped_schedules(st: SwarmView, gone: Set<Seq<char>>, k: Seq<char>, a: Seq<char>)
    ensures
        ({
            let after = registry::unscheduled(st, gone);
            &&& after.sched_index.contains_key(k) <==> st.sched_index.contains_key(k)
                && !gone.contains(k)
            &&& after.sched_index.contains_key(k) ==> after.sched_index[k] == st.sched_index[k]
            &&& st.sched_index.contains_key(k) && gone.contains(k) ==> {
                let s = st.sched_index[k].agent_id;
                &&& !after.scheduled.contains_key(s)
                &&& st.agents.contains_key(s) ==> after.agents[s].control.cancelled
                    && after.agents[s].info.status == AgentStatus::Cancelled
            }
            &&& (forall|j: Seq<char>|
                gone.contains(j) && #[trigger] st.sched_index.contains_key(j)
                    ==> st.sched_index[j].agent_id != a) ==> (st.agents.contains_key(a)
                ==> after.agents.contains_key(a) && after.agents[a] == st.agents[a]) && (
            after.scheduled.contains_key(a) <==> st.scheduled.contains_key(a)) && (
            st.scheduled.contains_key(a) ==> after.scheduled[a] == st.scheduled[a])
            &&& after.history == st.history && after.submissions == st.submissions
        }),
{
    if st.sched_index.contains_key(k) && gone.contains(k) {
        assert(registry::stopped_with(st, gone, st.sched_index[k].agent_id));
    }
}

/// A schedule is kept exactly if its definition is still wanted and nothing that its agent
/// depends on has changed.
pub proof fn law_stale_schedules(
    index: Map<Seq<char>, ScheduledView>,
    desired: Map<Seq<char>, AgentDefView>,
    k: Seq<char>,
)
    requires
        index.contains_key(k),
    ensures
        registry::stale(index, desired).contains(k) <==> !(desired.contains_key(k) && ({
            let d = desired[k];
            let s = index[k].sig;
            &&& d.schedule_mins == s.schedule_mins
            &&& d.task == s.task
            &&& d.instructions == s.instructions
            &&& d.tools == s.tools
            &&& d.model == s.model
            &&& d.memory_window == s.memory_window
            &&& d.max_turns == s.max_turns
            &&& d.policy == s.policy
        })),
{
    if desired.contains_key(k) {
        let d = desired[k];
        let s = index[k].sig;
        assert(registry::signature(d) =~= s <==> (d.schedule_mins == s.schedule_mins && d.task
            == s.task && d.instructions == s.instructions && d.tools == s.tools && d.model
            == s.model && d.memory_window == s.memory_window && d.max_turns == s.max_turns
            && d.policy == s.policy));
    }
}

/// A definition should run on its schedule exactly if it is the user's own and has an interval
/// and a task; of two with one id the later counts.
pub proof fn law_wanted_definitions(defs: Seq<AgentDefView>, i: int, k: Seq<char>)
    ensures
        0 <= i < defs.len() ==> (registry::wanted(defs[i]) <==> !defs[i].builtin
            && defs[i].schedule_mins is Some && defs[i].schedule_mins->0 > 0 && defs[i].task is Some
            && !text::blank(defs[i].task->0)),
        0 <= i < defs.len() && registry::wanted(defs[i]) && (forall|j: int|
            i < j < defs.len() && (#[trigger] defs[j]).id == defs[i].id ==> !registry::wanted(
                defs[j],
            )) ==> registry::desired_of(defs).contains_key(defs[i].id) && registry::desired_of(
            defs,
        )[defs[i].id] == defs[i],
        registry::desired_of(defs).contains_key(k) ==> exists|j: int|
            0 <= j < defs.len() && (#[trigger] defs[j]).id == k && registry::wanted(defs[j])
                && registry::desired_of(defs)[k] == defs[j],
    decreases defs.len(),
{
    if defs.len() > 0 {
        let rest = defs.drop_last();
        let last = defs.len() - 1;
        law_wanted_definitions(rest, i, k);
        assert(defs[last] == defs.last());
        if registry::desired_of(defs).contains_key(k) {
            if registry::wanted(defs.last()) && defs.last().id == k {
                assert(defs[last].id == k);
            } else {
                let j = choose|j: int|
                    0 <= j < rest.len() && (#[trigger] rest[j]).id == k && registry::wanted(rest[j])
                        && registry::desired_of(rest)[k] == rest[j];
                assert(defs[j] == rest[j]);
            }
        }
        if 0 <= i < last && registry::wanted(defs[i]) && (forall|j: int|
            i < j < defs.len() && (#[trigger] defs[j]).id == defs[i].id ==> !registry::wanted(
                defs[j],
            )) {
            assert(rest[i] == defs[i]);
            assert forall|j: int|
                i < j < rest.len() && (#[trigger] rest[j]).id == rest[i].id implies !registry::wanted(
                rest[j],
            ) by {
                assert(defs[j] == rest[j]);
            }
            if defs[last].id == defs[i].id {
                assert(!registry::wanted(defs[last]));
            }
        }
    }
}

/// The definitions of all teams are looked at, and no others.
pub proof fn law_all_definitions_count(ts: Seq<crate::swarm::teams::TeamWithAgentsView>, d: AgentDefView)
    ensures
        registry::defs_of(ts).contains(d) <==> exists|i: int|
            0 <= i < ts.len() && (#[trigger] ts[i]).agents.contains(d),
    decreases ts.len(),
{
    if ts.len() > 0 {
        let rest = ts.drop_last();
        law_all_definitions_count(rest, d);
        let all = registry::defs_of(ts);
        let before = registry::defs_of(rest);
        let own = ts.last().agents;
        assert(ts[ts.len() - 1] == ts.last());
        if before.contains(d) {
            let k = choose|k: int| 0 <= k < before.len() && before[k] == d;
            assert(all[k] == d);
            let i = choose|i: int| 0 <= i < rest.len() && (#[trigger] rest[i]).agents.contains(d);
            assert(ts[i] == rest[i]);
        }
        if own.contains(d) {
            let k = choose|k: int| 0 <= k < own.len() && own[k] == d;
            assert(all[before.len() + k] == d);
        }
        if all.contains(d) {
            let k = choose|k: int| 0 <= k < all.len() && all[k] == d;
            if k < before.len() {
                assert(before[k] == d);
            } else {
                assert(own[k - before.len()] == d);
            }
        }
        if exists|i: int| 0 <= i < ts.len() && (#[trigger] ts[i]).agents.contains(d) {
            let i = choose|i: int| 0 <= i < ts.len() && (#[trigger] ts[i]).agents.contains(d);
            if i < rest.len() {
                assert(rest[i] == ts[i]);
            }
        }
    }
}

/// A scheduled agent starts its next cycle exactly one interval after the last one started, or
/// at once where that time has passed; where the start is not known it waits a whole interval.
pub proof fn law_cycles_start_on_time(interval_secs: nat, s: (i64, u32), now: (i64, u32))
    ensures
        ({
            let wait = registry::pause(interval_secs, Some(s), now);
            let start = s.0 * 1_000_000_000 + s.1;
            let time = now.0 * 1_000_000_000 + now.1;
            let due = start + interval_secs * 1_000_000_000;
            &&& start <= time <= due ==> time + wait == due
            &&& time > due ==> wait == 0
            &&& time < start ==> wait == interval_secs * 1_000_000_000
        }),
        registry::pause(interval_secs, None, now) == interval_secs * 1_000_000_000,
{
    assert(interval_secs * 1_000_000_000 >= 0) by (nonlinear_arith)
        requires
            interval_secs >= 0,
    ;
}

/// An agent is put on the schedule with its interval and its task, under its definition, and no
/// other schedule changes.
pub proof fn law_armed_agent_is_scheduled(
    st: SwarmView,
    def_id: Seq<char>,
    entry: ScheduleEntryView,
    running: ScheduledView,
    other: Seq<char>,
)
    ensures
        ({
            let after = registry::armed(st, def_id, entry, running);
            &&& after.scheduled.contains_key(running.agent_id) && after.scheduled[running.agent_id]
                == entry
            &&& after.sched_index.contains_key(def_id) && after.sched_index[def_id] == running
            &&& other != running.agent_id && st.scheduled.contains_key(other)
                ==> after.scheduled.contains_key(other) && after.scheduled[other]
                == st.scheduled[other]
            &&& other != def_id && st.sched_index.contains_key(other)
                ==> after.sched_index.contains_key(other) && after.sched_index[other]
                == st.sched_index[other]
            &&& after.agents == st.agents && after.history == st.history
        }),
{
}

/// A cycle began when the agent says that it began; nothing is known of an agent that there is
/// not, or that began none.
pub proof fn law_start_of_a_cycle(st: SwarmView, id: Seq<char>)
    ensures
        st.agents.contains_key(id) && st.agents[id].info.cycle_started.len() > 0
            ==> registry::cycle_start(st, id) == time::rfc3339_instant(
            st.agents[id].info.cycle_started,
        ),
        !st.agents.contains_key(id) ==> registry::cycle_start(st, id) is None,
        st.agents.contains_key(id) && st.agents[id].info.cycle_started.len() == 0
            ==> registry::cycle_start(st, id) is None,
{
}

} // verus!
